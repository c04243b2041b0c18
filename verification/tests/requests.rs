use qa_pipeline::cron::{cron_line, get_cron_time_with_date};
use qa_pipeline::prompt::{build_request, build_user_prompt, default_sys_prompt};

const TASK_SUFFIX: &str = "\n    ---\n    Your task is to dissect this text for its central themes and most significant details, crafting question and answer pairs that reflect the core message and primary content. Avoid questions about specific examples that do not contribute to the overall understanding of the subject. The questions should cover different types: factual, inferential, thematic, etc., and answers must be concise and pertinent to the text's main intent. Please generate as many relevant question and answers as possible, focusing on the significance and relevance of each to the text's main topic. Provide the results in the following JSON format:\n    {\n        \"qa_pairs\": [\n            {\n                \"question\": \"<Your question>\",\n                \"answer\": \"<Your answer>\"\n            },\n            // ... additional Q&A pairs based on text relevance\n        ]\n    }";

#[test]
fn user_prompt_embeds_the_chunk_between_delimiters() {
    let user = build_user_prompt("Some chunk text.\n");
    let expected = format!(
        "\n    Here is the user input to work with:\n    ---\n    {}{}",
        "Some chunk text.\n", TASK_SUFFIX
    );
    assert_eq!(user, expected);
}

#[test]
fn request_uses_the_default_system_prompt_without_override() {
    let req = build_request("chunk", None);
    assert_eq!(req.system, default_sys_prompt());
    assert!(req.system.starts_with("As a highly skilled assistant"));
    assert_eq!(req.model, "gpt-4-1106-preview");
    assert_eq!(req.max_tokens, 4000);
    assert!(req.json_object);
}

#[test]
fn request_prefers_the_configured_override() {
    let req = build_request("chunk", Some("be brief".to_string()));
    assert_eq!(req.system, "be brief");
    assert_eq!(req.user, build_user_prompt("chunk"));
}

#[test]
fn cron_line_formats_each_part_as_two_digits() {
    assert_eq!(cron_line(0, 0, 1, 1), "02 00 01 01 *");
    assert_eq!(cron_line(7, 9, 3, 4), "09 09 03 04 *");
}

#[test]
fn cron_line_adds_two_minutes_without_wrapping() {
    assert_eq!(cron_line(58, 23, 31, 12), "60 23 31 12 *");
    assert_eq!(cron_line(59, 0, 15, 6), "61 00 15 06 *");
}

#[test]
fn scheduled_time_is_a_five_field_cron_line() {
    let line = get_cron_time_with_date();
    let fields: Vec<&str> = line.split(' ').collect();
    assert_eq!(fields.len(), 5);
    assert_eq!(fields[4], "*");
    for f in &fields[0..4] {
        assert_eq!(f.len(), 2);
        assert!(f.chars().all(|c| c.is_ascii_digit()));
    }
}
