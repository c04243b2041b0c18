//! Building the completion request for one chunk.
//!
//! A request carries two instructions: the system instruction (a
//! configured override, or a built-in default) and the user instruction,
//! which embeds the chunk verbatim between delimiter markers and appends
//! the task description asking for a JSON object with a "qa_pairs" list.
//! The model identifier, the output budget and the JSON-object response
//! encoding are fixed.

use vstd::prelude::*;

verus! {

/// A chat-completion request, constructed fresh for each chunk.
pub struct CompletionRequest {
    pub system: String,
    pub user: String,
    pub model: String,
    pub max_tokens: u16,
    pub json_object: bool,
}

/// The built-in system instruction, used when no override is configured.
pub open spec fn default_system_prompt() -> Seq<char> {
    "As a highly skilled assistant, you are tasked with generating informative question and answer pairs from the provided text. Focus on crafting Q&A pairs that are relevant to the primary subject matter of the text. Your questions should be engaging and answers concise, avoiding details of specific examples that are not representative of the text's broader themes. Aim for a comprehensive understanding that captures the essence of the content without being sidetracked by less relevant details."@
}

/// What the user instruction opens with, before the chunk.
pub open spec fn user_prompt_prefix() -> Seq<char> {
    "\n    Here is the user input to work with:\n    ---\n    "@
}

/// What the user instruction closes with, after the chunk: the task
/// description and the requested JSON shape.
pub open spec fn user_prompt_suffix() -> Seq<char> {
    "\n    ---\n    Your task is to dissect this text for its central themes and most significant details, crafting question and answer pairs that reflect the core message and primary content. Avoid questions about specific examples that do not contribute to the overall understanding of the subject. The questions should cover different types: factual, inferential, thematic, etc., and answers must be concise and pertinent to the text's main intent. Please generate as many relevant question and answers as possible, focusing on the significance and relevance of each to the text's main topic. Provide the results in the following JSON format:\n    {\n        \"qa_pairs\": [\n            {\n                \"question\": \"<Your question>\",\n                \"answer\": \"<Your answer>\"\n            },\n            // ... additional Q&A pairs based on text relevance\n        ]\n    }"@
}

/// The fixed model identifier of every request.
pub open spec fn model_name() -> Seq<char> {
    "gpt-4-1106-preview"@
}

/// The built-in system instruction, as a string.
pub fn default_sys_prompt() -> (r: String)
    ensures
        r@ == default_system_prompt(),
{
    String::from_str(
        "As a highly skilled assistant, you are tasked with generating informative question and answer pairs from the provided text. Focus on crafting Q&A pairs that are relevant to the primary subject matter of the text. Your questions should be engaging and answers concise, avoiding details of specific examples that are not representative of the text's broader themes. Aim for a comprehensive understanding that captures the essence of the content without being sidetracked by less relevant details.",
    )
}

/// Wraps one chunk into the user instruction: the chunk stands verbatim
/// between the delimiters, with the task description appended.
pub fn build_user_prompt(chunk: &str) -> (r: String)
    ensures
        r@ == user_prompt_prefix() + chunk@ + user_prompt_suffix(),
{
    let mut s = String::from_str("\n    Here is the user input to work with:\n    ---\n    ");
    s.append(chunk);
    s.append(
        "\n    ---\n    Your task is to dissect this text for its central themes and most significant details, crafting question and answer pairs that reflect the core message and primary content. Avoid questions about specific examples that do not contribute to the overall understanding of the subject. The questions should cover different types: factual, inferential, thematic, etc., and answers must be concise and pertinent to the text's main intent. Please generate as many relevant question and answers as possible, focusing on the significance and relevance of each to the text's main topic. Provide the results in the following JSON format:\n    {\n        \"qa_pairs\": [\n            {\n                \"question\": \"<Your question>\",\n                \"answer\": \"<Your answer>\"\n            },\n            // ... additional Q&A pairs based on text relevance\n        ]\n    }",
    );
    s
}

/// Builds the completion request for one chunk: the configured system
/// instruction override when there is one, else the built-in default; the
/// chunk wrapped into the user instruction; one fixed model; an output
/// budget of 4000 tokens; and JSON-object output.
pub fn build_request(chunk: &str, sys_override: Option<String>) -> (r: CompletionRequest)
    ensures
        r.system@ == match sys_override {
            Some(s) => s@,
            None => default_system_prompt(),
        },
        r.user@ == user_prompt_prefix() + chunk@ + user_prompt_suffix(),
        r.model@ == model_name(),
        r.max_tokens == 4000,
        r.json_object,
{
    let system = match sys_override {
        Some(s) => s,
        None => default_sys_prompt(),
    };
    CompletionRequest {
        system,
        user: build_user_prompt(chunk),
        model: String::from_str("gpt-4-1106-preview"),
        max_tokens: 4000,
        json_object: true,
    }
}

} // verus!
