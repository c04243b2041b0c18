use qa_pipeline::extract::{parse_qa_payload, parse_string_list};

#[test]
fn one_pair_payload_yields_that_pair() {
    let pairs = parse_qa_payload("{\"qa_pairs\":[{\"question\":\"Q1\",\"answer\":\"A1\"}]}")
        .expect("well-formed payload");
    assert_eq!(pairs.len(), 1);
    assert_eq!(pairs[0].question, "Q1");
    assert_eq!(pairs[0].answer, "A1");
}

#[test]
fn pairs_keep_list_order_and_duplicates() {
    let payload = "{\"qa_pairs\":[\
        {\"question\":\"Q1\",\"answer\":\"A1\"},\
        {\"question\":\"Q2\",\"answer\":\"A2\"},\
        {\"question\":\"Q1\",\"answer\":\"A1\"}]}";
    let pairs = parse_qa_payload(payload).expect("well-formed payload");
    assert_eq!(pairs.len(), 3);
    assert_eq!(pairs[0].question, "Q1");
    assert_eq!(pairs[1].question, "Q2");
    assert_eq!(pairs[2].answer, "A1");
}

#[test]
fn payload_without_qa_pairs_key_yields_zero_pairs() {
    let pairs = parse_qa_payload("{\"other_key\":[]}").expect("still a valid payload");
    assert!(pairs.is_empty());
}

#[test]
fn other_keys_with_valid_pair_lists_are_ignored() {
    let payload = "{\"other_key\":[{\"question\":\"Q\",\"answer\":\"A\"}]}";
    let pairs = parse_qa_payload(payload).expect("still a valid payload");
    assert!(pairs.is_empty());
}

#[test]
fn empty_object_payload_yields_zero_pairs() {
    let pairs = parse_qa_payload("{}").expect("an empty object is a valid payload");
    assert!(pairs.is_empty());
}

#[test]
fn empty_pair_list_yields_zero_pairs() {
    let pairs = parse_qa_payload("{\"qa_pairs\":[]}").expect("an empty list is a valid payload");
    assert!(pairs.is_empty());
}

#[test]
fn non_json_payload_yields_no_result() {
    assert!(parse_qa_payload("not json").is_none());
}

#[test]
fn non_object_payload_yields_no_result() {
    assert!(parse_qa_payload("[1,2,3]").is_none());
    assert!(parse_qa_payload("\"not an object\"").is_none());
}

#[test]
fn member_that_is_not_a_pair_list_refuses_the_payload() {
    assert!(parse_qa_payload("{\"qa_pairs\":[1]}").is_none());
    assert!(parse_qa_payload("{\"qa_pairs\":{}}").is_none());
    assert!(parse_qa_payload("{\"qa_pairs\":[],\"junk\":5}").is_none());
}

#[test]
fn pair_missing_a_field_refuses_the_payload() {
    assert!(parse_qa_payload("{\"qa_pairs\":[{\"question\":\"Q\"}]}").is_none());
    assert!(parse_qa_payload("{\"qa_pairs\":[{\"question\":\"Q\",\"answer\":3}]}").is_none());
}

#[test]
fn extra_fields_in_a_pair_object_are_ignored() {
    let payload = "{\"qa_pairs\":[{\"question\":\"Q\",\"answer\":\"A\",\"score\":7}]}";
    let pairs = parse_qa_payload(payload).expect("extra members do not hurt");
    assert_eq!(pairs.len(), 1);
    assert_eq!(pairs[0].question, "Q");
    assert_eq!(pairs[0].answer, "A");
}

#[test]
fn string_list_input_parses_in_order() {
    let texts = parse_string_list("[\"first\",\"second\"]").expect("a list of strings");
    assert_eq!(texts, vec!["first".to_string(), "second".to_string()]);
}

#[test]
fn string_list_refuses_other_shapes() {
    assert!(parse_string_list("not json").is_none());
    assert!(parse_string_list("{\"a\":1}").is_none());
    assert!(parse_string_list("[1]").is_none());
    assert!(parse_string_list("[\"ok\",2]").is_none());
}

#[test]
fn empty_string_list_parses_empty() {
    let texts = parse_string_list("[]").expect("an empty list of strings");
    assert!(texts.is_empty());
}
