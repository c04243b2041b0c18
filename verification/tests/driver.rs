use qa_pipeline::extract::QAPair;
use qa_pipeline::json::JsonValue;
use qa_pipeline::pipeline::{
    make_upload_record, outcome_of_response, record_report, tally_reports, ChunkOutcome,
    ChunkReport, PipelineCounters,
};

fn pair(q: &str, a: &str) -> QAPair {
    QAPair { question: q.to_string(), answer: a.to_string() }
}

#[test]
fn failed_middle_chunk_still_counts_and_pairs_add_up() {
    let reports = vec![
        ChunkReport {
            outcome: ChunkOutcome::Extracted(vec![pair("q1", "a1")]),
            uploads_accepted: vec![true],
        },
        ChunkReport { outcome: ChunkOutcome::Failed, uploads_accepted: vec![] },
        ChunkReport {
            outcome: ChunkOutcome::Extracted(vec![pair("q2", "a2"), pair("q3", "a3")]),
            uploads_accepted: vec![true, true],
        },
    ];
    let c = tally_reports(&reports);
    assert_eq!(c.chunks_done, 3);
    assert_eq!(c.pairs_total, 3);
}

#[test]
fn no_result_chunks_count_as_processed_with_zero_pairs() {
    let reports = vec![
        ChunkReport { outcome: ChunkOutcome::NoResult, uploads_accepted: vec![] },
        ChunkReport { outcome: ChunkOutcome::NoResult, uploads_accepted: vec![] },
    ];
    let c = tally_reports(&reports);
    assert_eq!(c.chunks_done, 2);
    assert_eq!(c.pairs_total, 0);
}

#[test]
fn upload_failures_never_change_the_pair_counter() {
    let all_accepted = vec![
        ChunkReport {
            outcome: ChunkOutcome::Extracted(vec![pair("q1", "a1"), pair("q2", "a2")]),
            uploads_accepted: vec![true, true],
        },
    ];
    let all_refused = vec![
        ChunkReport {
            outcome: ChunkOutcome::Extracted(vec![pair("q1", "a1"), pair("q2", "a2")]),
            uploads_accepted: vec![false, false],
        },
    ];
    let a = tally_reports(&all_accepted);
    let b = tally_reports(&all_refused);
    assert_eq!(a.pairs_total, b.pairs_total);
    assert_eq!(a.pairs_total, 2);
}

#[test]
fn an_empty_run_tallies_nothing() {
    let c = tally_reports(&Vec::new());
    assert_eq!(c.chunks_done, 0);
    assert_eq!(c.pairs_total, 0);
}

#[test]
fn record_report_advances_both_counters() {
    let c = PipelineCounters { chunks_done: 4, pairs_total: 7 };
    let r = ChunkReport {
        outcome: ChunkOutcome::Extracted(vec![pair("q", "a")]),
        uploads_accepted: vec![false],
    };
    let out = record_report(c, &r);
    assert_eq!(out.chunks_done, 5);
    assert_eq!(out.pairs_total, 8);
}

#[test]
fn outcome_of_a_missing_answer_is_no_result() {
    assert!(matches!(outcome_of_response(None), ChunkOutcome::NoResult));
}

#[test]
fn outcome_of_a_refused_payload_is_no_result() {
    let o = outcome_of_response(Some("not json".to_string()));
    assert!(matches!(o, ChunkOutcome::NoResult));
}

#[test]
fn outcome_of_a_good_payload_is_its_pairs() {
    let payload = "{\"qa_pairs\":[{\"question\":\"Q1\",\"answer\":\"A1\"}]}";
    match outcome_of_response(Some(payload.to_string())) {
        ChunkOutcome::Extracted(ps) => {
            assert_eq!(ps.len(), 1);
            assert_eq!(ps[0].question, "Q1");
            assert_eq!(ps[0].answer, "A1");
        }
        _ => panic!("a well-formed payload must yield its pairs"),
    }
}

#[test]
fn upload_record_has_the_two_sink_columns() {
    let r = make_upload_record(&pair("what?", "that."));
    match r {
        JsonValue::Obj(entries) => {
            assert_eq!(entries.len(), 2);
            assert_eq!(entries[0].0, "Question");
            assert!(matches!(&entries[0].1, JsonValue::Str(s) if s == "what?"));
            assert_eq!(entries[1].0, "Answer");
            assert!(matches!(&entries[1].1, JsonValue::Str(s) if s == "that."));
        }
        _ => panic!("an upload record is an object"),
    }
}
