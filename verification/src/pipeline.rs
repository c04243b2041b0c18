//! The pipeline driver's bookkeeping.
//!
//! The driver walks the chunks in order and, for each one, builds a
//! request, asks the completion service, extracts pairs from the answer
//! and hands one record per pair to the sink. Whatever happens to a chunk,
//! the driver moves on to the next: a chunk's fate is an outcome, never an
//! abort. Two counters run along: chunks processed and pairs extracted.
//! The sink's answer to an upload is deliberately unobserved, so the pair
//! counter reflects extraction, not successful persistence.

use crate::extract::{pair_views, parse_qa_payload, payload_pairs, QAPair};
use crate::json::JsonValue;
use vstd::prelude::*;

verus! {

/// How processing one chunk ended: pairs were extracted; the service or
/// the payload yielded no result (a recoverable failure, logged and
/// skipped); or the request could not even be built.
pub enum ChunkOutcome {
    Extracted(Vec<QAPair>),
    NoResult,
    Failed,
}

/// What one chunk leaves behind: its outcome, and for each extracted pair
/// whether the sink accepted the record. The driver discards the
/// acceptances unread: delivery is best-effort, at most once.
pub struct ChunkReport {
    pub outcome: ChunkOutcome,
    pub uploads_accepted: Vec<bool>,
}

/// The running counters the driver logs after every chunk.
pub struct PipelineCounters {
    pub chunks_done: usize,
    pub pairs_total: usize,
}

/// The pairs one outcome contributes to the pair counter.
pub open spec fn outcome_pairs(o: ChunkOutcome) -> nat {
    match o {
        ChunkOutcome::Extracted(ps) => ps@.len(),
        _ => 0,
    }
}

/// The pairs a whole run's reports contribute, in order.
pub open spec fn total_pairs(rs: Seq<ChunkReport>) -> nat
    decreases rs.len(),
{
    if rs.len() == 0 {
        0
    } else {
        outcome_pairs(rs[0].outcome) + total_pairs(rs.drop_first())
    }
}

/// Folds one chunk's report into the counters: the chunk counter advances
/// by one and the pair counter by the pairs extracted for the chunk. What
/// the sink made of the uploads enters nowhere.
pub fn record_report(c: PipelineCounters, r: &ChunkReport) -> (out: PipelineCounters)
    requires
        c.chunks_done < usize::MAX,
        c.pairs_total + outcome_pairs(r.outcome) <= usize::MAX,
    ensures
        out.chunks_done == c.chunks_done + 1,
        out.pairs_total == c.pairs_total + outcome_pairs(r.outcome),
{
    let add: usize = match &r.outcome {
        ChunkOutcome::Extracted(ps) => ps.len(),
        _ => 0,
    };
    PipelineCounters { chunks_done: c.chunks_done + 1, pairs_total: c.pairs_total + add }
}

proof fn lemma_total_pairs_split(rs: Seq<ChunkReport>, k: int)
    requires
        0 <= k <= rs.len(),
    ensures
        total_pairs(rs) == total_pairs(rs.take(k)) + total_pairs(rs.skip(k)),
    decreases k,
{
    if k == 0 {
        assert(rs.take(0) =~= Seq::empty());
        assert(rs.skip(0) =~= rs);
    } else {
        assert(rs.take(k)[0] == rs[0]);
        assert(rs.take(k).drop_first() =~= rs.drop_first().take(k - 1));
        assert(rs.skip(k) =~= rs.drop_first().skip(k - 1));
        lemma_total_pairs_split(rs.drop_first(), k - 1);
    }
}

/// Tallies a whole run from its reports: every chunk counts, and the pair
/// counter is exactly the pairs extracted, summed in order.
#[verifier::loop_isolation(false)]
pub fn tally_reports(reports: &Vec<ChunkReport>) -> (c: PipelineCounters)
    requires
        total_pairs(reports@) <= usize::MAX,
    ensures
        c.chunks_done == reports@.len(),
        c.pairs_total == total_pairs(reports@),
{
    let mut c = PipelineCounters { chunks_done: 0, pairs_total: 0 };
    let n = reports.len();
    let mut k: usize = 0;
    proof {
        assert(reports@.take(0) =~= Seq::empty());
    }
    while k < n
        invariant
            k <= n,
            c.chunks_done == k,
            c.pairs_total == total_pairs(reports@.take(k as int)),
        decreases n - k,
    {
        proof {
            lemma_total_pairs_split(reports@, k as int);
            assert(reports@.skip(k as int)[0] == reports@[k as int]);
            assert(reports@.skip(k as int).drop_first() =~= reports@.skip(k as int + 1));
            lemma_total_pairs_split(reports@, k as int + 1);
            assert(reports@.take(k as int + 1).take(k as int) =~= reports@.take(k as int));
            lemma_total_pairs_split(reports@.take(k as int + 1), k as int);
            assert(reports@.take(k as int + 1).skip(k as int) =~= seq![reports@[k as int]]);
            assert(seq![reports@[k as int]].drop_first() =~= Seq::<ChunkReport>::empty());
        }
        c = record_report(c, &reports[k]);
        k += 1;
    }
    proof {
        assert(reports@.take(n as int) =~= reports@);
    }
    c
}

/// Upload failures never change the pair counter: two runs whose chunks
/// ended in the same outcomes tally the same pairs, whatever the sink
/// accepted or refused.
pub proof fn lemma_uploads_never_change_pair_counter(a: Seq<ChunkReport>, b: Seq<ChunkReport>)
    requires
        a.len() == b.len(),
        forall|i: int| 0 <= i < a.len() ==> #[trigger] a[i].outcome == b[i].outcome,
    ensures
        total_pairs(a) == total_pairs(b),
    decreases a.len(),
{
    if a.len() > 0 {
        assert(a[0].outcome == b[0].outcome);
        assert forall|i: int|
            0 <= i < a.drop_first().len() implies #[trigger] a.drop_first()[i].outcome
            == b.drop_first()[i].outcome by {
            assert(a.drop_first()[i] == a[i + 1]);
        }
        lemma_uploads_never_change_pair_counter(a.drop_first(), b.drop_first());
    }
}

/// Decides one chunk's outcome from what the completion service answered:
/// a failed call or an answer without content is a recoverable no-result;
/// a payload yields its extracted pairs, or a no-result when the payload
/// is refused. Never an abort: every answer has an outcome.
pub fn outcome_of_response(content: Option<String>) -> (o: ChunkOutcome)
    ensures
        match content {
            None => o is NoResult,
            Some(payload) => match payload_pairs(payload@) {
                Some(ps) => o matches ChunkOutcome::Extracted(v) && pair_views(v@) == ps,
                None => o is NoResult,
            },
        },
{
    match content {
        Some(payload) => match parse_qa_payload(payload.as_str()) {
            Some(pairs) => ChunkOutcome::Extracted(pairs),
            None => ChunkOutcome::NoResult,
        },
        None => ChunkOutcome::NoResult,
    }
}

/// Whether a value is the sink's record for the pair (`q`, `a`): an object
/// with exactly the two column members, "Question" holding the question
/// and "Answer" the answer.
pub open spec fn is_upload_record(v: JsonValue, q: Seq<char>, a: Seq<char>) -> bool {
    match v {
        JsonValue::Obj(es) => es@.len() == 2 && es@[0].0@ == "Question"@ && (match es@[0].1 {
            JsonValue::Str(s) => s@ == q,
            _ => false,
        }) && es@[1].0@ == "Answer"@ && (match es@[1].1 {
            JsonValue::Str(s) => s@ == a,
            _ => false,
        }),
        _ => false,
    }
}

/// Builds the record the sink is given for one pair: the two fixed columns
/// of the destination table, holding the question and the answer.
pub fn make_upload_record(p: &QAPair) -> (r: JsonValue)
    ensures
        is_upload_record(r, p.question@, p.answer@),
{
    let mut es: Vec<(String, JsonValue)> = Vec::new();
    es.push((String::from_str("Question"), JsonValue::Str(p.question.clone())));
    es.push((String::from_str("Answer"), JsonValue::Str(p.answer.clone())));
    JsonValue::Obj(es)
}

} // verus!
