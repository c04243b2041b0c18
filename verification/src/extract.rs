//! Extracting question–answer pairs from a parsed payload.
//!
//! The payload must be a JSON object every one of whose members is a list
//! of pair objects (an object with string members "question" and "answer";
//! other members of a pair object are ignored). The pairs under the key
//! "qa_pairs" are the result, in list order; a payload without that key
//! yields no pairs, which is not an error. Any other shape, or a text that
//! is not JSON at all, yields nothing, and the pipeline goes on.

use crate::chunk::string_views;
use crate::json::{json_parse, parse_json, JsonValue};
use vstd::prelude::*;

verus! {

/// One generated question–answer pair.
pub struct QAPair {
    pub question: String,
    pub answer: String,
}

impl View for QAPair {
    type V = (Seq<char>, Seq<char>);

    open spec fn view(&self) -> (Seq<char>, Seq<char>) {
        (self.question@, self.answer@)
    }
}

/// The views of a sequence of pairs.
pub open spec fn pair_views(v: Seq<QAPair>) -> Seq<(Seq<char>, Seq<char>)> {
    v.map_values(|p: QAPair| p@)
}

/// The value for `key` among the members of an object, by first match.
pub open spec fn obj_get(entries: Seq<(String, JsonValue)>, key: Seq<char>) -> Option<JsonValue>
    decreases entries.len(),
{
    if entries.len() == 0 {
        None
    } else if entries[0].0@ == key {
        Some(entries[0].1)
    } else {
        obj_get(entries.drop_first(), key)
    }
}

/// The string under `key` among the members of an object, if the key is
/// there and its value is a string.
pub open spec fn str_field(entries: Seq<(String, JsonValue)>, key: Seq<char>) -> Option<Seq<char>> {
    match obj_get(entries, key) {
        Some(JsonValue::Str(s)) => Some(s@),
        _ => None,
    }
}

/// The question and answer of one pair object: an object whose "question"
/// and "answer" members are strings. Other members are ignored.
pub open spec fn pair_of_value(v: JsonValue) -> Option<(Seq<char>, Seq<char>)> {
    match v {
        JsonValue::Obj(entries) => {
            if str_field(entries@, "question"@) is Some && str_field(entries@, "answer"@) is Some {
                Some((str_field(entries@, "question"@).unwrap(), str_field(entries@, "answer"@).unwrap()))
            } else {
                None
            }
        },
        _ => None,
    }
}

/// The pairs of a list, in order; nothing unless every element is a pair
/// object.
pub open spec fn pairs_of_list(items: Seq<JsonValue>) -> Option<Seq<(Seq<char>, Seq<char>)>>
    decreases items.len(),
{
    if items.len() == 0 {
        Some(Seq::empty())
    } else {
        match pair_of_value(items[0]) {
            Some(p) => match pairs_of_list(items.drop_first()) {
                Some(rest) => Some(seq![p] + rest),
                None => None,
            },
            None => None,
        }
    }
}

/// The pairs of one member value, which must be a list of pair objects.
pub open spec fn pairs_of_member(v: JsonValue) -> Option<Seq<(Seq<char>, Seq<char>)>> {
    match v {
        JsonValue::Arr(items) => pairs_of_list(items@),
        _ => None,
    }
}

/// Whether every member of the payload object is a list of pair objects:
/// the shape the whole payload must have before any key is looked up.
pub open spec fn payload_well_shaped(entries: Seq<(String, JsonValue)>) -> bool {
    forall|i: int| 0 <= i < entries.len() ==> pairs_of_member(#[trigger] entries[i].1) is Some
}

/// What the extractor yields on a parsed payload: nothing unless the
/// payload is an object all of whose members are lists of pair objects;
/// then the pairs under "qa_pairs", or no pairs when that key is absent.
pub open spec fn extracted_pairs(v: JsonValue) -> Option<Seq<(Seq<char>, Seq<char>)>> {
    match v {
        JsonValue::Obj(entries) => {
            if payload_well_shaped(entries@) {
                match obj_get(entries@, "qa_pairs"@) {
                    Some(m) => pairs_of_member(m),
                    None => Some(Seq::empty()),
                }
            } else {
                None
            }
        },
        _ => None,
    }
}

/// What the extractor yields on the raw payload text: nothing too when the
/// text is not JSON.
pub open spec fn payload_pairs(s: Seq<char>) -> Option<Seq<(Seq<char>, Seq<char>)>> {
    match json_parse(s) {
        Some(v) => extracted_pairs(v),
        None => None,
    }
}

proof fn lemma_obj_get_push(s: Seq<(String, JsonValue)>, e: (String, JsonValue), key: Seq<char>)
    ensures
        obj_get(s.push(e), key) == if obj_get(s, key) is Some {
            obj_get(s, key)
        } else if e.0@ == key {
            Some(e.1)
        } else {
            None::<JsonValue>
        },
    decreases s.len(),
{
    if s.len() == 0 {
        assert(s.push(e)[0] == e);
        assert(s.push(e).drop_first() =~= Seq::empty());
        assert(obj_get(s, key) is None);
        assert(obj_get(Seq::<(String, JsonValue)>::empty(), key) is None);
    } else {
        assert(s.push(e)[0] == s[0]);
        assert(s.push(e).drop_first() =~= s.drop_first().push(e));
        lemma_obj_get_push(s.drop_first(), e, key);
        if s[0].0@ == key {
            assert(obj_get(s, key) == Some(s[0].1));
            assert(obj_get(s.push(e), key) == Some(s[0].1));
        } else {
            assert(obj_get(s, key) == obj_get(s.drop_first(), key));
            assert(obj_get(s.push(e), key) == obj_get(s.drop_first().push(e), key));
        }
    }
}

proof fn lemma_pairs_of_list_push(items: Seq<JsonValue>, x: JsonValue)
    ensures
        pairs_of_list(items.push(x)) == match (pairs_of_list(items), pair_of_value(x)) {
            (Some(ps), Some(p)) => Some(ps.push(p)),
            _ => None::<Seq<(Seq<char>, Seq<char>)>>,
        },
    decreases items.len(),
{
    if items.len() == 0 {
        assert(items.push(x)[0] == x);
        assert(items.push(x).drop_first() =~= Seq::empty());
        if pair_of_value(x) is Some {
            let p = pair_of_value(x).unwrap();
            assert(seq![p] + Seq::empty() =~= Seq::<(Seq<char>, Seq<char>)>::empty().push(p));
        }
    } else {
        assert(items.push(x)[0] == items[0]);
        assert(items.push(x).drop_first() =~= items.drop_first().push(x));
        lemma_pairs_of_list_push(items.drop_first(), x);
        match (pairs_of_list(items), pair_of_value(x)) {
            (Some(ps), Some(p)) => {
                let p0 = pair_of_value(items[0]).unwrap();
                let rest = pairs_of_list(items.drop_first()).unwrap();
                assert(ps == seq![p0] + rest);
                assert(seq![p0] + rest.push(p) =~= (seq![p0] + rest).push(p));
            },
            _ => {},
        }
    }
}

proof fn lemma_pairs_of_list_none_extends(items: Seq<JsonValue>, m: int)
    requires
        0 <= m <= items.len(),
        pairs_of_list(items.take(m)) is None,
    ensures
        pairs_of_list(items) is None,
    decreases items.len() - m,
{
    if m == items.len() {
        assert(items.take(m) =~= items);
    } else {
        assert(items.take(m + 1) =~= items.take(m).push(items[m]));
        lemma_pairs_of_list_push(items.take(m), items[m]);
        lemma_pairs_of_list_none_extends(items, m + 1);
    }
}

/// The pairs of one member value, decided executably: the member must be a
/// list of pair objects.
#[verifier::loop_isolation(false)]
fn member_pairs(m: &JsonValue) -> (r: Option<Vec<QAPair>>)
    ensures
        r is Some <==> pairs_of_member(*m) is Some,
        r is Some ==> pairs_of_member(*m) == Some(pair_views(r.unwrap()@)),
{
    match m {
        JsonValue::Arr(items) => {
            let n = items.len();
            let mut acc: Vec<QAPair> = Vec::new();
            let mut k: usize = 0;
            proof {
                assert(items@.take(0) =~= Seq::empty());
                assert(pair_views(acc@) =~= Seq::<(Seq<char>, Seq<char>)>::empty());
            }
            while k < n
                invariant
                    k <= n,
                    n == items@.len(),
                    pairs_of_list(items@.take(k as int)) == Some(pair_views(acc@)),
                decreases n - k,
            {
                let p = pair_of_obj(&items[k]);
                proof {
                    assert(items@.take(k as int + 1) =~= items@.take(k as int).push(
                        items@[k as int],
                    ));
                    lemma_pairs_of_list_push(items@.take(k as int), items@[k as int]);
                }
                match p {
                    Some(pair) => {
                        let ghost acc0 = acc@;
                        acc.push(pair);
                        proof {
                            assert(pair_views(acc@) =~= pair_views(acc0).push(
                                pair_of_value(items@[k as int]).unwrap(),
                            ));
                        }
                    },
                    None => {
                        proof {
                            lemma_pairs_of_list_none_extends(items@, k as int + 1);
                        }
                        return None;
                    },
                }
                k += 1;
            }
            proof {
                assert(items@.take(n as int) =~= items@);
            }
            Some(acc)
        },
        _ => None,
    }
}

/// The question and answer of one pair object, decided executably.
fn pair_of_obj(v: &JsonValue) -> (r: Option<QAPair>)
    ensures
        r is Some <==> pair_of_value(*v) is Some,
        r is Some ==> pair_of_value(*v) == Some(r.unwrap()@),
{
    match v {
        JsonValue::Obj(entries) => {
            let q = get_str_field(entries, "question");
            let a = get_str_field(entries, "answer");
            match (q, a) {
                (Some(question), Some(answer)) => Some(QAPair { question, answer }),
                _ => None,
            }
        },
        _ => None,
    }
}

/// The string under `key` among the members of an object, by first match,
/// decided executably.
#[verifier::loop_isolation(false)]
fn get_str_field(entries: &Vec<(String, JsonValue)>, key: &str) -> (r: Option<String>)
    ensures
        r is Some <==> str_field(entries@, key@) is Some,
        r is Some ==> str_field(entries@, key@) == Some(r.unwrap()@),
{
    let n = entries.len();
    let mut k: usize = 0;
    proof {
        assert(entries@.take(0) =~= Seq::empty());
    }
    while k < n
        invariant
            k <= n,
            n == entries@.len(),
            obj_get(entries@.take(k as int), key@) is None,
        decreases n - k,
    {
        proof {
            assert(entries@.take(k as int + 1) =~= entries@.take(k as int).push(
                entries@[k as int],
            ));
            lemma_obj_get_push(entries@.take(k as int), entries@[k as int], key@);
        }
        let key_owned = String::from_str(key);
        if entries[k].0 == key_owned {
            proof {
                lemma_obj_get_found(entries@, k as int, key@);
            }
            match &entries[k].1 {
                JsonValue::Str(s) => {
                    return Some(s.clone());
                },
                _ => {
                    return None;
                },
            }
        }
        k += 1;
    }
    proof {
        assert(entries@.take(n as int) =~= entries@);
    }
    None
}

proof fn lemma_obj_get_found(s: Seq<(String, JsonValue)>, k: int, key: Seq<char>)
    requires
        0 <= k < s.len(),
        obj_get(s.take(k), key) is None,
        s[k].0@ == key,
    ensures
        obj_get(s, key) == Some(s[k].1),
    decreases k,
{
    if k == 0 {
    } else {
        assert(s.take(k)[0] == s[0]);
        assert(obj_get(s.take(k), key) is None);
        assert(s.take(k).drop_first() =~= s.drop_first().take(k - 1));
        lemma_obj_get_found(s.drop_first(), k - 1, key);
    }
}

/// Extracts the pairs of a parsed payload value: nothing unless the value
/// is an object all of whose members are lists of pair objects; then the
/// pairs under "qa_pairs", in order, or no pairs when that key is absent.
#[verifier::loop_isolation(false)]
pub fn extract_qa_pairs(v: &JsonValue) -> (r: Option<Vec<QAPair>>)
    ensures
        r is Some <==> extracted_pairs(*v) is Some,
        r is Some ==> extracted_pairs(*v) == Some(pair_views(r.unwrap()@)),
{
    match v {
        JsonValue::Obj(entries) => {
            let n = entries.len();
            let mut chosen: Option<Vec<QAPair>> = None;
            let mut k: usize = 0;
            proof {
                assert(entries@.take(0) =~= Seq::empty());
            }
            while k < n
                invariant
                    k <= n,
                    n == entries@.len(),
                    forall|i: int|
                        0 <= i < k ==> pairs_of_member(#[trigger] entries@[i].1) is Some,
                    match obj_get(entries@.take(k as int), "qa_pairs"@) {
                        Some(m) => chosen is Some && pairs_of_member(m) == Some(
                            pair_views(chosen.unwrap()@),
                        ),
                        None => chosen is None,
                    },
                decreases n - k,
            {
                proof {
                    assert(entries@.take(k as int + 1) =~= entries@.take(k as int).push(
                        entries@[k as int],
                    ));
                    lemma_obj_get_push(entries@.take(k as int), entries@[k as int], "qa_pairs"@);
                }
                let ps = member_pairs(&entries[k].1);
                match ps {
                    Some(pairs) => {
                        if chosen.is_none() {
                            let key_owned = String::from_str("qa_pairs");
                            if entries[k].0 == key_owned {
                                chosen = Some(pairs);
                            }
                        }
                    },
                    None => {
                        return None;
                    },
                }
                k += 1;
            }
            proof {
                assert(entries@.take(n as int) =~= entries@);
                assert(payload_well_shaped(entries@));
            }
            match chosen {
                Some(pairs) => Some(pairs),
                None => Some(Vec::new()),
            }
        },
        _ => None,
    }
}

/// Parses a raw payload text and extracts its question–answer pairs:
/// nothing when the text is not JSON or the parsed value is not an object
/// all of whose members are lists of pair objects; otherwise the pairs
/// under "qa_pairs", in order, or no pairs when that key is absent.
pub fn parse_qa_payload(payload: &str) -> (r: Option<Vec<QAPair>>)
    ensures
        r is Some <==> payload_pairs(payload@) is Some,
        r is Some ==> payload_pairs(payload@) == Some(pair_views(r.unwrap()@)),
{
    let parsed = parse_json(payload);
    match parsed {
        Some(v) => extract_qa_pairs(&v),
        None => None,
    }
}

/// The strings of a list, in order; nothing unless every element is a
/// string.
pub open spec fn strings_of_list(items: Seq<JsonValue>) -> Option<Seq<Seq<char>>>
    decreases items.len(),
{
    if items.len() == 0 {
        Some(Seq::empty())
    } else {
        match items[0] {
            JsonValue::Str(s) => match strings_of_list(items.drop_first()) {
                Some(rest) => Some(seq![s@] + rest),
                None => None,
            },
            _ => None,
        }
    }
}

/// What an input text holds when it is a JSON list of strings: the
/// strings, in order; nothing for any other text.
pub open spec fn string_list(s: Seq<char>) -> Option<Seq<Seq<char>>> {
    match json_parse(s) {
        Some(v) => match v {
            JsonValue::Arr(items) => strings_of_list(items@),
            _ => None,
        },
        None => None,
    }
}

proof fn lemma_strings_of_list_push(items: Seq<JsonValue>, x: JsonValue)
    ensures
        strings_of_list(items.push(x)) == match (strings_of_list(items), x) {
            (Some(ss), JsonValue::Str(s)) => Some(ss.push(s@)),
            _ => None::<Seq<Seq<char>>>,
        },
    decreases items.len(),
{
    if items.len() == 0 {
        assert(items.push(x)[0] == x);
        assert(items.push(x).drop_first() =~= Seq::empty());
        if x is Str {
            let s = x->Str_0;
            assert(seq![s@] + Seq::<Seq<char>>::empty() =~= Seq::<Seq<char>>::empty().push(s@));
        }
    } else {
        assert(items.push(x)[0] == items[0]);
        assert(items.push(x).drop_first() =~= items.drop_first().push(x));
        lemma_strings_of_list_push(items.drop_first(), x);
        match (strings_of_list(items), x) {
            (Some(ss), JsonValue::Str(s)) => {
                let s0 = items[0]->Str_0;
                let rest = strings_of_list(items.drop_first()).unwrap();
                assert(ss == seq![s0@] + rest);
                assert(seq![s0@] + rest.push(s@) =~= (seq![s0@] + rest).push(s@));
            },
            _ => {},
        }
    }
}

proof fn lemma_strings_of_list_none_extends(items: Seq<JsonValue>, m: int)
    requires
        0 <= m <= items.len(),
        strings_of_list(items.take(m)) is None,
    ensures
        strings_of_list(items) is None,
    decreases items.len() - m,
{
    if m == items.len() {
        assert(items.take(m) =~= items);
    } else {
        assert(items.take(m + 1) =~= items.take(m).push(items[m]));
        lemma_strings_of_list_push(items.take(m), items[m]);
        lemma_strings_of_list_none_extends(items, m + 1);
    }
}

/// Parses an input text that should be a JSON list of strings — the form
/// the pipeline's pre-baked source texts are stored in — and yields the
/// strings in order; nothing for any other text.
#[verifier::loop_isolation(false)]
pub fn parse_string_list(text: &str) -> (r: Option<Vec<String>>)
    ensures
        r is Some <==> string_list(text@) is Some,
        r is Some ==> string_list(text@) == Some(string_views(r.unwrap()@)),
{
    let parsed = parse_json(text);
    match parsed {
        Some(v) => match v {
            JsonValue::Arr(items) => {
                let n = items.len();
                let mut acc: Vec<String> = Vec::new();
                let mut k: usize = 0;
                proof {
                    assert(items@.take(0) =~= Seq::empty());
                    assert(string_views(acc@) =~= Seq::<Seq<char>>::empty());
                }
                while k < n
                    invariant
                        k <= n,
                        strings_of_list(items@.take(k as int)) == Some(string_views(acc@)),
                    decreases n - k,
                {
                    proof {
                        assert(items@.take(k as int + 1) =~= items@.take(k as int).push(
                            items@[k as int],
                        ));
                        lemma_strings_of_list_push(items@.take(k as int), items@[k as int]);
                    }
                    match &items[k] {
                        JsonValue::Str(s) => {
                            let ghost acc0 = acc@;
                            acc.push(s.clone());
                            proof {
                                assert(string_views(acc@) =~= string_views(acc0).push(
                                    items@[k as int]->Str_0@,
                                ));
                            }
                        },
                        _ => {
                            proof {
                                lemma_strings_of_list_none_extends(items@, k as int + 1);
                            }
                            return None;
                        },
                    }
                    k += 1;
                }
                proof {
                    assert(items@.take(n as int) =~= items@);
                }
                Some(acc)
            },
            _ => None,
        },
        None => None,
    }
}

} // verus!
