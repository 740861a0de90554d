//! From input text to blocks: a JSON document gives its strings, any other
//! text is read line by line.

use vstd::prelude::*;
use crate::block::Source;
use crate::range::{find_char, position_of, slice_of};
use crate::text::{trimmed, trim_range, chars_of, push_str, string_of, text_views};

verus! {

/// A JSON value. The members of an object stand in the order in which the
/// parser hands them out.
#[derive(Debug)]
pub enum JsonValue {
    Null,
    Bool(bool),
    Number,
    Text(String),
    Array(Vec<JsonValue>),
    Object(Vec<(String, JsonValue)>),
}

#[verifier::external_type_specification]
#[verifier::external_body]
pub struct ExJsonValue(serde_json::Value);

/// The value that a text is as a JSON document; none when it is no JSON.
pub uninterp spec fn json_document(text: Seq<char>) -> Option<JsonValue>;

/// What a parsed value holds.
pub uninterp spec fn json_value_of(value: serde_json::Value) -> JsonValue;

/// `serde_json::from_str` to a `serde_json::Value`: the value of the text
/// where the whole text is one JSON document, none where the parser reports
/// an error.
#[verifier::external_body]
fn json_from_str(text: &str) -> (r: Option<serde_json::Value>)
    ensures
        match r {
            Some(value) => json_document(text@) == Some(json_value_of(value)),
            None => json_document(text@) is None,
        },
{
    serde_json::from_str::<serde_json::Value>(text).ok()
}

/// Reads a `serde_json::Value` off, variant by variant: a string gives its
/// text, an array its items in order, an object its members in the order of
/// the map's iterator. A number keeps no value.
#[verifier::external_body]
fn json_tree(value: &serde_json::Value) -> (r: JsonValue)
    ensures
        r == json_value_of(*value),
{
    match value {
        serde_json::Value::Null => JsonValue::Null,
        serde_json::Value::Bool(b) => JsonValue::Bool(*b),
        serde_json::Value::Number(_) => JsonValue::Number,
        serde_json::Value::String(s) => JsonValue::Text(s.clone()),
        serde_json::Value::Array(items) => JsonValue::Array(items.iter().map(json_tree).collect()),
        serde_json::Value::Object(members) => JsonValue::Object(
            members.iter().map(|(key, item)| (key.clone(), json_tree(item))).collect(),
        ),
    }
}

/// Reads a text as a JSON document.
pub fn parse_json(text: &str) -> (r: Option<JsonValue>)
    ensures
        r == json_document(text@),
{
    match json_from_str(text) {
        Some(value) => Some(json_tree(&value)),
        None => None,
    }
}

/// The strings of a value in the order of a walk that goes through arrays
/// and through the values of objects. Numbers, truth values, nulls and the
/// keys of objects give nothing.
pub open spec fn leaves(value: JsonValue) -> Seq<Seq<char>>
    decreases value, 0nat, 0nat,
{
    match value {
        JsonValue::Text(s) => seq![s@],
        JsonValue::Array(items) => item_leaves(items, items.len() as nat),
        JsonValue::Object(members) => member_leaves(members, members.len() as nat),
        _ => Seq::empty(),
    }
}

/// The strings of the first `n` items.
pub open spec fn item_leaves(items: Vec<JsonValue>, n: nat) -> Seq<Seq<char>>
    decreases items, 1nat, n,
{
    if n == 0 || n > items.len() {
        Seq::empty()
    } else {
        item_leaves(items, (n - 1) as nat) + leaves(items[n - 1])
    }
}

/// The strings of the values of the first `n` members.
pub open spec fn member_leaves(members: Vec<(String, JsonValue)>, n: nat) -> Seq<Seq<char>>
    decreases members, 1nat, n,
{
    if n == 0 || n > members.len() {
        Seq::empty()
    } else {
        member_leaves(members, (n - 1) as nat) + leaves(members[n - 1].1)
    }
}

/// Appends the strings of a value.
#[verifier::loop_isolation(false)]
pub fn collect_leaves(value: &JsonValue, out: &mut Vec<String>)
    ensures
        text_views(final(out)@) == text_views(old(out)@) + leaves(*value),
    decreases value,
{
    let ghost before = text_views(out@);
    match value {
        JsonValue::Text(s) => {
            out.push(s.clone());
            assert(text_views(out@) == before + leaves(*value));
        },
        JsonValue::Array(items) => {
            let mut i: usize = 0;
            while i < items.len()
                invariant
                    i <= items.len(),
                    *value == JsonValue::Array(*items),
                    text_views(out@) == before + item_leaves(*items, i as nat),
                decreases items.len() - i,
            {
                assert(decreases_to!(*items => items[i as int]));
                collect_leaves(&items[i], out);
                i = i + 1;
                assert(text_views(out@) == before + item_leaves(*items, i as nat));
            }
        },
        JsonValue::Object(members) => {
            let mut i: usize = 0;
            while i < members.len()
                invariant
                    i <= members.len(),
                    *value == JsonValue::Object(*members),
                    text_views(out@) == before + member_leaves(*members, i as nat),
                decreases members.len() - i,
            {
                assert(decreases_to!(*members => members[i as int]));
                collect_leaves(&members[i].1, out);
                i = i + 1;
                assert(text_views(out@) == before + member_leaves(*members, i as nat));
            }
        },
        _ => {
            assert(text_views(out@) == before + leaves(*value));
        },
    }
}

/// A text that may stand for a block, with the tag of the form it was found in.
#[derive(Debug)]
pub struct Candidate {
    pub text: String,
    pub source: Source,
}

impl View for Candidate {
    type V = (Seq<char>, Source);

    open spec fn view(&self) -> (Seq<char>, Source) {
        (self.text@, self.source)
    }
}

/// What a list of candidates holds.
pub open spec fn candidate_views(list: Seq<Candidate>) -> Seq<(Seq<char>, Source)> {
    Seq::new(list.len(), |i: int| list[i]@)
}

/// Four fields of one to three digits with dots between them, a slash, and
/// one or two digits.
pub const CIDR_PATTERN: &'static str = "(\\d{1,3}\\.\\d{1,3}\\.\\d{1,3}\\.\\d{1,3}/\\d{1,2})";

/// Two dotted fours with a dash between them, white space allowed around
/// the dash.
pub const RANGE_PATTERN: &'static str =
    "(\\d{1,3}\\.\\d{1,3}\\.\\d{1,3}\\.\\d{1,3})\\s*-\\s*(\\d{1,3}\\.\\d{1,3}\\.\\d{1,3}\\.\\d{1,3})";

/// A dotted four that neither a slash nor a digit follows.
pub const SINGLE_PATTERN: &'static str = "(\\d{1,3}\\.\\d{1,3}\\.\\d{1,3}\\.\\d{1,3})(?:[^/\\d]|$)";

/// The texts of the first two capture groups of the leftmost match of a
/// pattern in a text; none when the pattern matches nowhere in the text, or
/// is no pattern.
pub uninterp spec fn regex_captures(pattern: Seq<char>, text: Seq<char>) -> Option<
    (Seq<char>, Seq<char>),
>;

/// `Regex::new` and `Regex::captures` of regex, with the texts of groups one
/// and two of the match that `captures` returns; a group that the pattern
/// lacks, or that took no part in the match, gives the empty text.
#[verifier::external_body]
fn first_captures(pattern: &str, text: &str) -> (r: Option<(String, String)>)
    ensures
        match regex_captures(pattern@, text@) {
            Some((first, second)) => r matches Some((a, b)) && a@ == first && b@ == second,
            None => r is None,
        },
{
    let compiled = regex::Regex::new(pattern).ok()?;
    let found = compiled.captures(text)?;
    let first = found.get(1).map_or(String::new(), |m| m.as_str().to_string());
    let second = found.get(2).map_or(String::new(), |m| m.as_str().to_string());
    Some((first, second))
}

/// The candidate of a line, given what the three patterns captured in it:
/// the first pattern that matched decides. The network pattern gives its
/// match, the range pattern its two addresses with a dash between them, the
/// address pattern its address as a block of one.
pub open spec fn candidate_from(
    cidr: Option<(Seq<char>, Seq<char>)>,
    range: Option<(Seq<char>, Seq<char>)>,
    single: Option<(Seq<char>, Seq<char>)>,
) -> Option<(Seq<char>, Source)> {
    if let Some((network, _)) = cidr {
        Some((network, Source::Cidr))
    } else if let Some((start, end)) = range {
        Some((start + "-"@ + end, Source::Range))
    } else if let Some((addr, _)) = single {
        Some((addr + "/32"@, Source::SingleIp))
    } else {
        None
    }
}

/// The captures of a pattern as texts.
pub open spec fn capture_views(captures: Option<(String, String)>) -> Option<(Seq<char>, Seq<char>)> {
    match captures {
        Some((a, b)) => Some((a@, b@)),
        None => None,
    }
}

/// Picks the candidate of a line from what the three patterns captured.
pub fn pick_candidate(
    cidr: Option<(String, String)>,
    range: Option<(String, String)>,
    single: Option<(String, String)>,
) -> (r: Option<Candidate>)
    ensures
        match candidate_from(capture_views(cidr), capture_views(range), capture_views(single)) {
            Some(c) => r matches Some(found) && found@ == c,
            None => r is None,
        },
{
    if let Some((network, _)) = cidr {
        Some(Candidate { text: network, source: Source::Cidr })
    } else if let Some((start, end)) = range {
        let mut out: Vec<char> = Vec::new();
        push_str(&mut out, start.as_str());
        push_str(&mut out, "-");
        push_str(&mut out, end.as_str());
        Some(Candidate { text: string_of(&out), source: Source::Range })
    } else if let Some((addr, _)) = single {
        let mut out: Vec<char> = Vec::new();
        push_str(&mut out, addr.as_str());
        push_str(&mut out, "/32");
        Some(Candidate { text: string_of(&out), source: Source::SingleIp })
    } else {
        None
    }
}

/// The candidate of one line: none for a line that is blank or starts with
/// `#` once trimmed, else what the patterns find in the trimmed line.
pub open spec fn line_candidate(line: Seq<char>) -> Option<(Seq<char>, Source)> {
    let t = trimmed(line);
    if t.len() == 0 || t[0] == '#' {
        None
    } else {
        candidate_from(
            regex_captures(CIDR_PATTERN@, t),
            regex_captures(RANGE_PATTERN@, t),
            regex_captures(SINGLE_PATTERN@, t),
        )
    }
}

/// The candidates of a text read line by line, a line ending at each line
/// feed: at most one per line, in the order of the lines.
pub open spec fn line_candidates(text: Seq<char>) -> Seq<(Seq<char>, Source)>
    decreases text.len(),
{
    let end = find_char(text, '\n', 0);
    let first = match line_candidate(text.subrange(0, end)) {
        Some(c) => seq![c],
        None => Seq::empty(),
    };
    if end < 0 || end >= text.len() {
        first
    } else {
        first + line_candidates(text.subrange(end + 1, text.len() as int))
    }
}

/// The strings of a document, each tagged as JSON.
pub open spec fn json_candidates(document: JsonValue) -> Seq<(Seq<char>, Source)> {
    Seq::new(leaves(document).len(), |i: int| (leaves(document)[i], Source::Json))
}

/// The candidates of an input text. A text that is a JSON document gives the
/// strings of the document and is not read by lines at all.
pub open spec fn candidates_of(text: Seq<char>) -> Seq<(Seq<char>, Source)> {
    match json_document(text) {
        Some(document) => json_candidates(document),
        None => line_candidates(text),
    }
}

fn line_candidate_of(text: &Vec<char>, from: usize, to: usize) -> (r: Option<Candidate>)
    requires
        from <= to <= text.len(),
    ensures
        match line_candidate(text@.subrange(from as int, to as int)) {
            Some(c) => r matches Some(found) && found@ == c,
            None => r is None,
        },
{
    let (start, end) = trim_range(text, from, to);
    if start == end || text[start] == '#' {
        return None;
    }
    let line = string_of(&slice_of(text, start, end));
    let cidr = first_captures(CIDR_PATTERN, line.as_str());
    let range = if cidr.is_none() {
        first_captures(RANGE_PATTERN, line.as_str())
    } else {
        None
    };
    let single = if cidr.is_none() && range.is_none() {
        first_captures(SINGLE_PATTERN, line.as_str())
    } else {
        None
    };
    pick_candidate(cidr, range, single)
}

/// The candidates of a document.
pub fn document_candidates(document: &JsonValue) -> (r: Vec<Candidate>)
    ensures
        candidate_views(r@) == json_candidates(*document),
{
    let mut texts: Vec<String> = Vec::new();
    collect_leaves(document, &mut texts);
    assert(text_views(texts@) == leaves(*document));
    let mut out: Vec<Candidate> = Vec::new();
    let mut i: usize = 0;
    while i < texts.len()
        invariant
            i <= texts.len(),
            out@.len() == i,
            forall|j: int| 0 <= j < i ==> (#[trigger] out@[j])@ == (texts@[j]@, Source::Json),
        decreases texts.len() - i,
    {
        out.push(Candidate { text: texts[i].clone(), source: Source::Json });
        i = i + 1;
    }
    assert(candidate_views(out@) =~= json_candidates(*document)) by {
        assert forall|j: int| 0 <= j < out@.len() implies candidate_views(out@)[j]
            == json_candidates(*document)[j] by {
            assert(text_views(texts@)[j] == texts@[j]@);
        }
    }
    out
}

/// The candidates of a text that is read by lines.
pub fn text_candidates(input: &str) -> (r: Vec<Candidate>)
    ensures
        candidate_views(r@) == line_candidates(input@),
{
    let text = chars_of(input);
    let mut out: Vec<Candidate> = Vec::new();
    let mut from: usize = 0;
    let mut done: bool = false;
    assert(text@.subrange(0, text@.len() as int) == text@);
    while !done
        invariant
            from <= text.len(),
            text@ == input@,
            !done ==> line_candidates(input@) == candidate_views(out@) + line_candidates(
                text@.subrange(from as int, text@.len() as int),
            ),
            done ==> line_candidates(input@) == candidate_views(out@),
        decreases text.len() - from + (if done { 0int } else { 1int }),
    {
        let ghost rest = text@.subrange(from as int, text@.len() as int);
        let ghost before = candidate_views(out@);
        let end = position_of(&text, '\n', from);
        proof {
            lemma_find_in_rest(text@, '\n', from as int, from as int);
            assert(rest.subrange(0, end - from) == text@.subrange(from as int, end as int));
        }
        match line_candidate_of(&text, from, end) {
            Some(c) => {
                out.push(c);
                assert(candidate_views(out@) == before + seq![c@]);
            },
            None => {},
        }
        if end >= text.len() {
            done = true;
        } else {
            assert(rest.subrange(end - from + 1, rest.len() as int) == text@.subrange(
                end + 1,
                text@.len() as int,
            ));
            from = end + 1;
        }
    }
    out
}

/// Searching the rest of a text finds what searching the text from there
/// finds.
proof fn lemma_find_in_rest(s: Seq<char>, c: char, from: int, at: int)
    requires
        0 <= from <= at <= s.len(),
    ensures
        find_char(s, c, at) == from + find_char(s.subrange(from, s.len() as int), c, at - from),
    decreases s.len() - at,
{
    if at < s.len() && s[at] != c {
        lemma_find_in_rest(s, c, from, at + 1);
    }
}

/// A text that is a JSON document gives its strings and nothing else, each
/// tagged as JSON, whatever its lines look like.
pub proof fn lemma_json_is_not_read_by_lines(text: Seq<char>)
    requires
        json_document(text) is Some,
    ensures
        candidates_of(text) == json_candidates(json_document(text)->0),
        candidates_of(text).len() == leaves(json_document(text)->0).len(),
        forall|i: int|
            0 <= i < candidates_of(text).len() ==> (#[trigger] candidates_of(text)[i]) == (
                leaves(json_document(text)->0)[i],
                Source::Json,
            ),
{
}

/// The texts in an input that may stand for blocks, in order.
pub fn extract_ip_ranges(text: &str) -> (r: Vec<Candidate>)
    ensures
        candidate_views(r@) == candidates_of(text@),
{
    match parse_json(text) {
        Some(document) => document_candidates(&document),
        None => text_candidates(text),
    }
}

} // verus!
