use public_ollama_finder::block::Source;
use public_ollama_finder::extract::{
    collect_leaves, document_candidates, extract_ip_ranges, parse_json, pick_candidate, text_candidates, Candidate,
    JsonValue, CIDR_PATTERN, RANGE_PATTERN, SINGLE_PATTERN,
};
use public_ollama_finder::load::{load_ranges, resolve_candidates};
use public_ollama_finder::range::RangeError;

fn pairs(list: &[Candidate]) -> Vec<(String, Source)> {
    list.iter().map(|c| (c.text.clone(), c.source)).collect()
}

fn pair(text: &str, source: Source) -> (String, Source) {
    (text.to_string(), source)
}

fn caps(a: &str, b: &str) -> Option<(String, String)> {
    Some((a.to_string(), b.to_string()))
}

#[test]
fn json_array_gives_two_json_blocks() {
    let list = load_ranges("[\"203.0.113.5\",\"198.51.100.0/24\"]").unwrap();
    assert_eq!(list.blocks.len(), 2);
    assert!(list.rejected.is_empty());
    assert_eq!((list.blocks[0].addr(), list.blocks[0].prefix_len(), list.blocks[0].source()), (0xCB00_7105, 32, Source::Json));
    assert_eq!((list.blocks[1].addr(), list.blocks[1].prefix_len(), list.blocks[1].source()), (0xC633_6400, 24, Source::Json));
}

#[test]
fn json_strings_that_look_like_comments_are_leaves() {
    let found = extract_ip_ranges("[\"# not a comment\", \"10.0.0.0/8\"]");
    assert_eq!(pairs(&found), vec![pair("# not a comment", Source::Json), pair("10.0.0.0/8", Source::Json)]);
    // the same strings as lines: the first is a comment, the second a network
    let lines = extract_ip_ranges("# not a comment\n10.0.0.0/8");
    assert_eq!(pairs(&lines), vec![pair("10.0.0.0/8", Source::Cidr)]);
}

#[test]
fn json_is_never_read_by_lines() {
    // two lines that both hold a network, but the text as a whole is JSON
    let found = extract_ip_ranges("{\"note\": 7,\n \"x\": null}");
    assert!(found.is_empty());
    let found = extract_ip_ranges("[\n\"text with 10.1.0.0/16 inside\",\n\"1.2.3.4\"\n]");
    assert_eq!(pairs(&found), vec![pair("text with 10.1.0.0/16 inside", Source::Json), pair("1.2.3.4", Source::Json)]);
    let list = load_ranges("[\n\"text with 10.1.0.0/16 inside\",\n\"1.2.3.4\"\n]").unwrap();
    assert_eq!(list.blocks.len(), 1);
    assert_eq!(list.rejected.len(), 1);
    assert_eq!(list.rejected[0].text, "text with 10.1.0.0/16 inside");
    assert_eq!(list.rejected[0].error, RangeError::InvalidFormat);
}

#[test]
fn json_walk_goes_through_arrays_and_object_values() {
    let text = "{\"b\": \"1.1.1.1\", \"a\": [\"2.2.2.2\", {\"k\": \"3.3.3.0/24\", \"n\": 5}, [], true], \"c\": {\"d\": \"4.4.4.4-4.4.4.7\"}}";
    let found = extract_ip_ranges(text);
    let texts: Vec<String> = found.iter().map(|c| c.text.clone()).collect();
    assert_eq!(texts, vec!["2.2.2.2", "3.3.3.0/24", "1.1.1.1", "4.4.4.4-4.4.4.7"]);
    assert!(found.iter().all(|c| c.source == Source::Json));
    let list = load_ranges(text).unwrap();
    let prefixes: Vec<u8> = list.blocks.iter().map(|b| b.prefix_len()).collect();
    assert_eq!(prefixes, vec![32, 24, 32, 30]);
}

#[test]
fn json_scalars() {
    assert!(matches!(parse_json("\"1.2.3.4\""), Some(JsonValue::Text(ref s)) if s == "1.2.3.4"));
    assert!(matches!(parse_json("12"), Some(JsonValue::Number)));
    assert!(matches!(parse_json("null"), Some(JsonValue::Null)));
    assert!(matches!(parse_json("false"), Some(JsonValue::Bool(false))));
    assert!(parse_json("1.2.3.4").is_none());
    assert!(parse_json("").is_none());
    assert!(parse_json("[1, 2").is_none());
    assert_eq!(pairs(&extract_ip_ranges(" \"1.2.3.4\" ")), vec![pair("1.2.3.4", Source::Json)]);
    // a number is JSON: nothing is extracted, and no line is read
    assert!(extract_ip_ranges("10").is_empty());
    assert!(load_ranges("10").is_err());
}

#[test]
fn leaves_of_a_built_value() {
    let value = JsonValue::Array(vec![
        JsonValue::Text("a".to_string()),
        JsonValue::Object(vec![
            ("k1".to_string(), JsonValue::Number),
            ("k2".to_string(), JsonValue::Text("b".to_string())),
            ("k3".to_string(), JsonValue::Array(vec![JsonValue::Text("c".to_string()), JsonValue::Null])),
        ]),
        JsonValue::Bool(true),
        JsonValue::Text("d".to_string()),
    ]);
    let mut out = vec!["x".to_string()];
    collect_leaves(&value, &mut out);
    assert_eq!(out, vec!["x", "a", "b", "c", "d"]);
    assert_eq!(
        pairs(&document_candidates(&value)),
        vec![pair("a", Source::Json), pair("b", Source::Json), pair("c", Source::Json), pair("d", Source::Json)]
    );
}

#[test]
fn lines_of_each_form() {
    let text = "# targets\n\n192.168.1.0/24\n  10.0.0.1 - 10.0.0.8  \n8.8.8.8\nnothing here\n";
    assert_eq!(
        pairs(&extract_ip_ranges(text)),
        vec![pair("192.168.1.0/24", Source::Cidr), pair("10.0.0.1-10.0.0.8", Source::Range), pair("8.8.8.8/32", Source::SingleIp)]
    );
    let list = load_ranges(text).unwrap();
    let blocks: Vec<(u32, u8, Source)> = list.blocks.iter().map(|b| (b.addr(), b.prefix_len(), b.source())).collect();
    assert_eq!(blocks, vec![(0xC0A8_0100, 24, Source::Cidr), (0x0A00_0001, 29, Source::Range), (0x0808_0808, 32, Source::SingleIp)]);
}

#[test]
fn first_pattern_wins_and_a_line_gives_one_candidate() {
    assert_eq!(pairs(&text_candidates("host 1.2.3.4 in 10.0.0.0/8 and 9.9.9.9-9.9.9.10")), vec![pair("10.0.0.0/8", Source::Cidr)]);
    assert_eq!(pairs(&text_candidates("from 1.1.1.1\t-\t1.1.1.4, also 5.5.5.5")), vec![pair("1.1.1.1-1.1.1.4", Source::Range)]);
    assert_eq!(pairs(&text_candidates("gateway=172.16.0.1;")), vec![pair("172.16.0.1/32", Source::SingleIp)]);
    assert_eq!(pairs(&text_candidates("1.2.3.4/8 5.6.7.0/24")), vec![pair("1.2.3.4/8", Source::Cidr)]);
    // a slash with no digits behind it is neither a network nor an address here
    assert_eq!(pairs(&text_candidates("1.2.3.4/")), vec![]);
    assert_eq!(pairs(&text_candidates("   # 1.2.3.4")), vec![]);
    assert_eq!(pairs(&text_candidates("x # 1.2.3.4")), vec![pair("1.2.3.4/32", Source::SingleIp)]);
    assert_eq!(pairs(&text_candidates("\r\n1.2.3.4\r\n\r\n5.6.7.8\r\n")), vec![pair("1.2.3.4/32", Source::SingleIp), pair("5.6.7.8/32", Source::SingleIp)]);
    assert_eq!(pairs(&text_candidates("")), vec![]);
}

#[test]
fn candidates_agree_with_the_patterns() {
    let cidr = regex::Regex::new(CIDR_PATTERN).unwrap();
    let range = regex::Regex::new(RANGE_PATTERN).unwrap();
    let single = regex::Regex::new(SINGLE_PATTERN).unwrap();
    let lines = [
        "10.0.0.0/8", "a 1.2.3.4/24b", "1234.5.6.7/8", "1.2.3.4 -5.6.7.8", "999.999.999.999", "1.2.3.4.5", "v1.2.3.4",
        "1.2.3.4/x", "1.2.3.45678", "1.2.3.4-", "١.٢.٣.٤", "1.2.3.4\u{a0}-\u{a0}5.6.7.8", "12.34.56.78/123", "0.0.0.0",
        "1.2.3", "a.b.c.d", "1.2.3.4/5/6", "1.2.3.4,5.6.7.8", "::1", "1.2.3.4 # trailing",
    ];
    for line in lines {
        let expected = if let Some(c) = cidr.captures(line) {
            vec![(c[1].to_string(), Source::Cidr)]
        } else if let Some(c) = range.captures(line) {
            vec![(format!("{}-{}", &c[1], &c[2]), Source::Range)]
        } else if let Some(c) = single.captures(line) {
            vec![(format!("{}/32", &c[1]), Source::SingleIp)]
        } else {
            vec![]
        };
        assert_eq!(pairs(&text_candidates(line)), expected, "{:?}", line);
    }
}

#[test]
fn picking_from_given_captures() {
    let picked = pick_candidate(caps("1.2.3.0/24", ""), caps("1.1.1.1", "2.2.2.2"), caps("3.3.3.3", "")).unwrap();
    assert_eq!((picked.text.as_str(), picked.source), ("1.2.3.0/24", Source::Cidr));
    let picked = pick_candidate(None, caps("1.1.1.1", "2.2.2.2"), caps("3.3.3.3", "")).unwrap();
    assert_eq!((picked.text.as_str(), picked.source), ("1.1.1.1-2.2.2.2", Source::Range));
    let picked = pick_candidate(None, None, caps("3.3.3.3", "")).unwrap();
    assert_eq!((picked.text.as_str(), picked.source), ("3.3.3.3/32", Source::SingleIp));
    assert!(pick_candidate(None, None, None).is_none());
}

#[test]
fn a_bad_entry_is_set_aside_and_the_rest_goes_on() {
    let list = load_ranges("300.1.1.1/8\n10.0.0.0/33\n10.0.0.1-10.0.0.300\n10.1.1.1\n").unwrap();
    assert_eq!(list.blocks.len(), 1);
    assert_eq!(list.blocks[0].addr(), 0x0A01_0101);
    let rejected: Vec<(&str, RangeError)> = list.rejected.iter().map(|r| (r.text.as_str(), r.error)).collect();
    assert_eq!(
        rejected,
        vec![
            ("300.1.1.1/8", RangeError::InvalidFormat),
            ("10.0.0.0/33", RangeError::InvalidFormat),
            ("10.0.0.1-10.0.0.300", RangeError::InvalidAddress)
        ]
    );
}

#[test]
fn no_valid_ranges() {
    let error = load_ranges("# only a comment\nnothing\n999.1.1.1\n").unwrap_err();
    assert_eq!(error.rejected.len(), 1);
    assert_eq!(error.rejected[0].text, "999.1.1.1/32");
    assert!(load_ranges("").is_err());
    assert!(load_ranges("[]").is_err());
    assert!(resolve_candidates(&vec![]).is_err());
    let one = vec![Candidate { text: "1.2.3.4".to_string(), source: Source::Range }];
    let list = resolve_candidates(&one).unwrap();
    assert_eq!((list.blocks[0].addr(), list.blocks[0].source()), (0x0102_0304, Source::Range));
}

#[test]
fn leading_zeros_by_form() {
    // a network may write leading zeros, a range may not
    let list = load_ranges("010.0.0.0/08\n010.0.0.1-010.0.0.2\n010.0.0.9\n").unwrap();
    let blocks: Vec<(u32, u8)> = list.blocks.iter().map(|b| (b.addr(), b.prefix_len())).collect();
    assert_eq!(blocks, vec![(0x0A00_0000, 8), (0x0A00_0009, 32)]);
    assert_eq!(list.rejected.len(), 1);
    assert_eq!(list.rejected[0].error, RangeError::InvalidAddress);
}
