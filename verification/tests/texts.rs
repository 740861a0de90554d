use public_ollama_finder::addr::{parse_dotted_quad, parse_number, push_quad};
use public_ollama_finder::probe::decimal_string;
use public_ollama_finder::range::{position_of, slice_of};
use public_ollama_finder::text::{char_is_whitespace, chars_of, push_decimal, push_str, trim_range};

fn chars(text: &str) -> Vec<char> {
    text.chars().collect()
}

fn quad(addr: u32) -> String {
    let mut out = Vec::new();
    push_quad(&mut out, addr);
    out.into_iter().collect()
}

#[test]
fn whitespace_is_what_the_standard_library_trims() {
    for code in 0..0x11_0000u32 {
        if let Some(c) = char::from_u32(code) {
            assert_eq!(char_is_whitespace(c), c.is_whitespace(), "U+{:04X}", code);
        }
    }
}

#[test]
fn trimming_agrees_with_the_standard_library() {
    for text in ["", " ", "a", "  a b  ", "\t\r\n x \u{a0}\u{2003}", "\u{3000}", "x\n", "#  ", " \u{200b} "] {
        let v = chars(text);
        let (from, to) = trim_range(&v, 0, v.len());
        let trimmed: String = v[from..to].iter().collect();
        assert_eq!(trimmed, text.trim(), "{:?}", text);
    }
    let v = chars("ab  cd  ef");
    assert_eq!(trim_range(&v, 2, 8), (4, 6));
    assert_eq!(trim_range(&v, 2, 4), (4, 4));
    assert_eq!(trim_range(&v, 3, 3), (3, 3));
}

#[test]
fn decimal_numbers() {
    for n in [0u64, 1, 9, 10, 11, 99, 100, 101, 255, 1000, 65535, 4_294_967_296, u64::MAX] {
        let mut out = vec!['x'];
        push_decimal(&mut out, n);
        let text: String = out.into_iter().collect();
        assert_eq!(text, format!("x{}", n));
        assert_eq!(decimal_string(n), n.to_string());
    }
}

#[test]
fn characters_of_a_string() {
    assert_eq!(chars_of("a\u{e9}\u{1F310}z"), vec!['a', '\u{e9}', '\u{1F310}', 'z']);
    assert_eq!(chars_of(""), Vec::<char>::new());
    let mut out = vec!['1'];
    push_str(&mut out, "2\u{e9}");
    assert_eq!(out, vec!['1', '2', '\u{e9}']);
}

#[test]
fn number_fields() {
    let v = chars("ab012.255x");
    assert_eq!(parse_number(&v, 2, 3, 256, false), Some((12, 5)));
    assert_eq!(parse_number(&v, 2, 3, 256, true), None);
    assert_eq!(parse_number(&v, 3, 3, 256, true), Some((12, 5)));
    assert_eq!(parse_number(&v, 2, 2, 256, false), None);
    assert_eq!(parse_number(&v, 6, 3, 256, true), Some((255, 9)));
    assert_eq!(parse_number(&v, 6, 3, 255, true), None);
    assert_eq!(parse_number(&v, 5, 3, 256, true), None);
    assert_eq!(parse_number(&v, 9, 3, 256, true), None);
    assert_eq!(parse_number(&v, 10, 3, 256, true), None);
    assert_eq!(parse_number(&v, 99, 3, 256, true), None);
    let long = chars("12345678901234567890");
    assert_eq!(parse_number(&long, 0, 8, u32::MAX, true), None);
    assert_eq!(parse_number(&long, 12, 8, u32::MAX, true), Some((34567890, 20)));
    assert_eq!(parse_number(&chars("0"), 0, 3, 256, true), Some((0, 1)));
}

#[test]
fn dotted_quads() {
    assert_eq!(parse_dotted_quad(&chars("192.168.1.10")), Some(0xC0A8_010A));
    assert_eq!(parse_dotted_quad(&chars("0.0.0.0")), Some(0));
    assert_eq!(parse_dotted_quad(&chars("255.255.255.255")), Some(u32::MAX));
    for bad in ["", "1.2.3", "1.2.3.4.5", "1.2.3.4 ", "256.0.0.1", "1.02.3.4", "1.2.3.", "1,2,3,4", "1.2.3.4/32"] {
        assert_eq!(parse_dotted_quad(&chars(bad)), None, "{:?}", bad);
    }
}

#[test]
fn an_address_written_out_is_read_back() {
    assert_eq!(quad(0xC0A8_010A), "192.168.1.10");
    assert_eq!(quad(0), "0.0.0.0");
    assert_eq!(quad(u32::MAX), "255.255.255.255");
    assert_eq!(quad(0x0100_0A64), "1.0.10.100");
    let mut addr: u32 = 1;
    for _ in 0..5000 {
        addr = addr.wrapping_mul(1_664_525).wrapping_add(1_013_904_223);
        assert_eq!(parse_dotted_quad(&chars(&quad(addr))), Some(addr));
    }
}

#[test]
fn positions_and_slices() {
    let v = chars("a-b-c");
    assert_eq!(position_of(&v, '-', 0), 1);
    assert_eq!(position_of(&v, '-', 1), 1);
    assert_eq!(position_of(&v, '-', 2), 3);
    assert_eq!(position_of(&v, '-', 4), 5);
    assert_eq!(position_of(&v, '-', 5), 5);
    assert_eq!(position_of(&v, '-', 9), 5);
    assert_eq!(position_of(&v, 'x', 0), 5);
    assert_eq!(slice_of(&v, 1, 4), vec!['-', 'b', '-']);
    assert_eq!(slice_of(&v, 2, 2), Vec::<char>::new());
}
