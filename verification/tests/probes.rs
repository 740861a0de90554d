use public_ollama_finder::block::Source;
use public_ollama_finder::probe::{
    check_host, classify, endpoint_row, model_row, probe_url, server_address, size_gb_text,
    size_hundredths, wants_body, HostTarget, ModelDetails, ModelRecord, ProbeOutcome,
};

fn model(name: &str, size: u64) -> ModelRecord {
    ModelRecord {
        name: name.to_string(),
        model: format!("{}-id", name),
        modified_at: "2024-05-01T10:00:00Z".to_string(),
        size,
        digest: "sha256:abc".to_string(),
        details: ModelDetails {
            parent_model: "".to_string(),
            format: "gguf".to_string(),
            family: "llama".to_string(),
            parameter_size: "7B".to_string(),
            quantization_level: "Q4_0".to_string(),
        },
    }
}

fn target() -> HostTarget {
    HostTarget { addr: 0xC0A8_010A, source: Source::Cidr }
}

fn float_text(size: u64) -> String {
    format!("{:.2}", size as f64 / 1_073_741_824.0)
}

#[test]
fn urls() {
    assert_eq!(server_address(0xC0A8_010A), "192.168.1.10:11434");
    assert_eq!(server_address(0), "0.0.0.0:11434");
    assert_eq!(probe_url(0xC0A8_010A), "http://192.168.1.10:11434/api/tags");
    assert_eq!(probe_url(0), "http://0.0.0.0:11434/api/tags");
    assert_eq!(probe_url(u32::MAX), "http://255.255.255.255:11434/api/tags");
}

#[test]
fn four_gib_model_shows_4_00() {
    let report = check_host(target(), Some(200), Some(vec![model("llama3", 4_294_967_296)]));
    assert!(matches!(report.outcome, ProbeOutcome::Matched { status: 200, ref models } if models.len() == 1));
    assert_eq!(report.model_rows.len(), 1);
    assert_eq!(
        report.model_rows[0],
        vec![
            "192.168.1.10:11434", "llama3", "llama3-id", "2024-05-01T10:00:00Z", "4.00", "sha256:abc", "",
            "gguf", "llama", "7B", "Q4_0"
        ]
    );
    assert_eq!(report.endpoint.as_ref().map(|e| e.status), Some(200));
    assert_eq!(
        report.endpoint.map(|e| e.row()),
        Some(vec![
            "192.168.1.10:11434".to_string(),
            "http://192.168.1.10:11434/api/tags".to_string(),
            "200".to_string(),
            "CIDR".to_string()
        ])
    );
}

#[test]
fn match_without_models_still_leaves_the_endpoint_row() {
    let empty = check_host(target(), Some(200), Some(vec![]));
    assert_eq!(empty.endpoint.as_ref().map(|e| e.row()[2].clone()), Some("200".to_string()));
    assert!(empty.model_rows.is_empty());
    let unreadable = check_host(target(), Some(200), None);
    assert_eq!(unreadable.endpoint.map(|e| e.row()), empty.endpoint.map(|e| e.row()));
    assert!(unreadable.model_rows.is_empty());
    assert!(matches!(unreadable.outcome, ProbeOutcome::Matched { status: 200, ref models } if models.is_empty()));
}

#[test]
fn not_found_is_a_possible_match_without_rows() {
    let report = check_host(target(), Some(404), Some(vec![model("x", 1)]));
    assert!(matches!(report.outcome, ProbeOutcome::PossibleMatch { status: 404 }));
    assert!(report.endpoint.is_none());
    assert!(report.model_rows.is_empty());
}

#[test]
fn everything_else_is_no_match() {
    for status in [None, Some(0u16), Some(201), Some(301), Some(403), Some(500), Some(65535)] {
        let report = check_host(target(), status, None);
        assert!(matches!(report.outcome, ProbeOutcome::NoMatch));
        assert!(report.endpoint.is_none());
        assert!(report.model_rows.is_empty());
        assert!(matches!(classify(status, None), ProbeOutcome::NoMatch));
    }
}

#[test]
fn only_a_match_has_its_body_read() {
    assert!(wants_body(200));
    assert!(!wants_body(404));
    assert!(!wants_body(204));
}

#[test]
fn rows_in_list_order() {
    let report = check_host(target(), Some(200), Some(vec![model("b", 1), model("a", 2), model("c", 3)]));
    let names: Vec<&str> = report.model_rows.iter().map(|r| r[1].as_str()).collect();
    assert_eq!(names, vec!["b", "a", "c"]);
    assert_eq!(model_row(1, &model("b", 1))[0], "0.0.0.1:11434");
    assert_eq!(endpoint_row(HostTarget { addr: 1, source: Source::SingleIp }, 200)[3], "SingleIP");
}

#[test]
fn size_text_exact_values() {
    assert_eq!(size_gb_text(0), "0.00");
    assert_eq!(size_gb_text(1 << 30), "1.00");
    assert_eq!(size_gb_text(4_294_967_296), "4.00");
    assert_eq!(size_gb_text(1_610_612_736), "1.50");
    assert_eq!(size_gb_text(3_825_819_519), "3.56");
    assert_eq!(size_hundredths(4_294_967_296), 400);
    // halves go to the even neighbour
    assert_eq!(size_gb_text(1 << 27), "0.12");
    assert_eq!(size_gb_text(3 << 27), "0.38");
    assert_eq!(size_gb_text(u64::MAX), "17179869184.00");
}

#[test]
fn size_text_agrees_with_float_formatting() {
    let mut samples: Vec<u64> = vec![0, 1, 5_368_709, 5_368_710, 10_737_418, 10_737_419, u64::MAX, u64::MAX - 1];
    for shift in 0..64 {
        let p = 1u64 << shift;
        for delta in [0u64, 1, 2, 3, 1023, 1024, 1025, 2047, 2048, 2049, 3071, 3072, 3073] {
            samples.push(p.wrapping_add(delta));
            samples.push(p.wrapping_sub(delta));
            samples.push(p.wrapping_mul(3).wrapping_add(delta));
        }
    }
    for k in 0..4000u64 {
        samples.push(k * (1 << 27));
        samples.push(k * 5_368_709 + k);
        samples.push((1u64 << 53) + k);
        samples.push((1u64 << 60) + k * 64);
        samples.push(k.wrapping_mul(0x9E37_79B9_7F4A_7C15));
    }
    for size in samples {
        assert_eq!(size_gb_text(size), float_text(size), "size {}", size);
    }
}
