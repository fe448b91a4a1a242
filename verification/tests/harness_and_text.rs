use desktop_stream::error::{message_error, AppError};
use desktop_stream::perf::{check_scenario, default_duration, default_seed, derive_seed, truncate, Rng64};
use desktop_stream::text::{decimal, is_blank, split_on, trim_text};

fn message(e: AppError) -> String {
    match e {
        AppError::Message(m) => m,
        other => panic!("unexpected error {:?}", other),
    }
}

fn reference_seed(base: u64, name: &str, stress: &str, index: u64) -> u64 {
    let mut hash = base ^ index.wrapping_mul(0x9E37_79B9);
    for byte in name.bytes() {
        hash = hash.wrapping_mul(0xC2B2_AE35).wrapping_add(byte as u64);
    }
    for byte in stress.bytes() {
        hash = hash.wrapping_mul(0x1656_67B1).wrapping_add(byte as u64);
    }
    hash
}

#[test]
fn harness_defaults() {
    assert_eq!(default_seed(), 0xC0DEC0DE);
    assert_eq!(default_duration(), 60);
}

#[test]
fn seeds_mix_names_and_index() {
    assert_eq!(derive_seed(0, "", "", 0), 0);
    assert_eq!(derive_seed(1, "", "", 1), 1 ^ 0x9E37_79B9);
    assert_eq!(derive_seed(0, "a", "", 0), 97);
    assert_eq!(derive_seed(0, "a", "b", 0), 97u64.wrapping_mul(0x1656_67B1).wrapping_add(98));
    let a = derive_seed(0xC0DEC0DE, "1080p_60fps_6mbps", "nominal", 0);
    assert_eq!(a, reference_seed(0xC0DEC0DE, "1080p_60fps_6mbps", "nominal", 0));
    assert_ne!(a, derive_seed(0xC0DEC0DE, "1080p_60fps_6mbps", "elevated", 1));
}

#[test]
fn generator_steps_a_linear_congruence() {
    let mut zero = Rng64::new(0);
    let mut fixed = Rng64::new(0x0123_4567_89AB_CDEF);
    assert_eq!(zero.next_bits(), fixed.next_bits());
    let mut r = Rng64::new(1);
    let expected = 1u64.wrapping_mul(6364136223846793005).wrapping_add(1442695040888963407) >> 11;
    assert_eq!(r.next_bits(), expected);
    assert!(r.next_bits() < (1u64 << 53));
    let mut a = Rng64::new(99);
    let mut b = Rng64::new(99);
    for _ in 0..5 {
        assert_eq!(a.next_bits(), b.next_bits());
    }
}

#[test]
fn table_cells_are_truncated() {
    assert_eq!(truncate("short", 10), "short");
    assert_eq!(truncate("exactly", 7), "exactly");
    assert_eq!(truncate("a long scenario name", 8), "a long …");
    assert_eq!(truncate("abcdef", 3), "………");
    assert_eq!(truncate("abcdef", 0), "");
    assert_eq!(truncate("ééééé", 6), "ééééé…");
    assert_eq!(truncate("ééé", 6), "ééé");
}

#[test]
fn scenarios_need_a_rate_and_a_resolution() {
    assert_eq!(check_scenario("s", 1920, 1080, 60, 0).unwrap(), 60);
    assert_eq!(check_scenario("s", 1920, 1080, 60, 90).unwrap(), 90);
    assert_eq!(message(check_scenario("fast", 1, 1, 0, 5).unwrap_err()), "scenario 'fast' must declare fps > 0");
    assert_eq!(
        message(check_scenario("flat", 0, 1080, 30, 5).unwrap_err()),
        "scenario 'flat' must declare a positive resolution"
    );
}

#[test]
fn text_helpers() {
    assert_eq!(decimal(0), "0");
    assert_eq!(decimal(1_234_567), "1234567");
    assert_eq!(decimal(u64::MAX), u64::MAX.to_string());
    assert_eq!(trim_text("  a b \t\n"), "a b");
    assert!(is_blank(" \t "));
    assert!(!is_blank(" x "));
    let parts: Vec<String> = split_on("1x2X3", 'x', 'X').into_iter().map(|p| p.into_iter().collect()).collect();
    assert_eq!(parts, vec!["1", "2", "3"]);
    let empty: Vec<Vec<char>> = split_on("", 'x', 'X');
    assert_eq!(empty.len(), 1);
}

#[test]
fn errors_describe_themselves() {
    assert_eq!(message(message_error("boom")), "boom");
    assert_eq!(AppError::Message("m".to_string()).describe(), "m");
    assert_eq!(AppError::MediaFoundation("no codec").describe(), "Media Foundation support unavailable: no codec");
    assert_eq!(AppError::Win32("denied").describe(), "Win32 API error: denied");
}
