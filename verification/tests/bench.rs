use valua::bench::{fmt_int, json_escape, lua51_source, lua55_source, opt_str, TargetResult};

fn target(samples: Vec<u64>) -> TargetResult {
    TargetResult {
        id: 'A',
        label: String::from("label"),
        interpreter: String::from("luajit"),
        samples_us: samples,
        stdout_sample: String::new(),
        jit_traces: None,
        nyi_count: None,
    }
}

#[test]
fn lua51_source_embeds_iteration_count() {
    let s = lua51_source(1000);
    assert_eq!(
        s,
        "local N = 1000\nlocal acc = 0\nfor i = 1, N do\n    acc = bit.band(bit.bxor(acc, bit.band(i, 255)), 2147483647)\n    acc = bit.band(bit.bor(acc, math.floor(i / 3)), 2147483647)\nend\nprint(acc)\n"
    );
}

#[test]
fn lua55_source_embeds_iteration_count() {
    let s = lua55_source(7);
    assert_eq!(
        s,
        "local N = 7\nlocal acc = 0\nfor i = 1, N do\n    acc = (acc ~ (i & 0xFF)) & 0x7FFFFFFF\n    acc = (acc | (i // 3)) & 0x7FFFFFFF\nend\nprint(acc)\n"
    );
}

#[test]
fn lua55_source_compiles_to_bit_calls_for_luajit() {
    let src = lua55_source(10);
    let out = valua::compile::Compiler::compile(&src, valua::compile::CompileOptions::luajit())
        .expect("benchmark source compiles");
    assert!(out.contains("bit.bxor"));
    assert!(out.contains("bit.band"));
    assert!(out.contains("bit.bor"));
    assert!(out.contains("math.floor"));
    assert!(!out.contains("//"));
}

#[test]
fn median_of_odd_count_is_middle_value() {
    assert_eq!(target(vec![50, 10, 30]).median_us(), 30);
}

#[test]
fn median_of_even_count_is_upper_middle() {
    assert_eq!(target(vec![4, 1, 3, 2]).median_us(), 3);
}

#[test]
fn median_of_single_sample() {
    assert_eq!(target(vec![9]).median_us(), 9);
}

#[test]
fn p95_of_seven_samples_is_largest() {
    assert_eq!(target(vec![7, 3, 9, 1, 5, 2, 8]).p95_us(), 9);
}

#[test]
fn p95_of_forty_samples_is_index_38() {
    let samples: Vec<u64> = (0..40u64).rev().collect();
    assert_eq!(target(samples).p95_us(), 38);
}

#[test]
fn fmt_int_groups_thousands() {
    assert_eq!(fmt_int(0), "0");
    assert_eq!(fmt_int(999), "999");
    assert_eq!(fmt_int(1000), "1,000");
    assert_eq!(fmt_int(1234567), "1,234,567");
    assert_eq!(fmt_int(10_000_000), "10,000,000");
    assert_eq!(fmt_int(u64::MAX), "18,446,744,073,709,551,615");
}

#[test]
fn opt_str_shows_count_or_na() {
    assert_eq!(opt_str(None), "N/A");
    assert_eq!(opt_str(Some(0)), "0");
    assert_eq!(opt_str(Some(42)), "42");
}

#[test]
fn json_escape_escapes_special_characters() {
    assert_eq!(json_escape("plain"), "plain");
    assert_eq!(json_escape("a\"b"), "a\\\"b");
    assert_eq!(json_escape("back\\slash"), "back\\\\slash");
    assert_eq!(json_escape("l1\nl2\r\tend"), "l1\\nl2\\r\\tend");
    assert_eq!(json_escape(""), "");
}
