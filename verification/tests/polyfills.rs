use valua::polyfills::{polyfills_for, FeatureSet, BITWISE_FALLBACK};

fn none() -> FeatureSet {
    FeatureSet::default()
}

#[test]
fn test_no_polyfills_when_empty() {
    let fs = FeatureSet::default();
    assert!(fs.is_empty());
    assert_eq!(polyfills_for(&fs), "");
}

#[test]
fn test_bitwise_polyfill_included() {
    let fs = FeatureSet { bitwise_ops: true, ..none() };
    assert!(!fs.is_empty());
    let _ = polyfills_for(&fs);
}

#[test]
fn test_feature_set_is_empty_requires_all_false() {
    let mut fs = FeatureSet::default();
    assert!(fs.is_empty());

    fs.bitwise_ops = true;
    assert!(!fs.is_empty());
    fs.bitwise_ops = false;

    fs.close_attribute = true;
    assert!(!fs.is_empty());
    fs.close_attribute = false;

    fs.integer_div = true;
    assert!(!fs.is_empty());
    fs.integer_div = false;

    fs.string_extensions = true;
    assert!(!fs.is_empty());
    fs.string_extensions = false;

    fs.math_extensions = true;
    assert!(!fs.is_empty());
}

#[test]
fn test_polyfills_for_bitwise_returns_nonempty() {
    let fs = FeatureSet { bitwise_ops: true, ..none() };
    assert!(!polyfills_for(&fs).is_empty());
}

#[test]
fn test_polyfills_for_close_only_still_empty() {
    let fs = FeatureSet { close_attribute: true, ..none() };
    assert_eq!(polyfills_for(&fs), "");
}

#[test]
fn test_integer_div_not_in_polyfill_output() {
    let fs = FeatureSet { integer_div: true, ..none() };
    assert_eq!(polyfills_for(&fs), "");
}

#[test]
fn bitwise_polyfill_is_the_fallback_text() {
    let fs = FeatureSet { bitwise_ops: true, ..none() };
    assert_eq!(polyfills_for(&fs), BITWISE_FALLBACK);
}
