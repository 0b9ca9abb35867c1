use update_pypi_deps::{parse_specifier, render_entry, Malformed};

fn dep(name: &str, op: &str, version: &str) -> (String, Option<(String, String)>) {
    (name.to_string(), Some((op.to_string(), version.to_string())))
}

#[test]
fn arbitrary_equality_wins_over_equality() {
    assert_eq!(parse_specifier("pkg===1.0").unwrap(), dep("pkg", "===", "1.0"));
}

#[test]
fn each_operator_parses() {
    let cases = [
        ("a===1", "==="),
        ("a~=1", "~="),
        ("a==1", "=="),
        ("a!=1", "!="),
        ("a<=1", "<="),
        ("a>=1", ">="),
        ("a<1", "<"),
        ("a>1", ">"),
    ];
    for (line, op) in cases {
        assert_eq!(parse_specifier(line).unwrap(), dep("a", op, "1"));
    }
}

#[test]
fn joined_specifier_round_trips() {
    let d = parse_specifier("requests>=2.0").unwrap();
    assert_eq!(d, dep("requests", ">=", "2.0"));
    let (name, c) = &d;
    let (op, version) = c.as_ref().unwrap();
    assert_eq!(format!("{name}{op}{version}"), "requests>=2.0");
    assert_eq!(render_entry(&d), "requests >= 2.0");
}

#[test]
fn bare_name_has_no_constraint() {
    let d = parse_specifier("black").unwrap();
    assert_eq!(d, ("black".to_string(), None));
    assert_eq!(render_entry(&d), "black");
}

#[test]
fn quotes_and_spaces_are_trimmed() {
    assert_eq!(parse_specifier("\"numpy >= 1.26 \"").unwrap(), dep("numpy", ">=", "1.26"));
    assert_eq!(parse_specifier("\"tomli\"").unwrap(), ("tomli".to_string(), None));
}

#[test]
fn splits_on_first_occurrence_only() {
    assert_eq!(parse_specifier("a<1<2").unwrap(), dep("a", "<", "1<2"));
}

#[test]
fn compatible_release_before_less_than() {
    assert_eq!(parse_specifier("x~=1.0,<2").unwrap(), dep("x", "~=", "1.0,<2"));
}

#[test]
fn operator_without_name_is_malformed() {
    assert_eq!(parse_specifier("==1.0").unwrap_err(), Malformed::MissingName);
    assert_eq!(parse_specifier("  >= 2").unwrap_err(), Malformed::MissingName);
}

#[test]
fn operator_without_version_is_malformed() {
    assert_eq!(parse_specifier("pkg>=").unwrap_err(), Malformed::MissingVersion);
    assert_eq!(parse_specifier("pkg ==  ").unwrap_err(), Malformed::MissingVersion);
}

#[test]
fn empty_line_is_empty_bare_name() {
    assert_eq!(parse_specifier("").unwrap(), (String::new(), None));
}

#[test]
fn spaced_specifier_parses_to_trimmed_parts() {
    let d = parse_specifier("requests  >= 2.0").unwrap();
    assert_eq!(d, dep("requests", ">=", "2.0"));
    assert_eq!(render_entry(&d), "requests >= 2.0");
}
