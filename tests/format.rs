use std::borrow::Cow;

#[test]
fn test_format() {
    assert_eq!(logback::template::format("no anchors", &[]), Cow::Borrowed("no anchors"));
    assert_eq!(
        logback::template::format("single {} anchor", &["central".into()]),
        Cow::Owned::<str>("single central anchor".into())
    );
    assert_eq!(
        logback::template::format("unused arg", &["foo".into()]),
        Cow::Borrowed("unused arg")
    );
    assert_eq!(
        logback::template::format("unused {} anchor", &[]),
        Cow::Borrowed("unused {} anchor")
    );
    assert_eq!(
        logback::template::format(r"escaped escape \\{}", &["foo".into()]),
        Cow::Owned::<str>(r"escaped escape \\foo".into())
    );
    assert_eq!(
        logback::template::format(r"Partially escaped \{ anchor", &[]),
        Cow::Borrowed(r"Partially escaped \{ anchor")
    );
    assert_eq!(
        logback::template::format(r"Partially escaped \{ anchor with {}", &["arg".into()]),
        Cow::Owned::<str>(r"Partially escaped \{ anchor with arg".into())
    );
    assert_eq!(
        logback::template::format(r"End with {} escape\", &["final".into()]),
        Cow::Owned::<str>("End with final escape".into())
    );
    assert_eq!(
        logback::template::format("Too {} arguments {}", &["few".into()]),
        Cow::Borrowed("Too few arguments {}")
    );
    assert_eq!(
        logback::template::format("Too {} arguments", &["many".into(), "ignored".into()]),
        Cow::Borrowed("Too many arguments")
    );
    assert_eq!(
        logback::template::format("Not {} an {anchor}", &["really".into()]),
        Cow::Owned::<str>("Not really an {anchor}".into())
    );
}

#[test]
fn format_without_arguments_keeps_template() {
    assert_eq!(logback::template::format("{} and {}", &[]), "{} and {}");
    assert_eq!(logback::template::format(r"\{} escaped", &[]), r"\{} escaped");
    assert_eq!(logback::template::format("", &[]), "");
}

#[test]
fn format_without_anchor_keeps_template() {
    assert_eq!(logback::template::format("plain { text }", &["x".into()]), "plain { text }");
    assert_eq!(logback::template::format(r"trailing \", &["x".into()]), r"trailing \");
}

#[test]
fn format_substitutes_in_order() {
    assert_eq!(logback::template::format("{} {}", &["a".into(), "b".into()]), "a b");
    assert_eq!(logback::template::format("{}{}{}", &["1".into(), "2".into(), "3".into()]), "123");
}

#[test]
fn format_too_few_arguments_keeps_rest_verbatim() {
    assert_eq!(
        logback::template::format(r"{} then {} and \{} {}", &["one".into()]),
        r"one then {} and \{} {}"
    );
}

#[test]
fn format_escaped_anchor_is_literal() {
    assert_eq!(logback::template::format(r"a \{} b {}", &["x".into()]), "a {} b x");
    assert_eq!(logback::template::format(r"\x {}", &["y".into()]), r"\x y");
}

#[test]
fn format_null_marker_renders_null() {
    assert_eq!(
        logback::template::format("value {} here", &["NULL_ARGUMENT_ARRAY_ELEMENT".into()]),
        "value null here"
    );
    assert_eq!(
        logback::template::format("value {} here", &["NULL_ARGUMENT_ARRAY_ELEMENT_".into()]),
        "value NULL_ARGUMENT_ARRAY_ELEMENT_ here"
    );
}

#[test]
fn format_argument_with_anchor_is_not_rescanned() {
    assert_eq!(logback::template::format("{} {}", &["{}".into(), "b".into()]), "{} b");
}

#[test]
fn format_non_ascii() {
    assert_eq!(logback::template::format("é{}ü", &["ß".into()]), "éßü");
}

#[test]
fn format_drops_trailing_escape_when_substituting() {
    assert_eq!(logback::template::format(r"{}\", &["x".into()]), "x");
    assert_eq!(logback::template::format(r"{} \\", &["x".into()]), r"x \\");
}
