use studio_core::converter::calculations::{
    format_number_text, get_locale_config, parse_formula, transpile_to_typst, TranspileContext,
};
use studio_core::converter::nodes::table::formula::{is_aggregation, translate_to_typst};

fn ctx(is_loop: bool, path: &str) -> TranspileContext {
    TranspileContext { is_loop, loop_path: path.to_string() }
}

#[test]
fn plain_text_is_kept() {
    assert_eq!(transpile_to_typst("hello", &ctx(false, "")).unwrap(), "hello");
}

#[test]
fn arithmetic_with_precedence() {
    let out = transpile_to_typst("=qty * price + 1", &ctx(true, "items")).unwrap();
    assert_eq!(
        out,
        "#{ ((num(safe-get(item, \"qty\")) * num(safe-get(item, \"price\"))) + 1) }"
    );
}

#[test]
fn aggregation_over_loop_path() {
    let out = transpile_to_typst("=SUM(total)", &ctx(false, "items")).unwrap();
    assert_eq!(out, "#{ data.items.map(i => num(safe-get(i, \"total\"))).sum() }");
    let avg = transpile_to_typst("=avg(total)", &ctx(false, "a.b")).unwrap();
    assert_eq!(
        avg,
        "#{ { let arr = data.a.b.map(i => num(safe-get(i, \"total\"))); arr.sum() / arr.len() } }"
    );
}

#[test]
fn numbers_print_like_floats() {
    assert_eq!(transpile_to_typst("=1,000.50", &ctx(false, "")).unwrap(), "#{ 1000.5 }");
    assert_eq!(transpile_to_typst("=007", &ctx(false, "")).unwrap(), "#{ 7 }");
    assert_eq!(transpile_to_typst("=TRUE", &ctx(false, "")).unwrap(), "#{ 1 }");
}

#[test]
fn if_and_concat() {
    let out = transpile_to_typst("=IF(a > b, \"x\", CONCAT(b, 2))", &ctx(false, "")).unwrap();
    assert_eq!(
        out,
        "#{ if (num(safe-get(data, \"a\")) > num(safe-get(data, \"b\"))) { \"x\" } else { str(num(safe-get(data, \"b\"))) + str(2) } }"
    );
    // A comma right after a digit belongs to the number.
    assert_eq!(
        transpile_to_typst("=IF(a > 1, \"x\", 2)", &ctx(false, "")).unwrap_err(),
        "Expected RParen, got StringLit(\"x\")"
    );
}

#[test]
fn logic_operators() {
    let out = transpile_to_typst("=NOT a AND b OR -c", &ctx(false, "")).unwrap();
    assert_eq!(
        out,
        "#{ (((not num(safe-get(data, \"a\"))) and num(safe-get(data, \"b\"))) or (-num(safe-get(data, \"c\")))) }"
    );
}

#[test]
fn parse_errors_are_reported() {
    let e = transpile_to_typst("=(1 + 2", &ctx(false, "")).unwrap_err();
    assert_eq!(e, "Expected RParen, got Eof");
    let e2 = transpile_to_typst("=1 +", &ctx(false, "")).unwrap_err();
    assert_eq!(e2, "Unexpected token: Eof");
    let e3 = transpile_to_typst("=1..2", &ctx(false, "")).unwrap_err();
    assert_eq!(e3, "Invalid number");
    assert!(transpile_to_typst("=a ? b", &ctx(false, "")).is_err());
}

#[test]
fn translate_wraps_errors_in_a_comment() {
    assert_eq!(
        translate_to_typst("=(1", &ctx(false, "")),
        "/* Formula Error: Expected RParen, got Eof */"
    );
    assert_eq!(translate_to_typst("=2", &ctx(false, "")), "#{ 2 }");
}

#[test]
fn aggregation_detection() {
    assert!(is_aggregation("=sum(total)"));
    assert!(is_aggregation("=If(a, b, c)"));
    assert!(is_aggregation("=count(x)"));
    assert!(!is_aggregation("=qty * price"));
    assert!(!is_aggregation("=sum (total)"));
}

#[test]
fn parse_formula_gives_an_expression() {
    assert!(parse_formula("1 + 2").is_ok());
    assert!(parse_formula("").is_err());
}

#[test]
fn locale_configs() {
    let de = get_locale_config("DE-de");
    assert_eq!((de.thousands_sep, de.decimal_sep, de.devanagari_grouping), ('.', ',', false));
    let ne = get_locale_config("ne-NP");
    assert_eq!((ne.thousands_sep, ne.decimal_sep, ne.devanagari_grouping), (',', '.', true));
    let ch = get_locale_config("fr-ch");
    assert_eq!(ch.thousands_sep, '\'');
    let us = get_locale_config("xx");
    assert_eq!((us.thousands_sep, us.decimal_sep, us.devanagari_grouping), (',', '.', false));
}

#[test]
fn number_grouping() {
    assert_eq!(format_number_text("1234567.50", false, 2, "en-US"), "1,234,567.50");
    assert_eq!(format_number_text("1234567.50", true, 2, "de-DE"), "-1.234.567,50");
    assert_eq!(format_number_text("1234567.00", false, 2, "hi-IN"), "12,34,567.00");
    assert_eq!(format_number_text("100000", false, 0, "ne-NP"), "1,00,000");
    assert_eq!(format_number_text("999.5", false, 1, "fr-CH"), "999.5");
    assert_eq!(format_number_text("123", false, 2, "en-US"), "123");
    assert_eq!(format_number_text("0.00", true, 2, "en-US"), "-0.00");
}
