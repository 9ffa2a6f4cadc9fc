use cargo_intraconv::lines::is_link_to_treat_long;
use cargo_intraconv::grammar::is_item_type_exec;
use cargo_intraconv::text::{is_html_section_exec, is_rust_identifier};

#[test]
fn consts_link_to_treat_long_matching() {
    // Testing spacing.
    assert!(is_link_to_treat_long("[name]:mod1\n"));
    assert!(is_link_to_treat_long("[name]: mod1\n"));
    assert!(is_link_to_treat_long("[name]:  mod1\n"));
    assert!(is_link_to_treat_long("[name]:\tmod1\n"));
    assert!(is_link_to_treat_long("  [name]: mod1\n"));
    assert!(is_link_to_treat_long("\t[name]: mod1\n"));
    assert!(is_link_to_treat_long("/// [name]: mod1\n"));
    assert!(is_link_to_treat_long("///  [name]: mod1\n"));
    assert!(is_link_to_treat_long("///\t[name]: mod1\n"));
    assert!(is_link_to_treat_long(" /// [name]: mod1\n"));
    assert!(is_link_to_treat_long("  /// [name]: mod1\n"));
    assert!(is_link_to_treat_long("\t/// [name]: mod1\n"));

    // Testing bangs.
    assert!(is_link_to_treat_long("/// [name]: mod1\n"));
    assert!(is_link_to_treat_long("//! [name]: mod1\n"));

    // Testing code in links.
    assert!(is_link_to_treat_long("[`name`]: mod1\n"));

    // Testing non-HTTP links
    assert!(is_link_to_treat_long("[name]: mod1/\n"));
    assert!(is_link_to_treat_long("[name]: mod1/mod2\n"));
    assert!(is_link_to_treat_long("[name]: mod1/mod2/struct.Type.html\n"));
    assert!(is_link_to_treat_long("[name]: mod1/mod2/struct.Type.html#const.NAME\n"));
    assert!(is_link_to_treat_long("[name]: mod1/mod2/#section\n"));
    assert!(is_link_to_treat_long("[name]: mod1/mod2#section\n"));
    assert!(is_link_to_treat_long("[name]: mod1/mod2/index.html#section\n"));
    assert!(is_link_to_treat_long("[name]: mod1/mod2/index.html/#section\n"));
    assert!(is_link_to_treat_long("[name]: ../mod1/mod2\n"));
    assert!(is_link_to_treat_long("[name]: ./../mod1\n"));

    // Testing HTTP links
    assert!(is_link_to_treat_long("[name]: https://docs.rs/regex/\n"));
    assert!(is_link_to_treat_long("[name]: https://docs.rs/regex/1.0.33/regex/mod1/mod2\n"));
    assert!(is_link_to_treat_long(
        "[name]: https://github.com/poliorcetics/cargo-intraconv/issues/21\n"
    ));

    // Testing all sorts of characters in the link name.
    assert!(is_link_to_treat_long("[azertyuiop]: mod1\n"));
    assert!(is_link_to_treat_long("[AZERTYUIOP]: mod1\n"));
    assert!(is_link_to_treat_long("[@&é\"'(§è!çà)-]: mod1\n"));
    assert!(is_link_to_treat_long("[#1234567890°_]: mod1\n"));
    assert!(is_link_to_treat_long("[•ë“‘{¶«¡Çø}—]: mod1\n"));
    assert!(is_link_to_treat_long("[Ÿ´„”’[å»ÛÁØ]–]: mod1\n"));
    assert!(is_link_to_treat_long("[æÂê®†Úºîœπ]: mod1\n"));
    assert!(is_link_to_treat_long("[ÆÅÊ‚™ŸªïŒ∏]: mod1\n"));
    assert!(is_link_to_treat_long("[‡Ò∂ƒﬁÌÏÈ¬µ]: mod1\n"));
    assert!(is_link_to_treat_long("[Ω∑∆·ﬂÎÍË|Ó]: mod1\n"));
    assert!(is_link_to_treat_long("[‹≈©◊ß~]: mod1\n"));
    assert!(is_link_to_treat_long("[›⁄¢√∫ı]: mod1\n"));
    assert!(is_link_to_treat_long("[^$ù`,;:=<]: mod1\n"));
    assert!(is_link_to_treat_long("[¨*%£?./+>]: mod1\n"));
    assert!(is_link_to_treat_long("[ô€Ù@∞…÷≠≤]: mod1\n"));
    assert!(is_link_to_treat_long("[Ô¥‰#¿•\\±≥]: mod1\n"));
}

#[test]
fn link_to_treat_long_rejects_other_lines() {
    assert!(!is_link_to_treat_long("let a = b;\n"));
    assert!(!is_link_to_treat_long("/// [name]: std::string::String\n"));
    assert!(!is_link_to_treat_long("/// [name]:\n"));
    assert!(!is_link_to_treat_long("/// name]: mod1\n"));
    assert!(!is_link_to_treat_long("/// [name]: mod1 and more\n"));
}

#[test]
fn rust_identifier_re() {
    assert!(is_rust_identifier("a"));
    assert!(is_rust_identifier("A"));
    assert!(is_rust_identifier("_"));

    assert!(is_rust_identifier("aa"));
    assert!(is_rust_identifier("aA"));
    assert!(is_rust_identifier("a0"));
    assert!(is_rust_identifier("a_"));

    assert!(is_rust_identifier("Aa"));
    assert!(is_rust_identifier("AA"));
    assert!(is_rust_identifier("A0"));
    assert!(is_rust_identifier("A_"));

    assert!(is_rust_identifier("_a"));
    assert!(is_rust_identifier("_A"));
    assert!(is_rust_identifier("_0"));
    assert!(is_rust_identifier("__"));

    assert!(!is_rust_identifier("0"));
    assert!(!is_rust_identifier("."));
    assert!(!is_rust_identifier("#"));
    assert!(!is_rust_identifier("abc()"));
}

const ALL_ITEM_TYPES: &[&str] = &[
    "associatedconstant", "associatedtype", "attr", "constant", "derive", "enum", "externcrate",
    "fn", "foreigntype", "impl", "import", "keyword", "macro", "method", "mod", "opaque",
    "primitive", "static", "struct", "structfield", "trait", "traitalias", "tymethod", "type",
    "union", "variant",
];

fn chars(s: &str) -> Vec<char> {
    s.chars().collect()
}

#[test]
fn item_types() {
    for item in ALL_ITEM_TYPES {
        assert!(is_item_type_exec(&chars(item)));
    }

    assert!(!is_item_type_exec(&chars("text")));
    assert!(!is_item_type_exec(&chars("0BDS")));
    assert!(!is_item_type_exec(&chars("sdfd")));
    assert!(!is_item_type_exec(&chars("STRUCT")));
}

#[test]
fn rust_identifier() {
    assert!(is_rust_identifier("a"));
    assert!(is_rust_identifier("A"));
    assert!(is_rust_identifier("_"));

    assert!(is_rust_identifier("aa"));
    assert!(is_rust_identifier("aA"));
    assert!(is_rust_identifier("a0"));
    assert!(is_rust_identifier("a_"));

    assert!(is_rust_identifier("Aa"));
    assert!(is_rust_identifier("AA"));
    assert!(is_rust_identifier("A0"));
    assert!(is_rust_identifier("A_"));

    assert!(is_rust_identifier("_a"));
    assert!(is_rust_identifier("_A"));
    assert!(is_rust_identifier("_0"));
    assert!(is_rust_identifier("__"));

    assert!(!is_rust_identifier("0"));
    assert!(!is_rust_identifier("."));
    assert!(!is_rust_identifier("#"));
    assert!(!is_rust_identifier("abc()"));
}

#[test]
fn html_section() {
    assert!(is_html_section_exec(&chars("#a")));
    assert!(is_html_section_exec(&chars("#A")));
    assert!(is_html_section_exec(&chars("#0")));
    assert!(is_html_section_exec(&chars("#_")));
    assert!(is_html_section_exec(&chars("#-")));
    assert!(is_html_section_exec(&chars("#.")));
    assert!(is_html_section_exec(&chars("#test")));
    // While this is really an associated item, a section is read all the
    // same: functions with more information make the difference.
    assert!(is_html_section_exec(&chars("#fn.item")));

    assert!(!is_html_section_exec(&chars("#")));
    assert!(!is_html_section_exec(&chars("abc")));
}
