use cargo_intraconv::check::{check, Context};
use cargo_intraconv::driver::krate_or_default;
use cargo_intraconv::grammar::holds_rust_version_exec;
use cargo_intraconv::transform::find_type_blocks;

#[test]
fn type_names_may_hold_any_word_character() {
    let blocks = find_type_blocks(&vec!["pub struct Café {\n".to_string(), "}\n".to_string()]);
    assert_eq!(blocks, vec![("Café".to_string(), "}".to_string(), 1)]);
    let mut ctx = Context { krate: "k".into(), curr_type_block: None, end_type_block: String::new() };
    let r = check("struct Café<T>(T);\n".into(), &mut ctx);
    assert_eq!(r, "struct Café<T>(T);\n");
    assert_eq!(ctx.curr_type_block, Some("Café".to_string()));
    // A digit of another script is a word character; a space or `<` is not.
    let blocks = find_type_blocks(&vec!["enum E٤ {\n".to_string(), "}\n".to_string()]);
    assert_eq!(blocks, vec![("E٤".to_string(), "}".to_string(), 1)]);
    let blocks = find_type_blocks(&vec!["struct <T> {\n".to_string()]);
    assert!(blocks.is_empty());
}

#[test]
fn rust_versions_may_use_any_decimal_digits() {
    let v: Vec<char> = "https://doc.rust-lang.org/1.٤٥.0/std".chars().collect();
    assert!(holds_rust_version_exec(&v));
    let v: Vec<char> = "https://doc.rust-lang.org/1.x.0/std".chars().collect();
    assert!(!holds_rust_version_exec(&v));
    // `²` is a number, but no decimal digit.
    let v: Vec<char> = "https://doc.rust-lang.org/1.².0/std".chars().collect();
    assert!(!holds_rust_version_exec(&v));
}

#[test]
fn crates_with_invalid_names_use_the_default() {
    assert_eq!(krate_or_default("my_crate".into(), "std"), "my_crate");
    assert_eq!(krate_or_default("my-crate".into(), "std"), "std");
    assert_eq!(krate_or_default("".into(), "core"), "core");
}
