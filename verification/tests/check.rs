use cargo_intraconv::check::{check, Context};

const ITEM_TYPES: &[&str] = &[
    "associatedconstant", "associatedtype", "attr", "constant", "derive", "enum", "externcrate",
    "fn", "foreigntype", "impl", "import", "keyword", "macro", "method", "mod", "opaque",
    "primitive", "static", "struct", "structfield", "trait", "traitalias", "tymethod", "type",
    "union", "variant",
];

fn std_ctx() -> Context {
    Context { krate: "std".into(), curr_type_block: None, end_type_block: "".into() }
}

fn core_ctx() -> Context {
    Context { krate: "core".into(), curr_type_block: None, end_type_block: "".into() }
}


#[test]
fn code_line_is_unchanged() {
    let mut ctx = std_ctx();

    let line = "let res = a + b;\n";
    assert_eq!(line, check(line.into(), &mut ctx));

    assert_eq!(std_ctx(), ctx);
}

#[test]
fn normal_comment_line_is_unchanged() {
    let mut ctx = std_ctx();

    let line = "// let res = a + b;\n";
    assert_eq!(line, check(line.into(), &mut ctx));

    assert_eq!(std_ctx(), ctx);
}

#[test]
fn normal_doc_comment_line_is_unchanged() {
    let mut ctx = std_ctx();

    let line = "/// let res = a + b;\n";
    assert_eq!(line, check(line.into(), &mut ctx));

    assert_eq!(std_ctx(), ctx);
}

#[test]
fn normal_header_doc_comment_line_is_unchanged() {
    let mut ctx = std_ctx();

    let line = "//! let res = a + b;\n";
    assert_eq!(line, check(line.into(), &mut ctx));

    assert_eq!(std_ctx(), ctx);
}

#[test]
fn indentation_is_unchanged() {
    let mut ctx = std_ctx();

    let line = "  //! let res = a + b;\n";
    assert_eq!(line, check(line.into(), &mut ctx));

    let line = "    //! let res = a + b;\n";
    assert_eq!(line, check(line.into(), &mut ctx));

    assert_eq!(std_ctx(), ctx);
}

#[test]
fn http_link_is_ignored() {
    let mut ctx = std_ctx();

    let line = "/// [`String`]: http://www.example.com/index.html#section\n";
    assert_eq!(line, check(line.into(), &mut ctx));

    let line = "    /// [`String`]: https://www.example.com/index.html#section\n";
    assert_eq!(line, check(line.into(), &mut ctx));

    assert_eq!(std_ctx(), ctx);
}


#[test]
fn local_path_is_deleted() {
    let mut ctx = std_ctx();

    let line = "/// [`String`]: String\n";
    assert_eq!("", check(line.into(), &mut ctx));

    let line = "    /// [String]: String\n";
    assert_eq!("", check(line.into(), &mut ctx));

    let line = "[`String`]: String\n";
    assert_eq!("", check(line.into(), &mut ctx));

    let line = "    [String]: String\n";
    assert_eq!("", check(line.into(), &mut ctx));

    assert_eq!(std_ctx(), ctx);
}

#[test]
fn long_path_is_unchanged() {
    let mut ctx = std_ctx();

    let line = "/// [`String`]: string::String\n";
    assert_eq!(line, check(line.into(), &mut ctx));

    let line = "    /// [String]: string::String\n";
    assert_eq!(line, check(line.into(), &mut ctx));

    let line = "[`String`]: string::String\n";
    assert_eq!(line, check(line.into(), &mut ctx));

    let line = "    [String]: string::String\n";
    assert_eq!(line, check(line.into(), &mut ctx));

    assert_eq!(std_ctx(), ctx);
}

#[test]
fn full_path_is_unchanged() {
    let mut ctx = std_ctx();

    let line = "/// [`String`]: ::std::string::String\n";
    assert_eq!(line, check(line.into(), &mut ctx));

    let line = "    /// [String]: ::std::string::String\n";
    assert_eq!(line, check(line.into(), &mut ctx));

    let line = "[`String`]: ::std::string::String\n";
    assert_eq!(line, check(line.into(), &mut ctx));

    let line = "    [String]: ::std::string::String\n";
    assert_eq!(line, check(line.into(), &mut ctx));

    assert_eq!(std_ctx(), ctx);
}


#[test]
fn new_local_link_is_deleted() {
    let mut ctx = std_ctx();

    let line = "/// [`String`]: struct.String.html\n";
    assert_eq!("", check(line.into(), &mut ctx));

    let line = "    /// [String]: struct.String.html\n";
    assert_eq!("", check(line.into(), &mut ctx));

    let line = "[`String`]: struct.String.html\n";
    assert_eq!("", check(line.into(), &mut ctx));

    let line = "    [String]: struct.String.html\n";
    assert_eq!("", check(line.into(), &mut ctx));

    assert_eq!(std_ctx(), ctx);
}

#[test]
fn new_long_link_is_transformed() {
    let mut ctx = std_ctx();

    let line = "/// [`String`]: string/struct.String.html\n";
    assert_eq!(
        "/// [`String`]: string::String\n",
        check(line.into(), &mut ctx)
    );

    let line = "    /// [String]: string/struct.String.html\n";
    assert_eq!(
        "    /// [String]: string::String\n",
        check(line.into(), &mut ctx)
    );

    let line = "[`String`]: string/struct.String.html\n";
    assert_eq!("[`String`]: string::String\n", check(line.into(), &mut ctx));

    let line = "    [String]: string/struct.String.html\n";
    assert_eq!(
        "    [String]: string::String\n",
        check(line.into(), &mut ctx)
    );

    assert_eq!(std_ctx(), ctx);
}

#[test]
fn new_full_link_is_transformed_crate() {
    let mut ctx = std_ctx();

    let line = "/// [`String`]: std/string/struct.String.html\n";
    assert_eq!(
        "/// [`String`]: crate::string::String\n",
        check(line.into(), &mut ctx)
    );

    let line = "    /// [String]: std/string/struct.String.html\n";
    assert_eq!(
        "    /// [String]: crate::string::String\n",
        check(line.into(), &mut ctx)
    );

    let line = "[`String`]: std/string/struct.String.html\n";
    assert_eq!(
        "[`String`]: crate::string::String\n",
        check(line.into(), &mut ctx)
    );

    let line = "    [String]: std/string/struct.String.html\n";
    assert_eq!(
        "    [String]: crate::string::String\n",
        check(line.into(), &mut ctx)
    );

    assert_eq!(std_ctx(), ctx);
}

#[test]

fn new_full_link_is_transformed_crate_over_super() {
    let mut ctx = std_ctx();

    let line = "/// [`String`]: ../../std/string/struct.String.html\n";
    assert_eq!(
        "/// [`String`]: crate::string::String\n",
        check(line.into(), &mut ctx)
    );

    let line = "    /// [String]: ../../std/string/struct.String.html\n";
    assert_eq!(
        "    /// [String]: crate::string::String\n",
        check(line.into(), &mut ctx)
    );

    let line = "[`String`]: ../../std/string/struct.String.html\n";
    assert_eq!(
        "[`String`]: crate::string::String\n",
        check(line.into(), &mut ctx)
    );

    let line = "    [String]: ../../std/string/struct.String.html\n";
    assert_eq!(
        "    [String]: crate::string::String\n",
        check(line.into(), &mut ctx)
    );

    assert_eq!(std_ctx(), ctx);
}

#[test]
fn new_full_link_is_transformed_not_crate() {
    let mut ctx = core_ctx();

    let line = "/// [`String`]: std/string/struct.String.html\n";
    assert_eq!(
        "/// [`String`]: std::string::String\n",
        check(line.into(), &mut ctx)
    );

    let line = "    /// [String]: std/string/struct.String.html\n";
    assert_eq!(
        "    /// [String]: std::string::String\n",
        check(line.into(), &mut ctx)
    );

    let line = "[`String`]: std/string/struct.String.html\n";
    assert_eq!(
        "[`String`]: std::string::String\n",
        check(line.into(), &mut ctx)
    );

    let line = "    [String]: std/string/struct.String.html\n";
    assert_eq!(
        "    [String]: std::string::String\n",
        check(line.into(), &mut ctx)
    );

    assert_eq!(core_ctx(), ctx);
}

#[test]
fn new_full_link_is_transformed_super() {
    let mut ctx = core_ctx();

    let line = "/// [`String`]: ../../string/struct.String.html\n";
    assert_eq!(
        "/// [`String`]: super::super::string::String\n",
        check(line.into(), &mut ctx)
    );

    let line = "    /// [String]: ../../string/struct.String.html\n";
    assert_eq!(
        "    /// [String]: super::super::string::String\n",
        check(line.into(), &mut ctx)
    );

    let line = "[`String`]: ../../string/struct.String.html\n";
    assert_eq!(
        "[`String`]: super::super::string::String\n",
        check(line.into(), &mut ctx)
    );

    let line = "    [String]: ../../string/struct.String.html\n";
    assert_eq!(
        "    [String]: super::super::string::String\n",
        check(line.into(), &mut ctx)
    );

    assert_eq!(core_ctx(), ctx);
}

#[test]
fn additional_is_kept() {
    let mut ctx = std_ctx();

    let line = "/// [`String`]: struct.String.html#method.as_ref\n";
    assert_eq!(
        "/// [`String`]: String::as_ref\n",
        check(line.into(), &mut ctx)
    );

    let line = "    /// [String]: struct.String.html#method.as_ref\n";
    assert_eq!(
        "    /// [String]: String::as_ref\n",
        check(line.into(), &mut ctx)
    );

    let line = "[`String`]: struct.String.html#method.as_ref\n";
    assert_eq!("[`String`]: String::as_ref\n", check(line.into(), &mut ctx));

    let line = "    [String]: struct.String.html#method.as_ref\n";
    assert_eq!(
        "    [String]: String::as_ref\n",
        check(line.into(), &mut ctx)
    );

    assert_eq!(std_ctx(), ctx);
}

#[test]
fn all_items_combination() {
    let mut ctx = std_ctx();

    for item in ITEM_TYPES {
        for added in ITEM_TYPES {
            let line = format!(
                "//! [`String`]: ../../std/string/{item}.String.html#{added}.as_ref\n",
                item = item,
                added = added
            );
            assert_eq!(
                "//! [`String`]: crate::string::String::as_ref\n",
                check(line, &mut ctx)
            );

            assert_eq!(std_ctx(), ctx);
        }
    }
}


#[test]
fn module_local_link_is_deleted() {
    let mut ctx = std_ctx();

    let line = "/// [`string`]: string/index.html\n";
    assert_eq!("", check(line.into(), &mut ctx));

    let line = "    /// [string]: string/index.html\n";
    assert_eq!("", check(line.into(), &mut ctx));

    let line = "[`string`]: string/index.html\n";
    assert_eq!("", check(line.into(), &mut ctx));

    let line = "    [string]: string/index.html\n";
    assert_eq!("", check(line.into(), &mut ctx));

    let line = "/// [`string`]: index.html\n";
    assert_eq!("", check(line.into(), &mut ctx));

    let line = "    /// [string]: index.html\n";
    assert_eq!("", check(line.into(), &mut ctx));

    let line = "[`string`]: index.html\n";
    assert_eq!("", check(line.into(), &mut ctx));

    let line = "    [string]: index.html\n";
    assert_eq!("", check(line.into(), &mut ctx));

    assert_eq!(std_ctx(), ctx);
}

#[test]
fn module_long_link_is_transformed() {
    let mut ctx = std_ctx();

    let line = "/// [`string`]: module/string/index.html\n";
    assert_eq!(
        "/// [`string`]: module::string\n",
        check(line.into(), &mut ctx)
    );

    let line = "    /// [string]: module/string/index.html\n";
    assert_eq!(
        "    /// [string]: module::string\n",
        check(line.into(), &mut ctx)
    );

    let line = "[`string`]: module/string/index.html\n";
    assert_eq!("[`string`]: module::string\n", check(line.into(), &mut ctx));

    let line = "    [string]: module/string/index.html\n";
    assert_eq!(
        "    [string]: module::string\n",
        check(line.into(), &mut ctx)
    );

    assert_eq!(std_ctx(), ctx);
}

#[test]
fn module_full_link_is_transformed_crate() {
    let mut ctx = std_ctx();

    let line = "/// [`string`]: std/string/index.html\n";
    assert_eq!(
        "/// [`string`]: crate::string\n",
        check(line.into(), &mut ctx)
    );

    let line = "    /// [string]: std/string/index.html\n";
    assert_eq!(
        "    /// [string]: crate::string\n",
        check(line.into(), &mut ctx)
    );

    let line = "[`string`]: std/string/index.html\n";
    assert_eq!("[`string`]: crate::string\n", check(line.into(), &mut ctx));

    let line = "    [string]: std/string/index.html\n";
    assert_eq!(
        "    [string]: crate::string\n",
        check(line.into(), &mut ctx)
    );

    assert_eq!(std_ctx(), ctx);
}

#[test]
fn module_full_link_is_transformed_crate_over_super() {
    let mut ctx = std_ctx();

    let line = "/// [`string`]: ../../std/string/index.html\n";
    assert_eq!(
        "/// [`string`]: crate::string\n",
        check(line.into(), &mut ctx)
    );

    let line = "    /// [string]: ../../std/string/index.html\n";
    assert_eq!(
        "    /// [string]: crate::string\n",
        check(line.into(), &mut ctx)
    );

    let line = "[`string`]: ../../std/string/index.html\n";
    assert_eq!("[`string`]: crate::string\n", check(line.into(), &mut ctx));

    let line = "    [string]: ../../std/string/index.html\n";
    assert_eq!(
        "    [string]: crate::string\n",
        check(line.into(), &mut ctx)
    );

    assert_eq!(std_ctx(), ctx);
}

#[test]
fn module_full_link_is_transformed_not_crate() {
    let mut ctx = core_ctx();

    let line = "/// [`string`]: std/string/index.html\n";
    assert_eq!(
        "/// [`string`]: std::string\n",
        check(line.into(), &mut ctx)
    );

    let line = "    /// [string]: std/string/index.html\n";
    assert_eq!(
        "    /// [string]: std::string\n",
        check(line.into(), &mut ctx)
    );

    let line = "[`string`]: std/string/index.html\n";
    assert_eq!("[`string`]: std::string\n", check(line.into(), &mut ctx));

    let line = "    [string]: std/string/index.html\n";
    assert_eq!("    [string]: std::string\n", check(line.into(), &mut ctx));

    assert_eq!(core_ctx(), ctx);
}

#[test]
fn module_full_link_is_transformed_super() {
    let mut ctx = std_ctx();

    let line = "/// [`string`]: ../../string/index.html\n";
    assert_eq!(
        "/// [`string`]: super::super::string\n",
        check(line.into(), &mut ctx)
    );

    let line = "    /// [string]: ../../string/index.html\n";
    assert_eq!(
        "    /// [string]: super::super::string\n",
        check(line.into(), &mut ctx)
    );

    let line = "[`string`]: ../../string/index.html\n";
    assert_eq!(
        "[`string`]: super::super::string\n",
        check(line.into(), &mut ctx)
    );

    let line = "    [string]: ../../string/index.html\n";
    assert_eq!(
        "    [string]: super::super::string\n",
        check(line.into(), &mut ctx)
    );

    assert_eq!(std_ctx(), ctx);
}

#[test]
fn section_is_kept() {
    let mut ctx = std_ctx();

    let line = "/// [`string`]: string/index.html#my-section\n";
    assert_eq!(
        "/// [`string`]: string#my-section\n",
        check(line.into(), &mut ctx)
    );

    let line = "    /// [string]: string/index.html#my-section\n";
    assert_eq!(
        "    /// [string]: string#my-section\n",
        check(line.into(), &mut ctx)
    );

    let line = "[`string`]: string/index.html#my-section\n";
    assert_eq!(
        "[`string`]: string#my-section\n",
        check(line.into(), &mut ctx)
    );

    let line = "    [string]: string/index.html#my-section\n";
    assert_eq!(
        "    [string]: string#my-section\n",
        check(line.into(), &mut ctx)
    );

    let line = "/// [`see my section`]: index.html#my-section\n";
    assert_eq!(
        "/// [`see my section`]: #my-section\n",
        check(line.into(), &mut ctx)
    );

    let line = "    /// [see my section]: index.html#my-section\n";
    assert_eq!(
        "    /// [see my section]: #my-section\n",
        check(line.into(), &mut ctx)
    );

    let line = "[`see my section`]: index.html#my-section\n";
    assert_eq!(
        "[`see my section`]: #my-section\n",
        check(line.into(), &mut ctx)
    );

    let line = "    [see my section]: index.html#my-section\n";
    assert_eq!(
        "    [see my section]: #my-section\n",
        check(line.into(), &mut ctx)
    );

    assert_eq!(std_ctx(), ctx);
}


#[test]
fn struct_blocks() {
    let mut ctx = std_ctx();

    let line = "struct A {}\n";
    assert_eq!(line, check(line.into(), &mut ctx));
    assert_eq!(ctx.curr_type_block, Some("A".into()));
    assert_eq!(ctx.end_type_block, "\n");

    let line = "struct A();\n";
    assert_eq!(line, check(line.into(), &mut ctx));
    assert_eq!(ctx.curr_type_block, Some("A".into()));
    assert_eq!(ctx.end_type_block, "\n");

    let line = "struct A { inner: String, }\n";
    assert_eq!(line, check(line.into(), &mut ctx));
    assert_eq!(ctx.curr_type_block, Some("A".into()));
    assert_eq!(ctx.end_type_block, "\n");

    let line = "struct A(usize);\n";
    assert_eq!(line, check(line.into(), &mut ctx));
    assert_eq!(ctx.curr_type_block, Some("A".into()));
    assert_eq!(ctx.end_type_block, "\n");

    let line = "struct A<'a, B=u8> where B: Trait + 'a {\n";
    assert_eq!(line, check(line.into(), &mut ctx));
    assert_eq!(ctx.curr_type_block, Some("A".into()));
    assert_eq!(ctx.end_type_block, "}");

    let line = "struct C<T=u8>(usize, (isize, T));\n";
    assert_eq!(line, check(line.into(), &mut ctx));
    assert_eq!(ctx.curr_type_block, Some("C".into()));
    assert_eq!(ctx.end_type_block, "\n");
}

#[test]
fn trait_blocks() {
    let mut ctx = std_ctx();

    let line = "trait A {}\n";
    assert_eq!(line, check(line.into(), &mut ctx));
    assert_eq!(ctx.curr_type_block, Some("A".into()));
    assert_eq!(ctx.end_type_block, "\n");

    let line = "trait A {\n";
    assert_eq!(line, check(line.into(), &mut ctx));
    assert_eq!(ctx.curr_type_block, Some("A".into()));
    assert_eq!(ctx.end_type_block, "}");

    let line = "trait A { type T: Into<String>, }\n";
    assert_eq!(line, check(line.into(), &mut ctx));
    assert_eq!(ctx.curr_type_block, Some("A".into()));
    assert_eq!(ctx.end_type_block, "\n");

    let line = "trait A<'a, B=u8> where B: Trait + 'a {\n";
    assert_eq!(line, check(line.into(), &mut ctx));
    assert_eq!(ctx.curr_type_block, Some("A".into()));
    assert_eq!(ctx.end_type_block, "}");
}

#[test]
fn enum_blocks() {
    let mut ctx = std_ctx();

    let line = "enum A {}\n";
    assert_eq!(line, check(line.into(), &mut ctx));
    assert_eq!(ctx.curr_type_block, Some("A".into()));
    assert_eq!(ctx.end_type_block, "\n");

    let line = "enum A {\n";
    assert_eq!(line, check(line.into(), &mut ctx));
    assert_eq!(ctx.curr_type_block, Some("A".into()));
    assert_eq!(ctx.end_type_block, "}");

    let line = "enum A { Variant1, Variant2 }\n";
    assert_eq!(line, check(line.into(), &mut ctx));
    assert_eq!(ctx.curr_type_block, Some("A".into()));
    assert_eq!(ctx.end_type_block, "\n");

    let line = "enum A<'a, B=u8> where B: Trait + 'a {\n";
    assert_eq!(line, check(line.into(), &mut ctx));
    assert_eq!(ctx.curr_type_block, Some("A".into()));
    assert_eq!(ctx.end_type_block, "}");
}

#[test]
fn union_blocks() {
    let mut ctx = std_ctx();

    let line = "union A {}\n";
    assert_eq!(line, check(line.into(), &mut ctx));
    assert_eq!(ctx.curr_type_block, Some("A".into()));
    assert_eq!(ctx.end_type_block, "\n");

    let line = "union A {\n";
    assert_eq!(line, check(line.into(), &mut ctx));
    assert_eq!(ctx.curr_type_block, Some("A".into()));
    assert_eq!(ctx.end_type_block, "}");

    let line = "union A { f: f64, u: u64 }\n";
    assert_eq!(line, check(line.into(), &mut ctx));
    assert_eq!(ctx.curr_type_block, Some("A".into()));
    assert_eq!(ctx.end_type_block, "\n");

    let line = "union A<'a, B=u8> where B: Trait + 'a {\n";
    assert_eq!(line, check(line.into(), &mut ctx));
    assert_eq!(ctx.curr_type_block, Some("A".into()));
    assert_eq!(ctx.end_type_block, "}");
}

#[test]
fn impl_blocks() {
    let mut ctx = std_ctx();

    let line = "impl Trait for A {}\n";
    assert_eq!(line, check(line.into(), &mut ctx));
    assert_eq!(ctx.curr_type_block, Some("A".into()));
    assert_eq!(ctx.end_type_block, "\n");

    let line = "impl A {\n";
    assert_eq!(line, check(line.into(), &mut ctx));
    assert_eq!(ctx.curr_type_block, Some("A".into()));
    assert_eq!(ctx.end_type_block, "}");

    let line = "impl <T> Toto for A<T> {\n";
    assert_eq!(line, check(line.into(), &mut ctx));
    assert_eq!(ctx.curr_type_block, Some("A".into()));
    assert_eq!(ctx.end_type_block, "}");

    let line = "impl Trait for A { type B = String }\n";
    assert_eq!(line, check(line.into(), &mut ctx));
    assert_eq!(ctx.curr_type_block, Some("A".into()));
    assert_eq!(ctx.end_type_block, "\n");

    let line = "impl<'a: 'static, B> Trait for A where B: Toto + 'a {\n";
    assert_eq!(line, check(line.into(), &mut ctx));
    assert_eq!(ctx.curr_type_block, Some("A".into()));
    assert_eq!(ctx.end_type_block, "}");

    let line = "impl<'a, 'b, B: Trait<IntoIterator<Item=String>>> Toto for A where B: Toto + 'a, 'b: 'a, I: A<I> {\n";
    assert_eq!(line, check(line.into(), &mut ctx));
    assert_eq!(ctx.curr_type_block, Some("A".into()));
    assert_eq!(ctx.end_type_block, "}");
}

#[test]
fn visibility_modifiers_are_handled() {
    let mut ctx = std_ctx();

    let line = "pub struct A {}\n";
    assert_eq!(line, check(line.into(), &mut ctx));
    assert_eq!(ctx.curr_type_block, Some("A".into()));
    assert_eq!(ctx.end_type_block, "\n");

    let line = "pub(crate) struct A();\n";
    assert_eq!(line, check(line.into(), &mut ctx));
    assert_eq!(ctx.curr_type_block, Some("A".into()));
    assert_eq!(ctx.end_type_block, "\n");

    let line = "pub(super) struct A { inner: String, }\n";
    assert_eq!(line, check(line.into(), &mut ctx));
    assert_eq!(ctx.curr_type_block, Some("A".into()));
    assert_eq!(ctx.end_type_block, "\n");

    let line = "pub(self) struct A(usize);\n";
    assert_eq!(line, check(line.into(), &mut ctx));
    assert_eq!(ctx.curr_type_block, Some("A".into()));
    assert_eq!(ctx.end_type_block, "\n");

    let line = "pub(crate::module) struct A<'a, B=u8> where B: Trait + 'a {\n";
    assert_eq!(line, check(line.into(), &mut ctx));
    assert_eq!(ctx.curr_type_block, Some("A".into()));
    assert_eq!(ctx.end_type_block, "}");

    let line = "pub(mod1::mod2) struct C<T=u8>(usize, (isize, T));\n";
    assert_eq!(line, check(line.into(), &mut ctx));
    assert_eq!(ctx.curr_type_block, Some("C".into()));
    assert_eq!(ctx.end_type_block, "\n");
}

#[test]
fn indentation_is_remembered() {
    let mut ctx = std_ctx();

    let line = "    struct A {}\n";
    assert_eq!(line, check(line.into(), &mut ctx));
    assert_eq!(ctx.curr_type_block, Some("A".into()));
    assert_eq!(ctx.end_type_block, "\n");

    let line = "  struct A();\n";
    assert_eq!(line, check(line.into(), &mut ctx));
    assert_eq!(ctx.curr_type_block, Some("A".into()));
    assert_eq!(ctx.end_type_block, "\n");

    let line = "   struct A { inner: String, }\n";
    assert_eq!(line, check(line.into(), &mut ctx));
    assert_eq!(ctx.curr_type_block, Some("A".into()));
    assert_eq!(ctx.end_type_block, "\n");

    let line = " struct A(usize);\n";
    assert_eq!(line, check(line.into(), &mut ctx));
    assert_eq!(ctx.curr_type_block, Some("A".into()));
    assert_eq!(ctx.end_type_block, "\n");

    let line = "  struct A<'a, B=u8> where B: Trait + 'a {\n";
    assert_eq!(line, check(line.into(), &mut ctx));
    assert_eq!(ctx.curr_type_block, Some("A".into()));
    assert_eq!(ctx.end_type_block, "  }");

    let line = "  struct A<'a, B=u8> where B: Trait + 'a {\n";
    assert_eq!(line, check(line.into(), &mut ctx));
    assert_eq!(ctx.curr_type_block, Some("A".into()));
    assert_eq!(ctx.end_type_block, "  }");

    let line = "    struct A<'a, B=u8> where B: Trait + 'a {\n";
    assert_eq!(line, check(line.into(), &mut ctx));
    assert_eq!(ctx.curr_type_block, Some("A".into()));
    assert_eq!(ctx.end_type_block, "    }");
}

#[test]
fn end_set_block_to_none() {
    let mut ctx = std_ctx();
    ctx.curr_type_block = Some("String".into());
    ctx.end_type_block = '\n'.into();

    let line = "\n";
    assert_eq!(line, check(line.into(), &mut ctx));
    assert_eq!(ctx.curr_type_block, None);
    assert_eq!(ctx.end_type_block, "");

    ctx.curr_type_block = Some("String".into());
    ctx.end_type_block = "    }".into();
    let line = "\n";
    assert_eq!(line, check(line.into(), &mut ctx));
    assert_eq!(ctx.curr_type_block, Some("String".into()));
    assert_eq!(ctx.end_type_block, "    }");

    let line = "    }";
    assert_eq!(line, check(line.into(), &mut ctx));
    assert_eq!(ctx.curr_type_block, None);
    assert_eq!(ctx.end_type_block, "");

    ctx.curr_type_block = Some("String".into());
    ctx.end_type_block = "  )".into();

    let line = "  )";
    assert_eq!(line, check(line.into(), &mut ctx));
    assert_eq!(ctx.curr_type_block, None);
    assert_eq!(ctx.end_type_block, "");
}

#[test]
fn method_anchor_when_type_is_none() {
    let mut ctx = std_ctx();
    ctx.curr_type_block = None;
    ctx.end_type_block = "".into();

    for &item in ITEM_TYPES {
        let line = format!("/// [`link name`]: #{}.as_ref", item);
        assert_eq!(line.clone(), check(line, &mut ctx));

        let line = format!("    //! [link name]: #{}.as_ref", item);
        assert_eq!(line.clone(), check(line, &mut ctx));

        let line = format!("[`link name`]: #{}.as_ref", item);
        assert_eq!(line.clone(), check(line, &mut ctx));

        let line = format!("    [link name]: #{}.as_ref", item);
        assert_eq!(line.clone(), check(line, &mut ctx));
    }
}

#[test]
fn method_anchor_when_type_is_some() {
    let mut ctx = std_ctx();
    let ty = "String";
    ctx.curr_type_block = Some(ty.into());
    ctx.end_type_block = '\n'.into();

    for &item in ITEM_TYPES {
        let line = format!("/// [`link name`]: #{}.as_ref\n", item);
        let expected = format!("/// [`link name`]: {}::as_ref\n", ty);
        assert_eq!(expected, check(line, &mut ctx));

        let line = format!("    //! [link name]: #{}.as_ref\n", item);
        let expected = format!("    //! [link name]: {}::as_ref\n", ty);
        assert_eq!(expected, check(line, &mut ctx));

        let line = format!("[`link name`]: #{}.as_ref\n", item);
        let expected = format!("[`link name`]: {}::as_ref\n", ty);
        assert_eq!(expected, check(line, &mut ctx));

        let line = format!("    [link name]: #{}.as_ref\n", item);
        let expected = format!("    [link name]: {}::as_ref\n", ty);
        assert_eq!(expected, check(line, &mut ctx));
    }
}

