use cargo_intraconv::link_analyser::link::{
    AssociatedItem, Disambiguator, Link, LinkEnd, LinkParts, LinkStart,
};
use cargo_intraconv::link_analyser::link::Disambiguator::{End, Start};
use cargo_intraconv::link_analyser::Parts;

const ALL_ITEM_TYPES: &[&str] = &[
    "associatedconstant", "associatedtype", "attr", "constant", "derive", "enum", "externcrate",
    "fn", "foreigntype", "impl", "import", "keyword", "macro", "method", "mod", "opaque",
    "primitive", "static", "struct", "structfield", "trait", "traitalias", "tymethod", "type",
    "union", "variant",
];

#[test]
fn parts_from_line_ok() {
        fn helper(line: &str, header: &str, link: &str) {
            assert_eq!(
                Parts::from_line(line).unwrap(),
                Parts { header: header.into(), link: link.into() }
            );
        }

        // Testing spacing.
        helper("[name]:mod1\n", "[name]:", "mod1");
        helper("[name]: mod1\n", "[name]: ", "mod1");
        helper("[name]:  mod1\n", "[name]:  ", "mod1");
        helper("[name]:\tmod1\n", "[name]:\t", "mod1");
        helper("  [name]: mod1\n", "  [name]: ", "mod1");
        helper("\t[name]: mod1\n", "\t[name]: ", "mod1");
        helper("/// [name]: mod1\n", "/// [name]: ", "mod1");
        helper("///  [name]: mod1\n", "///  [name]: ", "mod1");
        helper("///\t[name]: mod1\n", "///\t[name]: ", "mod1");
        helper(" /// [name]: mod1\n", " /// [name]: ", "mod1");
        helper("  /// [name]: mod1\n", "  /// [name]: ", "mod1");
        helper("\t/// [name]: mod1\n", "\t/// [name]: ", "mod1");

        // Testing bangs.
        helper("/// [name]: mod1\n", "/// [name]: ", "mod1");
        helper("//! [name]: mod1\n", "//! [name]: ", "mod1");

        // Testing code in links.
        helper("[`name`]: mod1\n", "[`name`]: ", "mod1");

        // Testing non-HTTP links
        helper("[name]: mod1/\n", "[name]: ", "mod1/");
        helper("[name]: mod1/mod2\n", "[name]: ", "mod1/mod2");
        helper(
            "[name]: mod1/mod2/struct.Type.html\n",
            "[name]: ",
            "mod1/mod2/struct.Type.html",
        );
        helper(
            "[name]: mod1/mod2/struct.Type.html#const.NAME\n",
            "[name]: ",
            "mod1/mod2/struct.Type.html#const.NAME",
        );
        helper(
            "[name]: mod1/mod2/#section\n",
            "[name]: ",
            "mod1/mod2/#section",
        );
        helper(
            "[name]: mod1/mod2#section\n",
            "[name]: ",
            "mod1/mod2#section",
        );
        helper(
            "[name]: mod1/mod2/index.html#section\n",
            "[name]: ",
            "mod1/mod2/index.html#section",
        );
        helper(
            "[name]: mod1/mod2/index.html/#section\n",
            "[name]: ",
            "mod1/mod2/index.html/#section",
        );
        helper("[name]: ../mod1/mod2\n", "[name]: ", "../mod1/mod2");
        helper("[name]: ./../mod1\n", "[name]: ", "./../mod1");

        // Testing HTTP links
        helper(
            "[name]: https://docs.rs/regex/\n",
            "[name]: ",
            "https://docs.rs/regex/",
        );
        helper(
            "[name]: https://docs.rs/regex/1.0.33/regex/mod1/mod2\n",
            "[name]: ",
            "https://docs.rs/regex/1.0.33/regex/mod1/mod2",
        );
        helper(
            "[name]: https://github.com/poliorcetics/cargo-intraconv/issues/21\n",
            "[name]: ",
            "https://github.com/poliorcetics/cargo-intraconv/issues/21",
        );

        // Testing all sorts of characters in the link name.
        helper("[azertyuiop]: mod1\n", "[azertyuiop]: ", "mod1");
        helper("[AZERTYUIOP]: mod1\n", "[AZERTYUIOP]: ", "mod1");
        helper("[@&é\"'(§è!çà)-]: mod1\n", "[@&é\"'(§è!çà)-]: ", "mod1");
        helper("[#1234567890°_]: mod1\n", "[#1234567890°_]: ", "mod1");
        helper("[•ë“‘{¶«¡Çø}—]: mod1\n", "[•ë“‘{¶«¡Çø}—]: ", "mod1");
        helper("[Ÿ´„”’[å»ÛÁØ]–]: mod1\n", "[Ÿ´„”’[å»ÛÁØ]–]: ", "mod1");
        helper("[æÂê®†Úºîœπ]: mod1\n", "[æÂê®†Úºîœπ]: ", "mod1");
        helper("[ÆÅÊ‚™ŸªïŒ∏]: mod1\n", "[ÆÅÊ‚™ŸªïŒ∏]: ", "mod1");
        helper("[‡Ò∂ƒﬁÌÏÈ¬µ]: mod1\n", "[‡Ò∂ƒﬁÌÏÈ¬µ]: ", "mod1");
        helper("[Ω∑∆·ﬂÎÍË|Ó]: mod1\n", "[Ω∑∆·ﬂÎÍË|Ó]: ", "mod1");
        helper("[‹≈©◊ß~]: mod1\n", "[‹≈©◊ß~]: ", "mod1");
        helper("[›⁄¢√∫ı]: mod1\n", "[›⁄¢√∫ı]: ", "mod1");
        helper("[^$ù`,;:=<]: mod1\n", "[^$ù`,;:=<]: ", "mod1");
        helper("[¨*%£?./+>]: mod1\n", "[¨*%£?./+>]: ", "mod1");
        helper("[ô€Ù@∞…÷≠≤]: mod1\n", "[ô€Ù@∞…÷≠≤]: ", "mod1");
        helper("[Ô¥‰#¿•\\±≥]: mod1\n", "[Ô¥‰#¿•\\±≥]: ", "mod1");
}

#[test]
fn from_path() {
    assert_eq!(Link::from("test").0, "test");
    assert_ne!(Link::from("test").0, "not/test");

    assert_eq!(Link::from("mod1/mod2").0, "mod1/mod2");
    assert_ne!(Link::from("mod1/mod2").0, "mod2/mod1");
}

#[test]
fn is_http() {
    let link = Link("http/docs.rs".into());
    assert!(!link.is_http());

    let link = Link("http//docs.rs".into());
    assert!(!link.is_http());

    let link = Link("http://docs.rs".into());
    assert!(link.is_http());

    let link = Link("http://example.com".into());
    assert!(link.is_http());

    let link = Link("https://example.com".into());
    assert!(link.is_http());

    let link = Link("https://example.com/sub1/sub2/elem.html#section".into());
    assert!(link.is_http());
}

#[test]
fn is_favored() {
    // None.
    let link = Link("https://example.com".into());
    assert!(!link.is_favored());

    // doc.rs
    let link = Link("https://docs.rs".into());
    assert!(!link.is_favored());

    let link = Link("https://docs.rs/regex/".into());
    assert!(link.is_favored());

    let link = Link("https://docs.rs/regex/1.4.2".into());
    assert!(link.is_favored());

    let link = Link("https://docs.rs/regex/1.4.2/regex".into());
    assert!(link.is_favored());

    let link = Link("https://docs.rs/regex/1.4.2/regex/struct.Regex.html".into());
    assert!(link.is_favored());

    let link = Link("https://docs.rs/regex/1.4.2/regex/struct.Regex.html#examples".into());
    assert!(link.is_favored());

    // doc.rust-lang.org
    let link = Link("https://doc.rust-lang.org/".into());
    assert!(!link.is_favored());

    let link = Link("https://doc.rust-lang.org/other".into());
    assert!(!link.is_favored());

    let link = Link("https://doc.rust-lang.org/nightly".into());
    assert!(!link.is_favored());

    let link = Link("https://doc.rust-lang.org/beta".into());
    assert!(!link.is_favored());

    let link = Link("https://doc.rust-lang.org/stable".into());
    assert!(!link.is_favored());

    let link = Link("https://doc.rust-lang.org/1.42.0".into());
    assert!(!link.is_favored());

    let link = Link("https://doc.rust-lang.org/nightly/nightly-rustc".into());
    assert!(!link.is_favored());

    let link = Link("https://doc.rust-lang.org/nightly/std".into());
    assert!(link.is_favored());

    let link = Link("https://doc.rust-lang.org/nightly/alloc".into());
    assert!(link.is_favored());

    let link = Link("https://doc.rust-lang.org/nightly/core".into());
    assert!(link.is_favored());

    let link = Link("https://doc.rust-lang.org/nightly/test".into());
    assert!(link.is_favored());

    let link = Link("https://doc.rust-lang.org/nightly/proc_macro".into());
    assert!(link.is_favored());

    let link = Link("https://doc.rust-lang.org/nightly/std/string/index.html".into());
    assert!(link.is_favored());

    let link = Link("https://doc.rust-lang.org/nightly/std/string/struct.String.html".into());
    assert!(link.is_favored());

    let link = Link("https://doc.rust-lang.org/nightly/std/string/struct.String.html#examples".into());
    assert!(link.is_favored());

    let link = Link("https://doc.rust-lang.org/nightly/std/string/struct.String.html#method.drain".into());
    assert!(link.is_favored());
}

#[test]
fn associated_item_parts() {
    let mut assoc_item = String::with_capacity(40);

    for &item in ALL_ITEM_TYPES {
        assoc_item.clear();
        assoc_item.push('#');
        assoc_item.push_str(item);
        assoc_item.push_str(".Item");

        assert_eq!(
            Link(assoc_item.clone()).associated_item_parts(),
            Some(LinkParts {
                start: LinkStart::Local,
                modules: None,
                end: LinkEnd::Assoc(AssociatedItem {
                    dis: Disambiguator::from(item),
                    name: String::from("Item")
                }),
            })
        );
    }

    assert_eq!(
        Link("./#struct.Item".into()).associated_item_parts(),
        Some(LinkParts {
            start: LinkStart::Local,
            modules: None,
            end: LinkEnd::Assoc(AssociatedItem {
                dis: Disambiguator::from("struct"),
                name: String::from("Item")
            }),
        })
    );
    assert_eq!(
        Link("././#struct.Item".into()).associated_item_parts(),
        Some(LinkParts {
            start: LinkStart::Local,
            modules: None,
            end: LinkEnd::Assoc(AssociatedItem {
                dis: Disambiguator::from("struct"),
                name: String::from("Item")
            }),
        })
    );

    assert_eq!(Link("struct.Item".into()).associated_item_parts(), None);
    assert_eq!(
        Link(".#struct.Item".into()).associated_item_parts(),
        None
    );
    assert_eq!(
        Link("#struct.Item.html".into()).associated_item_parts(),
        None
    );
    assert_eq!(
        Link("../#struct.Item.html".into()).associated_item_parts(),
        None
    );
    assert_eq!(
        Link("#struct.Item/rest".into()).associated_item_parts(),
        None
    );
    assert_eq!(
        Link("#struct.0Item".into()).associated_item_parts(),
        None
    );
}

#[test]
fn section_parts() {
    assert_eq!(Link("#struct.Item".into()).section_parts(), None);
    assert_eq!(Link("./#struct.Item".into()).section_parts(), None);
    assert_eq!(Link("././#struct.Item".into()).section_parts(), None);

    assert_eq!(Link("../#section".into()).section_parts(), None);
    assert_eq!(Link("#section/rest".into()).section_parts(), None);

    assert_eq!(
        Link("#section-a".into()).section_parts(),
        Some(LinkParts {
            start: LinkStart::Local,
            modules: None,
            end: LinkEnd::Section {
                name: "section-a".into()
            },
        })
    );
    assert_eq!(
        Link("#section-1".into()).section_parts(),
        Some(LinkParts {
            start: LinkStart::Local,
            modules: None,
            end: LinkEnd::Section {
                name: "section-1".into()
            },
        })
    );
    assert_eq!(
        Link("#section-A".into()).section_parts(),
        Some(LinkParts {
            start: LinkStart::Local,
            modules: None,
            end: LinkEnd::Section {
                name: "section-A".into()
            },
        })
    );
    assert_eq!(
        Link("#section_a".into()).section_parts(),
        Some(LinkParts {
            start: LinkStart::Local,
            modules: None,
            end: LinkEnd::Section {
                name: "section_a".into()
            },
        })
    );
    assert_eq!(
        Link("#section.a".into()).section_parts(),
        Some(LinkParts {
            start: LinkStart::Local,
            modules: None,
            end: LinkEnd::Section {
                name: "section.a".into()
            },
        })
    );
    assert_eq!(
        Link("#Section.a".into()).section_parts(),
        Some(LinkParts {
            start: LinkStart::Local,
            modules: None,
            end: LinkEnd::Section {
                name: "Section.a".into()
            },
        })
    );
    assert_eq!(
        Link("#rection.a".into()).section_parts(),
        Some(LinkParts {
            start: LinkStart::Local,
            modules: None,
            end: LinkEnd::Section {
                name: "rection.a".into()
            },
        })
    );
    assert_eq!(
        Link("#0ection.a".into()).section_parts(),
        Some(LinkParts {
            start: LinkStart::Local,
            modules: None,
            end: LinkEnd::Section {
                name: "0ection.a".into()
            },
        })
    );
    assert_eq!(
        Link("#_ection.a".into()).section_parts(),
        Some(LinkParts {
            start: LinkStart::Local,
            modules: None,
            end: LinkEnd::Section {
                name: "_ection.a".into()
            },
        })
    );
}

#[test]
fn is_item() {
    let mut rust_item = String::with_capacity(40);

    for item in ALL_ITEM_TYPES {
        rust_item.clear();
        rust_item.push_str(item);
        rust_item.push_str(".Type.html");
        assert!(Link(rust_item.clone()).is_item());

        rust_item.clear();
        rust_item.push_str(item);
        rust_item.push_str(".Type.html#method.call");
        assert!(Link(rust_item.clone()).is_item());

        rust_item.clear();
        rust_item.push_str(item);
        rust_item.push_str(".Type.html#section-name");
        assert!(Link(rust_item.clone()).is_item());

        rust_item.clear();
        rust_item.push_str("./");
        rust_item.push_str(item);
        rust_item.push_str(".Type.html");
        assert!(Link(rust_item.clone()).is_item());

        rust_item.clear();
        rust_item.push_str("../");
        rust_item.push_str(item);
        rust_item.push_str(".Type.html");
        assert!(Link(rust_item.clone()).is_item());

        rust_item.clear();
        rust_item.push_str("../mod1/mod2/");
        rust_item.push_str(item);
        rust_item.push_str(".Type.html");
        assert!(Link(rust_item.clone()).is_item());
    }

    assert!(!Link("#section".into()).is_item());
    assert!(!Link("#fn.associated_item".into()).is_item());
    assert!(!Link("https://docs.rs/regex".into()).is_item());
    assert!(!Link("http://example.com".into()).is_item());
    assert!(!Link("mod1".into()).is_item());
    assert!(!Link("../mod1/mod2/index.html#section".into()).is_item());
}

#[test]
fn is_module() {
    assert!(Link("mod1".into()).is_module());
    assert!(Link("mod1#section".into()).is_module());
    assert!(Link("index.html".into()).is_module());
    assert!(Link("index.html#section".into()).is_module());
    assert!(Link("mod1/mod2".into()).is_module());
    assert!(Link("./mod1/mod2".into()).is_module());
    assert!(Link("../mod1/mod2".into()).is_module());
    assert!(Link("../mod1/mod2#section".into()).is_module());
    assert!(Link("../mod1/mod2/index.html".into()).is_module());
    assert!(Link("../mod1/mod2/index.html#section".into()).is_module());

    assert!(!Link("#section".into()).is_module());
    assert!(!Link("#fn.associated_item".into()).is_module());
    assert!(!Link("struct.Type.html#fn.associated_item".into()).is_module());
    assert!(!Link("struct.Type.html#section".into()).is_module());
    assert!(!Link("https://docs.rs/regex/latest/regex/index.html".into()).is_module());
    assert!(!Link("http://example.com".into()).is_module());
}

#[test]
fn link_disambiguate_from() {
    assert_eq!(Start("type@"), Disambiguator::from("struct"));
    assert_eq!(Start("type@"), Disambiguator::from("enum"));
    assert_eq!(Start("type@"), Disambiguator::from("trait"));
    assert_eq!(Start("type@"), Disambiguator::from("union"));
    assert_eq!(Start("type@"), Disambiguator::from("type"));

    assert_eq!(Start("value@"), Disambiguator::from("const"));
    assert_eq!(Start("value@"), Disambiguator::from("static"));
    assert_eq!(Start("value@"), Disambiguator::from("value"));

    assert_eq!(Start("macro@"), Disambiguator::from("derive"));
    assert_eq!(Start("macro@"), Disambiguator::from("attr"));

    assert_eq!(Start("prim@"), Disambiguator::from("primitive"));

    assert_eq!(Start("mod@"), Disambiguator::from("mod"));

    assert_eq!(End("()"), Disambiguator::from("fn"));
    assert_eq!(End("()"), Disambiguator::from("method"));

    assert_eq!(End("!"), Disambiguator::from("macro"));

    assert_eq!(Disambiguator::Empty, Disambiguator::from("other"));
    assert_eq!(Disambiguator::Empty, Disambiguator::from("soomething else"));
}

#[test]
fn link_link_parts_dis() {
    let mut lp = LinkParts {
        start: LinkStart::Local,
        modules: None,
        end: LinkEnd::Section {
            name: "name".into(),
        },
    };
    assert_eq!(lp.dis(), Disambiguator::Start("mod@"));

    lp.end = LinkEnd::Module {
        name: "name".into(),
    };
    assert_eq!(lp.dis(), Disambiguator::Start("mod@"));

    lp.end = LinkEnd::Assoc(AssociatedItem {
        dis: Disambiguator::from("fn"),
        name: "name".into(),
    });
    assert_eq!(lp.dis(), Disambiguator::End("()"));

    lp.end = LinkEnd::Item {
        dis: Disambiguator::from("struct"),
        name: "name".into(),
        assoc: None,
    };
    assert_eq!(lp.dis(), Disambiguator::Start("type@"));

    lp.end = LinkEnd::Item {
        dis: Disambiguator::from("struct"),
        name: "name".into(),
        assoc: Some(AssociatedItem {
            dis: Disambiguator::from("fn"),
            name: "name_2".into(),
        }),
    };
    assert_eq!(lp.dis(), Disambiguator::End("()"));
}

