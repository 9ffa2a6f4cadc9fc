use cargo_intraconv::updater::{comment_link, Action, Context, ItemCaptures, Line, Process};

#[test]
fn updater_new() {
    // The context of a pass.
    let ctx = Context::new("core".into());
    assert_eq!(ctx.krate, "core");
    assert_eq!(ctx.prev_line, None);
    assert_eq!(ctx.curr_impl, None);
    assert_eq!(ctx.end_impl, "");

    // The pass itself.
    let ps = Process::new(vec!["line".into()], "core".into());
    assert!(ps.treated.is_empty());
    assert!(ps.pending.is_empty());
    assert_eq!(ps.incoming, ["line".to_string()]);
    assert_eq!(ps.ctx, Context::new("core".into()));

    let ps = Process::new(Vec::new(), "core".into());
    assert!(ps.treated.is_empty());
    assert!(ps.pending.is_empty());
    assert!(ps.incoming.is_empty());
    assert_eq!(ps.ctx, Context::new("core".into()));
}

#[test]
fn treated() {
    let action = Action::Deleted { line: "Line".into(), reason: "remove things", pos: 1 };

    assert_eq!(
        Line::treated(action.clone()),
        Line { action, treatment_is_pending: false }
    )
}

#[test]
fn pending() {
    let action = Action::Deleted { line: "Line".into(), reason: "remove things", pos: 1 };

    assert_eq!(
        Line::pending(action.clone()),
        Line { action, treatment_is_pending: true }
    )
}

#[test]
fn process_empty_lines() {
    let mut ps = Process::new(Vec::new(), "core".into());

    assert_eq!(ps.process_next_line(), None);

    assert!(ps.treated.is_empty());
    assert!(ps.pending.is_empty());
    assert!(ps.incoming.is_empty());
    assert_eq!(ps.ctx, Context::new("core".into()));
}

#[test]
fn process_empty_doc_comment() {
    let mut ps = Process::new(vec!["///\n".into()], "core".into());

    ps.treated = vec![Line::treated(Action::Unchanged { line: "///\n".into() })];
    ps.ctx.prev_line = Some("///\n".into());

    assert_eq!(ps.process_next_line(), Some(()));

    assert_eq!(
        ps.treated,
        [
            Line::treated(Action::Unchanged { line: "///\n".into() }),
            Line::treated(Action::Deleted {
                line: "///\n".into(),
                reason: "Consecutives empty lines",
                pos: 1,
            })
        ]
    );
    assert!(ps.pending.is_empty());
    assert!(ps.incoming.is_empty());
    assert_eq!(ps.ctx, Context::new("core".into()));
}

#[test]
fn process_empty_doc_comment_at_end_of_block() {
    let mut ps = Process::new(vec!["///\n".into(), "some text\n".into()], "core".into());

    assert_eq!(ps.process_next_line(), Some(()));
    assert_eq!(ps.process_next_line(), Some(()));

    assert_eq!(
        ps.treated,
        [Line::treated(Action::Deleted {
            line: "///\n".into(),
            reason: "Empty comment line at the end of a comment",
            pos: 1,
        })]
    );
    assert!(ps.pending.is_empty());
    assert!(ps.incoming.is_empty());
    assert_eq!(ps.ctx, Context::new("core".into()));
}

#[test]
fn process_keeps_other_lines() {
    let mut ps = Process::new(
        vec!["/// text\n".into(), "///\n".into(), "/// more\n".into()],
        "core".into(),
    );
    while ps.process_next_line().is_some() {}
    assert_eq!(
        ps.treated,
        [
            Line::treated(Action::Unchanged { line: "/// text\n".into() }),
            Line::treated(Action::Unchanged { line: "///\n".into() }),
            Line::treated(Action::Unchanged { line: "/// more\n".into() }),
        ]
    );
    assert_eq!(ps.read, 3);
    assert_eq!(ps.ctx.prev_line, Some("/// more\n".to_string()));
}

/// The parts of a link to an item page, split as the item-link grammar
/// splits it: `^(\s*(?://[!/] )?\[.*?\]: )((?:\.\./)*)(?:(ident)/)?((?:.*/))?(?:kind)\.(.*)\.html(?:#(?:kind)\.(\S*))?\n$`.
fn item_captures(line: &str) -> ItemCaptures {
    let end = line.find("]: ").unwrap() + 3;
    let link_name = line[..end].to_string();
    let mut rest = line[end..].trim_end_matches('\n');
    let mut supers = String::new();
    while rest.starts_with("../") {
        supers.push_str("../");
        rest = &rest[3..];
    }
    let mut root = None;
    if let Some(slash) = rest.find('/') {
        let first = &rest[..slash];
        let ident = !first.is_empty()
            && first.chars().next().map_or(false, |c| c.is_ascii_alphabetic() || c == '_')
            && first.chars().all(|c| c.is_ascii_alphanumeric() || c == '_');
        if ident {
            root = Some(first.to_string());
            rest = &rest[slash + 1..];
        }
    }
    let mut intermediates = None;
    if let Some(slash) = rest.rfind('/') {
        intermediates = Some(rest[..slash + 1].to_string());
        rest = &rest[slash + 1..];
    }
    let (page, additional) = match rest.find('#') {
        Some(h) => {
            let anchor = &rest[h + 1..];
            let dot = anchor.find('.').unwrap();
            (&rest[..h], Some(anchor[dot + 1..].to_string()))
        }
        None => (rest, None),
    };
    let dot = page.find('.').unwrap();
    let elem2 = page[dot + 1..page.len() - ".html".len()].to_string();
    ItemCaptures {
        whole: line.to_string(),
        link_name,
        root,
        supers: Some(supers),
        intermediates,
        elem2,
        additional,
    }
}

#[test]
fn test_comment_link_different_crate() {
    let krate = "other";

    let lines = [
        // Replaced links
        "/// [`Write`]: ../../std/io/trait.Write.html\n",
        "/// [`TcpStream`]: ../../std/net/struct.TcpStream.html\n",
        "/// [`TcpStream::write`]: ../../std/net/struct.TcpStream.html#method.write\n",
        "/// [`SocketAddr`]: ../../std/net/enum.SocketAddr.html\n",
        "[`Write`]: ../../std/io/trait.Write.html\n",
        "[`TcpStream`]: ../../std/net/struct.TcpStream.html\n",
        "[`TcpStream::write`]: ../../std/net/struct.TcpStream.html#method.write\n",
        "[`SocketAddr`]: ../../std/net/enum.SocketAddr.html\n",
        // Deleted links
        "/// [`IpAddr`]: enum.IpAddr.html\n",
        "/// [`IpAddr::method_1`]: enum.IpAddr.html#method.method_1\n",
        "[`IpAddr`]: enum.IpAddr.html\n",
        "[`IpAddr::method_1`]: enum.IpAddr.html#method.method_1\n",
        // Unchanged links
        "/// [Arc direct link]: https://doc.rust-lang.org/stable/std/sync/struct.Arc.html\n",
        "[Arc direct link]: https://doc.rust-lang.org/stable/std/sync/struct.Arc.html\n",
    ];

    let res = [
        // Replaced links
        Line::treated(Action::Replaced {
            line: "/// [`Write`]: ../../std/io/trait.Write.html\n".into(),
            new: "/// [`Write`]: std::io::Write".into(),
            pos: 1,
        }),
        Line::treated(Action::Replaced {
            line: "/// [`TcpStream`]: ../../std/net/struct.TcpStream.html\n".into(),
            new: "/// [`TcpStream`]: std::net::TcpStream".into(),
            pos: 2,
        }),
        Line::treated(Action::Replaced {
            line: "/// [`TcpStream::write`]: ../../std/net/struct.TcpStream.html#method.write\n".into(),
            new: "/// [`TcpStream::write`]: std::net::TcpStream::write".into(),
            pos: 3,
        }),
        Line::treated(Action::Replaced {
            line: "/// [`SocketAddr`]: ../../std/net/enum.SocketAddr.html\n".into(),
            new: "/// [`SocketAddr`]: std::net::SocketAddr".into(),
            pos: 4,
        }),
        Line::treated(Action::Replaced {
            line: "[`Write`]: ../../std/io/trait.Write.html\n".into(),
            new: "[`Write`]: std::io::Write".into(),
            pos: 5,
        }),
        Line::treated(Action::Replaced {
            line: "[`TcpStream`]: ../../std/net/struct.TcpStream.html\n".into(),
            new: "[`TcpStream`]: std::net::TcpStream".into(),
            pos: 6,
        }),
        Line::treated(Action::Replaced {
            line: "[`TcpStream::write`]: ../../std/net/struct.TcpStream.html#method.write\n".into(),
            new: "[`TcpStream::write`]: std::net::TcpStream::write".into(),
            pos: 7,
        }),
        Line::treated(Action::Replaced {
            line: "[`SocketAddr`]: ../../std/net/enum.SocketAddr.html\n".into(),
            new: "[`SocketAddr`]: std::net::SocketAddr".into(),
            pos: 8,
        }),
        // Deleted links
        Line::treated(Action::Deleted {
            line: "/// [`IpAddr`]: enum.IpAddr.html\n".into(),
            reason: "Local path",
            pos: 9,
        }),
        Line::treated(Action::Deleted {
            line: "/// [`IpAddr::method_1`]: enum.IpAddr.html#method.method_1\n".into(),
            reason: "Local path",
            pos: 10,
        }),
        Line::treated(Action::Deleted {
            line: "[`IpAddr`]: enum.IpAddr.html\n".into(),
            reason: "Local path",
            pos: 11,
        }),
        Line::treated(Action::Deleted {
            line: "[`IpAddr::method_1`]: enum.IpAddr.html#method.method_1\n".into(),
            reason: "Local path",
            pos: 12,
        }),
        // Unchanged links
        Line::treated(Action::Unchanged {
            line: "/// [Arc direct link]: https://doc.rust-lang.org/stable/std/sync/struct.Arc.html\n".into(),
        }),
        Line::treated(Action::Unchanged {
            line: "[Arc direct link]: https://doc.rust-lang.org/stable/std/sync/struct.Arc.html\n".into(),
        }),
    ];
    for (raw_pos, &line) in lines.iter().enumerate() {
        assert_eq!(comment_link(item_captures(line), raw_pos + 1, krate), res[raw_pos]);
    }
}

#[test]
fn test_comment_link_same_crate() {
    let krate = "std";

    let lines = [
        // Replaced links
        "/// [`Write`]: ../../std/io/trait.Write.html\n",
        "/// [`TcpStream`]: ../../std/net/struct.TcpStream.html\n",
        "/// [`TcpStream::write`]: ../../std/net/struct.TcpStream.html#method.write\n",
        "/// [`SocketAddr`]: ../../std/net/enum.SocketAddr.html\n",
        "[`Write`]: ../../std/io/trait.Write.html\n",
        "[`TcpStream`]: ../../std/net/struct.TcpStream.html\n",
        "[`TcpStream::write`]: ../../std/net/struct.TcpStream.html#method.write\n",
        "[`SocketAddr`]: ../../std/net/enum.SocketAddr.html\n",
        // Deleted links
        "/// [`IpAddr`]: enum.IpAddr.html\n",
        "/// [`IpAddr::method_1`]: enum.IpAddr.html#method.method_1\n",
        "[`IpAddr`]: enum.IpAddr.html\n",
        "[`IpAddr::method_1`]: enum.IpAddr.html#method.method_1\n",
        // Unchanged links
        "/// [Arc direct link]: https://doc.rust-lang.org/stable/std/sync/struct.Arc.html\n",
        "[Arc direct link]: https://doc.rust-lang.org/stable/std/sync/struct.Arc.html\n",
    ];

    let res = [
        // Replaced links
        Line::treated(Action::Replaced {
            line: "/// [`Write`]: ../../std/io/trait.Write.html\n".into(),
            new: "/// [`Write`]: crate::io::Write".into(),
            pos: 1,
        }),
        Line::treated(Action::Replaced {
            line: "/// [`TcpStream`]: ../../std/net/struct.TcpStream.html\n".into(),
            new: "/// [`TcpStream`]: crate::net::TcpStream".into(),
            pos: 2,
        }),
        Line::treated(Action::Replaced {
            line: "/// [`TcpStream::write`]: ../../std/net/struct.TcpStream.html#method.write\n".into(),
            new: "/// [`TcpStream::write`]: crate::net::TcpStream::write".into(),
            pos: 3,
        }),
        Line::treated(Action::Replaced {
            line: "/// [`SocketAddr`]: ../../std/net/enum.SocketAddr.html\n".into(),
            new: "/// [`SocketAddr`]: crate::net::SocketAddr".into(),
            pos: 4,
        }),
        Line::treated(Action::Replaced {
            line: "[`Write`]: ../../std/io/trait.Write.html\n".into(),
            new: "[`Write`]: crate::io::Write".into(),
            pos: 5,
        }),
        Line::treated(Action::Replaced {
            line: "[`TcpStream`]: ../../std/net/struct.TcpStream.html\n".into(),
            new: "[`TcpStream`]: crate::net::TcpStream".into(),
            pos: 6,
        }),
        Line::treated(Action::Replaced {
            line: "[`TcpStream::write`]: ../../std/net/struct.TcpStream.html#method.write\n".into(),
            new: "[`TcpStream::write`]: crate::net::TcpStream::write".into(),
            pos: 7,
        }),
        Line::treated(Action::Replaced {
            line: "[`SocketAddr`]: ../../std/net/enum.SocketAddr.html\n".into(),
            new: "[`SocketAddr`]: crate::net::SocketAddr".into(),
            pos: 8,
        }),
        // Deleted links
        Line::treated(Action::Deleted {
            line: "/// [`IpAddr`]: enum.IpAddr.html\n".into(),
            reason: "Local path",
            pos: 9,
        }),
        Line::treated(Action::Deleted {
            line: "/// [`IpAddr::method_1`]: enum.IpAddr.html#method.method_1\n".into(),
            reason: "Local path",
            pos: 10,
        }),
        Line::treated(Action::Deleted {
            line: "[`IpAddr`]: enum.IpAddr.html\n".into(),
            reason: "Local path",
            pos: 11,
        }),
        Line::treated(Action::Deleted {
            line: "[`IpAddr::method_1`]: enum.IpAddr.html#method.method_1\n".into(),
            reason: "Local path",
            pos: 12,
        }),
        // Unchanged links
        Line::treated(Action::Unchanged {
            line: "/// [Arc direct link]: https://doc.rust-lang.org/stable/std/sync/struct.Arc.html\n".into(),
        }),
        Line::treated(Action::Unchanged {
            line: "[Arc direct link]: https://doc.rust-lang.org/stable/std/sync/struct.Arc.html\n".into(),
        }),
    ];
    for (raw_pos, &line) in lines.iter().enumerate() {
        assert_eq!(comment_link(item_captures(line), raw_pos + 1, krate), res[raw_pos]);
    }
}

#[test]
fn comment_link_counts_supers_and_skips_the_current_directory() {
    let c = ItemCaptures {
        whole: "[a]: .././../struct.T.html\n".into(),
        link_name: "[a]: ".into(),
        root: None,
        supers: Some("../../".into()),
        intermediates: Some("./".into()),
        elem2: "T".into(),
        additional: None,
    };
    assert_eq!(
        comment_link(c, 3, "krate"),
        Line::treated(Action::Replaced {
            line: "[a]: .././../struct.T.html\n".into(),
            new: "[a]: super::super::T".into(),
            pos: 3,
        })
    );
    let c = ItemCaptures {
        whole: "[a]: krate/m/n/enum.E.html#variant.V\n".into(),
        link_name: "[a]: ".into(),
        root: Some("krate".into()),
        supers: Some("".into()),
        intermediates: Some("m/n/".into()),
        elem2: "E".into(),
        additional: Some("V".into()),
    };
    assert_eq!(
        comment_link(c, 1, "krate"),
        Line::treated(Action::Replaced {
            line: "[a]: krate/m/n/enum.E.html#variant.V\n".into(),
            new: "[a]: crate::m::n::E::V".into(),
            pos: 1,
        })
    );
}
