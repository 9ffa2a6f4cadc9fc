use cargo_intraconv::action::ActionOf;
use cargo_intraconv::candidate::{transform_short, Candidate, CandidateInner};
use cargo_intraconv::config_file::RawFileConfig;
use cargo_intraconv::options::{ConversionOptions, Krate};
use cargo_intraconv::transform::ConversionContext;

fn context(disambiguate: bool) -> ConversionContext {
    ConversionContext::with_options(ConversionOptions {
        krate: Krate::new("krate").unwrap(),
        disambiguate,
        favored_links: true,
    })
}

#[test]
fn inline_link_equal_to_its_name_loses_its_target() {
    let mut ctx = context(false);
    let a = ctx.transform_line("/// See [`Rotation`](struct.Rotation.html)".into());
    assert_eq!(
        a,
        ActionOf::Replaced {
            line: "/// See [`Rotation`](struct.Rotation.html)".into(),
            new: "/// See [`Rotation`]\n".into(),
            pos: 0,
        }
    );
}

#[test]
fn inline_link_to_a_parent_module_becomes_super() {
    let mut ctx = context(false);
    let a = ctx.transform_line("/// [name](../metadata)".into());
    assert!(matches!(a, ActionOf::Replaced { ref new, .. } if new == "/// [name](super::metadata)\n"));
    let a = ctx.transform_line("/// See [the `Rotation` type](../struct.Rotation.html)".into());
    assert!(
        matches!(a, ActionOf::Replaced { ref new, .. } if new == "/// See [the `Rotation` type](super::Rotation)\n")
    );
}

#[test]
fn every_inline_link_of_a_line_is_replaced() {
    let mut ctx = context(true);
    let a = ctx.transform_line("/// [a](fn.f.html) and [b](mod1/struct.T.html), [`f`](fn.f.html).".into());
    assert!(matches!(
        a,
        ActionOf::Replaced { ref new, .. }
            if new == "/// [a](f()) and [b](type@mod1::T), [`f`](f()).\n"
    ));
}

#[test]
fn inline_links_that_cannot_change_are_kept() {
    let mut ctx = context(false);
    // Absolute targets are no intra-doc links.
    assert!(ctx.transform_line("/// [a](/abs/path)".into()).is_unchanged());
    // A web page that is no documentation.
    assert!(ctx.transform_line("/// [site](https://example.com)".into()).is_unchanged());
    // Not an inline link: the target is not made of link characters.
    assert!(ctx.transform_line("/// [a](b c)".into()).is_unchanged());
    assert!(ctx.transform_line("/// [](fn.f.html)".into()).is_unchanged());
}

#[test]
fn ignored_inline_links_are_kept() {
    let raw = RawFileConfig {
        globals: vec![("`f`".into(), vec!["fn.f.html".into()])],
        per_file: vec![],
    };
    let cfg = raw.finish(vec![]);
    let opts = ConversionOptions { krate: Krate::new("krate").unwrap(), disambiguate: false, favored_links: true };
    let mut ctx = ConversionContext::with_ignored_links(opts, cfg, "src/lib.rs".into());
    let a = ctx.transform_line("/// [`f`](fn.f.html) and [`G`](struct.G.html)".into());
    assert!(matches!(
        a,
        ActionOf::Replaced { ref new, .. } if new == "/// [`f`](fn.f.html) and [`G`]\n"
    ));
}

#[test]
fn from_line_hands_back_what_is_no_candidate() {
    assert_eq!(Candidate::from_line("/// text"), Err("/// text"));
    assert_eq!(Candidate::from_line("/// [a]: /abs/path\n"), Err("/// [a]: /abs/path\n"));
    match Candidate::from_line("/// [a]: fn.f.html").unwrap().inner {
        CandidateInner::Long { header, name, link } => {
            assert_eq!(header, "/// [a]: ");
            assert_eq!(name, "a");
            assert_eq!(link, "fn.f.html");
        }
        CandidateInner::Short { .. } => panic!("long form expected"),
    }
    match Candidate::from_line("/// see [a](fn.f.html)").unwrap().inner {
        CandidateInner::Short { orig } => assert_eq!(orig, "/// see [a](fn.f.html)"),
        CandidateInner::Long { .. } => panic!("short form expected"),
    }
}

#[test]
fn candidate_transform_gives_the_new_line() {
    let ctx = context(false);
    let c = Candidate::from_line("/// see [a](fn.f.html)").unwrap();
    assert_eq!(c.transform(&ctx), Some("/// see [a](f())".to_string()));
    let c = Candidate::from_line("/// [a]: fn.f.html").unwrap();
    assert_eq!(c.transform(&ctx), Some("/// [a]: f()".to_string()));
}

#[test]
fn transform_short_needs_an_inline_link() {
    let ctx = context(false);
    assert_eq!(transform_short("/// no link here", &ctx), None);
    assert_eq!(transform_short("[x](y z)", &ctx), None);
    assert_eq!(transform_short("[`T`](struct.T.html)", &ctx), Some("[`T`]".to_string()));
    assert_eq!(transform_short("a [T](enum.T.html) b", &ctx), Some("a [T] b".to_string()));
}

#[test]
fn short_candidate_without_inline_links_is_kept() {
    let ctx = context(false);
    let c = Candidate { inner: CandidateInner::Short { orig: "/// [a] (b)".to_string() } };
    assert_eq!(c.transform(&ctx), Some("/// [a] (b)".to_string()));
}
