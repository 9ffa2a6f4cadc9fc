use cargo_intraconv::action::ActionOf;
use cargo_intraconv::config_file::{FileConfig, RawFileConfig};
use cargo_intraconv::options::{ConversionOptions, Krate};
use cargo_intraconv::transform::ConversionContext;

fn raw() -> RawFileConfig {
    RawFileConfig {
        globals: vec![("name".into(), vec!["link 1".into(), "a/./b/".into()])],
        per_file: vec![
            ("lib.rs".into(), vec![("`downcast_ref`".into(), vec!["#method.downcast_ref".into()])]),
            (
                "tracing-core/src/lib.rs".into(),
                vec![("`other`".into(), vec!["#method.other".into()])],
            ),
        ],
    }
}

#[test]
fn global_ignores_apply_everywhere() {
    let c = raw().finish(vec!["/abs/tracing-core/src/lib.rs".into()]);
    assert!(c.is_ignored("any/file.rs", "name", "link 1"));
    // Paths are compared component by component.
    assert!(c.is_ignored("any/file.rs", "name", "a/b"));
    assert!(!c.is_ignored("any/file.rs", "name", "link 2"));
    assert!(!c.is_ignored("any/file.rs", "other name", "link 1"));
}

#[test]
fn local_ignores_apply_to_files_ending_with_the_path() {
    let c = raw().finish(vec!["/abs/tracing-core/src/lib.rs".into()]);
    assert!(c.is_ignored("src/lib.rs", "`downcast_ref`", "#method.downcast_ref"));
    assert!(c.is_ignored("lib.rs", "`downcast_ref`", "#method.downcast_ref"));
    assert!(!c.is_ignored("src/main.rs", "`downcast_ref`", "#method.downcast_ref"));
    assert!(!c.is_ignored("src/mylib.rs", "`downcast_ref`", "#method.downcast_ref"));
    assert!(c.is_ignored("/abs/tracing-core/src/lib.rs", "`other`", "#method.other"));
    assert!(!c.is_ignored("other/src/lib.rs", "`other`", "#method.other"));
}

#[test]
fn finish_replaces_long_paths_in_order() {
    let r = raw();
    assert_eq!(r.paths_to_canonicalize(), vec!["tracing-core/src/lib.rs".to_string()]);
    let c = r.finish(vec!["/abs/x".into()]);
    assert_eq!(c.0.per_file.len(), 2);
    assert_eq!(c.0.per_file[0].0, "lib.rs");
    assert_eq!(c.0.per_file[1].0, "/abs/x");
    assert_eq!(c.0.per_file[1].1, vec![("`other`".to_string(), vec!["#method.other".to_string()])]);
}

#[test]
fn default_config_ignores_nothing() {
    let c = FileConfig::default();
    assert!(!c.is_ignored("lib.rs", "name", "link"));
    let r = RawFileConfig::default();
    assert!(r.paths_to_canonicalize().is_empty());
}

#[test]
fn ignored_links_are_left_unchanged() {
    let opts = ConversionOptions {
        krate: Krate::new("krate").unwrap(),
        disambiguate: false,
        favored_links: true,
    };
    let cfg = raw().finish(vec!["/abs/x".into()]);
    let mut ctx = ConversionContext::with_ignored_links(opts.clone(), cfg, "src/lib.rs".into());
    let a = ctx.transform_line("/// [`downcast_ref`]: #method.downcast_ref".into());
    assert_eq!(
        a,
        ActionOf::Unchanged { line: "/// [`downcast_ref`]: #method.downcast_ref\n".into() }
    );

    let mut ctx = ConversionContext::with_options(opts);
    let a = ctx.transform_line("/// [`downcast_ref`]: #method.downcast_ref".into());
    assert_eq!(
        a,
        ActionOf::Replaced {
            line: "/// [`downcast_ref`]: #method.downcast_ref".into(),
            new: "/// [`downcast_ref`]: Self::downcast_ref()\n".into(),
            pos: 0,
        }
    );
}
