//! The command line of the converter, as plain values.
use vstd::prelude::*;
use crate::text::{chars_of, extend_chars, is_ident, is_ident_exec, string_of};

verus! {

/// Converter from path-based links to intra-doc links for Rust crates.
///
/// By default it only prints the changes; `apply` writes them. `krate` is
/// the root crate (`std`, `core`, `my_crate`, ...); `disambiguate` adds
/// rustdoc prefixes (`type@`, ...); `no_favored` keeps `http(s)` links to
/// docs.rs and doc.rust-lang.org as they are; `quiet` only shows errors.
#[derive(Debug, Clone, PartialEq, Eq)]
pub struct Args {
    /// Prints the crate version and exits.
    pub version: bool,
    /// Root crate.
    pub krate: String,
    /// Applies the proposed changes.
    pub apply: bool,
    /// Uses rustdoc disambiguators in front of the transformed links.
    pub disambiguate: bool,
    /// Disables the transformation of favored links.
    pub no_favored: bool,
    /// Does not display changes, only errors when they happen.
    pub quiet: bool,
    /// A TOML file listing links to ignore.
    pub config_file: Option<String>,
    /// Files to search links in.
    pub paths: Vec<String>,
}

/// The message for a crate name that is not a Rust identifier.
pub open spec fn invalid_krate_message(krate: Seq<char>) -> Seq<char> {
    "The passed crate identifier '"@ + krate + "' is not valid.\n"@
}

/// `Ok` with the crate name when `krate` is a valid Rust identifier, an
/// error message naming it otherwise.
pub fn check_krate(krate: &str) -> (r: Result<String, String>)
    ensures
        match r {
            Ok(k) => is_ident(krate@) && k@ == krate@,
            Err(e) => !is_ident(krate@) && e@ == invalid_krate_message(krate@),
        },
{
    let k = chars_of(krate);
    if is_ident_exec(k.as_slice()) {
        Ok(krate.to_owned())
    } else {
        let mut m = chars_of("The passed crate identifier '");
        extend_chars(&mut m, k.as_slice());
        let tail = chars_of("' is not valid.\n");
        extend_chars(&mut m, tail.as_slice());
        Err(string_of(m.as_slice()))
    }
}

} // verus!
