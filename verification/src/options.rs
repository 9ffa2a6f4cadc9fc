//! Options of a conversion: the crate being converted and the two switches
//! of the command line that change the produced links.
use vstd::prelude::*;
use crate::text::{chars_of, is_ident, is_ident_exec};

verus! {

/// A valid Rust identifier for a crate.
#[derive(Debug, Clone, PartialEq, Eq, Hash)]
pub struct Krate(pub String);

impl Krate {
    /// Given some unchecked string, returns `None` when it is not a valid
    /// Rust identifier and the crate name otherwise.
    pub fn new(name: &str) -> (r: Option<Krate>)
        ensures
            r is Some <==> is_ident(name@),
            r matches Some(k) ==> k.0@ == name@,
    {
        let cs = chars_of(name);
        if is_ident_exec(cs.as_slice()) {
            Some(Krate(name.to_owned()))
        } else {
            None
        }
    }

    /// The stored crate name.
    pub fn name(&self) -> (r: &str)
        ensures
            r@ == self.0@,
    {
        self.0.as_str()
    }
}

/// Options specific to the conversion of one file.
#[derive(Debug, Clone, PartialEq, Eq, Hash)]
pub struct ConversionOptions {
    /// Crate name.
    pub krate: Krate,
    /// When `true`, disambiguators are prepended to the item when
    /// appropriate, like `mod@item`. Suffixes (`my_function()` or
    /// `my_macro!`) are always written.
    pub disambiguate: bool,
    /// When `true`, favored `https` links (docs.rs and doc.rust-lang.org)
    /// may be transformed.
    pub favored_links: bool,
}

} // verus!
