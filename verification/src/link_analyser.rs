//! A first reading of link definitions: the header and the link of a line,
//! and what kind of page a link points to.
use vstd::prelude::*;
use crate::lines::{link_to_treat_long, link_to_treat_long_exec};
use crate::text::{chars_of, string_of, sub_chars};

pub mod link;

verus! {

/// The parts of a Markdown link definition, in its long form.
#[derive(Debug, Clone, PartialEq, Eq, Hash)]
pub struct Parts {
    /// Everything from the start of the line to the last whitespace before
    /// the link itself.
    pub header: String,
    /// The link, read as a path.
    pub link: String,
}

/// The header and the link of a line that is a link definition ending with
/// `\n`.
pub open spec fn spec_parts(s: Seq<char>) -> Option<(Seq<char>, Seq<char>)> {
    match link_to_treat_long(s) {
        Some((a, b, l, m)) => if m + 1 == s.len() && s[m] == '\n' {
            Some((s.subrange(0, l), s.subrange(l, m)))
        } else {
            None
        },
        None => None,
    }
}

impl Parts {
    /// The parts of a link definition in a line ending with `\n`; the line
    /// itself, as an error, when it is none.
    pub fn from_line(line: &str) -> (r: Result<Parts, &str>)
        ensures
            match r {
                Ok(p) => spec_parts(line@) == Some((p.header@, p.link@)),
                Err(e) => spec_parts(line@) is None && e == line,
            },
    {
        let s = chars_of(line);
        match link_to_treat_long_exec(s.as_slice()) {
            Some((a, b, l, m)) => {
                if m < s.len() && m + 1 == s.len() && s[m] == '\n' {
                    let header = string_of(sub_chars(s.as_slice(), 0, l).as_slice());
                    let link = string_of(sub_chars(s.as_slice(), l, m).as_slice());
                    Ok(Parts { header, link })
                } else {
                    Err(line)
                }
            },
            None => Err(line),
        }
    }
}

} // verus!
