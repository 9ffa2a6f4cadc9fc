//! Conversion of path-based Markdown links in Rust documentation to
//! intra-doc links.
//!
//! The library reads the lines of a Rust source file, recognises the
//! Markdown link definitions they hold (`/// [name]: path/to/struct.Item.html`)
//! and computes the intra-doc form of each link (`/// [name]: path::to::Item`).
//! Every grammar the tool recognises is stated as a specification over the
//! characters of a line, and every transformation is proved against it.
//!
//! - [`text`], [`path`], [`grammar`] and [`lines`]: characters, paths split
//!   into components, the names rustdoc gives its pages, and the grammars of
//!   whole lines;
//! - [`link_parts`]: the parts of a link and its intra-doc form;
//! - [`candidate`] and [`transform`]: the transformation of a line and of a
//!   whole file, with the type blocks that give `Self` its meaning;
//! - [`options`], [`config_file`], [`args`] and [`driver`]: the crate, the
//!   switches, the links to leave alone and the decisions of a run;
//! - [`action`]: what happens to each line;
//! - [`link_analyser`] and [`check`]: a first reading of links by the kind
//!   of page they point to, and a one-pass rewriting of a line driven by the
//!   crate name only;
//! - [`updater`]: the removal of empty doc comment lines.
#![allow(unused_imports)]

pub mod text;
pub mod path;
pub mod grammar;
pub mod options;
pub mod link_parts;
pub mod lines;
pub mod action;
pub mod config_file;
pub mod candidate;
pub mod transform;
pub mod args;
pub mod updater;
pub mod link_analyser;
pub mod driver;
pub mod check;
