//! The action taken for one line of a file: kept, deleted or replaced, and
//! the text shown for it and for the file it belongs to.
use vstd::prelude::*;
use crate::text::{chars_of, extend_chars, string_of};

verus! {

/// The action taken for a particular line of text, over any representation
/// of text: [`Action`] holds `String`s, its view holds character sequences.
#[derive(Debug, Clone, PartialEq, Eq, Hash)]
pub enum ActionOf<T> {
    /// `line` was unchanged and no specific action was taken.
    Unchanged { line: T },
    /// `line` was deleted. Its position is kept for display.
    Deleted { line: T, pos: usize },
    /// `line` was replaced by a `new` one, at position `pos`.
    Replaced { line: T, new: T, pos: usize },
}

/// The action taken for a particular line of text. It can be displayed to
/// show a diff, or saved through [`ActionOf::as_new_line`].
pub type Action = ActionOf<String>;

/// The view of an [`Action`].
pub type SAction = ActionOf<Seq<char>>;

impl View for ActionOf<String> {
    type V = SAction;

    open spec fn view(&self) -> SAction {
        match self {
            ActionOf::Unchanged { line } => ActionOf::Unchanged { line: line@ },
            ActionOf::Deleted { line, pos } => ActionOf::Deleted { line: line@, pos: *pos },
            ActionOf::Replaced { line, new, pos } => ActionOf::Replaced {
                line: line@,
                new: new@,
                pos: *pos,
            },
        }
    }
}

/// What an action writes in place of its line: the line itself when
/// unchanged, nothing when deleted, the new line when replaced.
pub open spec fn new_line_of(a: SAction) -> Seq<char> {
    match a {
        ActionOf::Unchanged { line } => line,
        ActionOf::Deleted { .. } => Seq::empty(),
        ActionOf::Replaced { new, .. } => new,
    }
}

impl ActionOf<String> {
    /// Whether the action is [`ActionOf::Unchanged`].
    pub fn is_unchanged(&self) -> (b: bool)
        ensures
            b == (self@ is Unchanged),
    {
        match self {
            ActionOf::Unchanged { .. } => true,
            _ => false,
        }
    }

    /// Whether the action is [`ActionOf::Deleted`].
    pub fn is_deleted(&self) -> (b: bool)
        ensures
            b == (self@ is Deleted),
    {
        match self {
            ActionOf::Deleted { .. } => true,
            _ => false,
        }
    }

    /// The new line to write: the unchanged line, an empty line for a
    /// deletion, the `new` line for a replacement.
    pub fn as_new_line(&self) -> (r: &str)
        ensures
            r@ == new_line_of(self@),
    {
        match self {
            ActionOf::Unchanged { line } => line.as_str(),
            ActionOf::Deleted { .. } => {
                proof {
                    reveal_strlit("");
                }
                ""
            },
            ActionOf::Replaced { new, .. } => new.as_str(),
        }
    }
}

/// The escape sequence that starts red text on a terminal.
pub open spec fn red_start() -> Seq<char> {
    seq!['\u{1b}', '[', '3', '1', 'm']
}

/// The escape sequence that starts green text on a terminal.
pub open spec fn green_start() -> Seq<char> {
    seq!['\u{1b}', '[', '3', '2', 'm']
}

/// The escape sequence that resets the style of a terminal.
pub open spec fn style_reset() -> Seq<char> {
    seq!['\u{1b}', '[', '0', 'm']
}

/// `s` painted red.
pub open spec fn red_text(s: Seq<char>) -> Seq<char> {
    red_start() + s + style_reset()
}

/// `s` painted green.
pub open spec fn green_text(s: Seq<char>) -> Seq<char> {
    green_start() + s + style_reset()
}

/// Paints `s` red with `ansi_term::Colour::Red`. Trusted: the contract
/// claims what ansi_term writes for a painted string, its colour's prefix,
/// the string and the reset suffix.
#[verifier::external_body]
pub(crate) fn paint_red(s: &str) -> (r: String)
    ensures
        r@ == red_text(s@),
{
    ansi_term::Colour::Red.paint(s).to_string()
}

/// Paints `s` green with `ansi_term::Colour::Green`. Trusted: the contract
/// claims what ansi_term writes for a painted string, its colour's prefix,
/// the string and the reset suffix.
#[verifier::external_body]
pub(crate) fn paint_green(s: &str) -> (r: String)
    ensures
        r@ == green_text(s@),
{
    ansi_term::Colour::Green.paint(s).to_string()
}

/// The character of the decimal digit `d`.
pub open spec fn digit_char(d: nat) -> char {
    if d == 0 {
        '0'
    } else if d == 1 {
        '1'
    } else if d == 2 {
        '2'
    } else if d == 3 {
        '3'
    } else if d == 4 {
        '4'
    } else if d == 5 {
        '5'
    } else if d == 6 {
        '6'
    } else if d == 7 {
        '7'
    } else if d == 8 {
        '8'
    } else {
        '9'
    }
}

/// The decimal digits of `n`.
pub open spec fn decimal(n: nat) -> Seq<char>
    decreases n,
{
    if n < 10 {
        seq![digit_char(n)]
    } else {
        decimal(n / 10).push(digit_char(n % 10))
    }
}

/// `n` in decimal, right-aligned on five columns (`{:5}`): spaces before
/// the digits when they are fewer than five.
pub open spec fn padded_pos(n: nat) -> Seq<char> {
    let d = decimal(n);
    if d.len() < 5 {
        Seq::new((5 - d.len()) as nat, |i: int| ' ') + d
    } else {
        d
    }
}

/// What is shown for an action: nothing for an unchanged line; the
/// position and the old line in red for a deletion; the position, the old
/// line in red and, under it, the new line in green for a replacement.
pub open spec fn shown_of(a: SAction) -> Seq<char> {
    match a {
        ActionOf::Unchanged { .. } => Seq::<char>::empty(),
        ActionOf::Deleted { line, pos } => padded_pos(pos as nat) + seq![':', ' ', ' ', '"']
            + red_text(line) + seq!['"'],
        ActionOf::Replaced { line, new, pos } => padded_pos(pos as nat) + seq![':', ' ', ' ', '"']
            + red_text(line) + seq!['"', '\n', ' ', ' ', ' ', ' ', ' ', ' ', ' ', ' ', '"']
            + green_text(new) + seq!['"'],
    }
}

fn digit_exec(d: usize) -> (c: char)
    requires
        d < 10,
    ensures
        c == digit_char(d as nat),
{
    if d == 0 {
        '0'
    } else if d == 1 {
        '1'
    } else if d == 2 {
        '2'
    } else if d == 3 {
        '3'
    } else if d == 4 {
        '4'
    } else if d == 5 {
        '5'
    } else if d == 6 {
        '6'
    } else if d == 7 {
        '7'
    } else if d == 8 {
        '8'
    } else {
        '9'
    }
}

fn decimal_exec(n: usize) -> (r: Vec<char>)
    ensures
        r@ == decimal(n as nat),
    decreases n,
{
    if n < 10 {
        let mut v: Vec<char> = Vec::new();
        v.push(digit_exec(n));
        v
    } else {
        let mut v = decimal_exec(n / 10);
        v.push(digit_exec(n % 10));
        v
    }
}

fn padded_pos_exec(n: usize) -> (r: Vec<char>)
    ensures
        r@ == padded_pos(n as nat),
{
    let d = decimal_exec(n);
    if d.len() < 5 {
        let w: usize = 5 - d.len();
        let mut r: Vec<char> = Vec::new();
        let mut k: usize = 0;
        while k < w
            invariant
                0 <= k <= w,
                r@ == Seq::new(k as nat, |i: int| ' '),
            decreases w - k,
        {
            r.push(' ');
            assert(r@ =~= Seq::new((k + 1) as nat, |i: int| ' '));
            k = k + 1;
        }
        extend_chars(&mut r, d.as_slice());
        r
    } else {
        d
    }
}

impl ActionOf<String> {
    /// The text shown for the action, see [`shown_of`].
    pub fn shown(&self) -> (r: String)
        ensures
            r@ == shown_of(self@),
    {
        match self {
            ActionOf::Unchanged { .. } => String::new(),
            ActionOf::Deleted { line, pos } => {
                let mut r = padded_pos_exec(*pos);
                extend_chars(&mut r, &[':', ' ', ' ', '"']);
                let red = chars_of(paint_red(line.as_str()).as_str());
                extend_chars(&mut r, red.as_slice());
                r.push('"');
                string_of(r.as_slice())
            },
            ActionOf::Replaced { line, new, pos } => {
                let mut r = padded_pos_exec(*pos);
                extend_chars(&mut r, &[':', ' ', ' ', '"']);
                let red = chars_of(paint_red(line.as_str()).as_str());
                extend_chars(&mut r, red.as_slice());
                extend_chars(&mut r, &['"', '\n', ' ', ' ', ' ', ' ', ' ', ' ', ' ', ' ', '"']);
                let green = chars_of(paint_green(new.as_str()).as_str());
                extend_chars(&mut r, green.as_slice());
                r.push('"');
                string_of(r.as_slice())
            },
        }
    }
}

/// The number of bytes of `c` in UTF-8.
pub open spec fn utf8_len(c: char) -> nat {
    if (c as u32) < 0x80u32 {
        1
    } else if (c as u32) < 0x800u32 {
        2
    } else if (c as u32) < 0x10000u32 {
        3
    } else {
        4
    }
}

/// The number of bytes of `s` in UTF-8, which is what the length of a Rust
/// string counts.
pub open spec fn utf8_bytes(s: Seq<char>) -> nat
    decreases s.len(),
{
    if s.len() == 0 {
        0
    } else {
        utf8_bytes(s.drop_last()) + utf8_len(s.last())
    }
}

/// The header shown before the changes of a file: the crate and the path,
/// then a line of `=` one longer than the crate name (counted in bytes).
pub open spec fn changes_header_of(krate: Seq<char>, path: Seq<char>) -> Seq<char> {
    krate + seq![':', ' '] + path + seq!['\n'] + Seq::new(utf8_bytes(krate) + 1, |i: int| '=')
        + seq!['\n']
}

/// The header shown before the changes of the file `path` of the crate
/// `krate`, see [`changes_header_of`].
pub fn changes_header(krate: &str, path: &str) -> (r: String)
    ensures
        r@ == changes_header_of(krate@, path@),
{
    let k = chars_of(krate);
    let mut r = chars_of(krate);
    extend_chars(&mut r, &[':', ' ']);
    let p = chars_of(path);
    extend_chars(&mut r, p.as_slice());
    r.push('\n');
    let ghost before = r@;
    let mut j: usize = 0;
    let ghost mut bytes: nat = 0;
    while j < k.len()
        invariant
            0 <= j <= k@.len(),
            k@ == krate@,
            bytes == utf8_bytes(k@.subrange(0, j as int)),
            r@ == before + Seq::new(bytes, |i: int| '='),
        decreases k@.len() - j,
    {
        assert(k@.subrange(0, j + 1).drop_last() =~= k@.subrange(0, j as int));
        let c = k[j];
        let n: usize = if (c as u32) < 0x80u32 {
            1
        } else if (c as u32) < 0x800u32 {
            2
        } else if (c as u32) < 0x10000u32 {
            3
        } else {
            4
        };
        let mut m: usize = 0;
        while m < n
            invariant
                0 <= m <= n,
                n <= 4,
                r@ == before + Seq::new((bytes + m) as nat, |i: int| '='),
                n == utf8_len(c),
            decreases n - m,
        {
            r.push('=');
            assert(r@ =~= before + Seq::new((bytes + m + 1) as nat, |i: int| '='));
            m = m + 1;
        }
        proof {
            bytes = bytes + (n as nat);
        }
        j = j + 1;
    }
    assert(k@.subrange(0, k@.len() as int) =~= k@);
    r.push('=');
    assert(r@ =~= before + Seq::new((bytes + 1) as nat, |i: int| '='));
    r.push('\n');
    string_of(r.as_slice())
}

} // verus!
