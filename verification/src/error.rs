//! The two ways in which an operation of the store fails, and the texts that
//! the failures carry.

use vstd::prelude::*;
use vstd::string::*;

verus! {

/// Why an operation of the store did not succeed.
#[derive(Debug, PartialEq, Eq)]
pub enum Error {
    /// The identifier that the operation names is not in the table.
    NotFound { msg: String },
    /// A write to the counter or to a table was not possible.
    InvalidInput { msg: String },
}

/// An [`Error`] with its text as a sequence of characters.
pub enum ErrorView {
    NotFound { msg: Seq<char> },
    InvalidInput { msg: Seq<char> },
}

impl View for Error {
    type V = ErrorView;

    open spec fn view(&self) -> ErrorView {
        match self {
            Error::NotFound { msg } => ErrorView::NotFound { msg: msg@ },
            Error::InvalidInput { msg } => ErrorView::InvalidInput { msg: msg@ },
        }
    }
}

/// The decimal digit for `d`, which is below ten.
pub open spec fn digit(d: nat) -> char {
    if d == 0 {
        '0'
    } else if d == 1 {
        '1'
    } else if d == 2 {
        '2'
    } else if d == 3 {
        '3'
    } else if d == 4 {
        '4'
    } else if d == 5 {
        '5'
    } else if d == 6 {
        '6'
    } else if d == 7 {
        '7'
    } else if d == 8 {
        '8'
    } else {
        '9'
    }
}

/// `n` written in decimal, without leading zeros.
pub open spec fn decimal(n: nat) -> Seq<char>
    decreases n,
{
    if n < 10 {
        seq![digit(n)]
    } else {
        decimal(n / 10) + seq![digit(n % 10)]
    }
}

/// The text of a failed lookup: the kind of record, then ` with id=`, the
/// identifier in decimal, and ` not found`.
pub open spec fn not_found_text(kind: Seq<char>, id: u64) -> Seq<char> {
    kind + " with id="@ + decimal(id as nat) + " not found"@
}

/// The text of a record that is too long to be stored: the kind of record,
/// then ` with id=`, the identifier in decimal, and ` is too large`.
pub open spec fn too_large_text(kind: Seq<char>, id: u64) -> Seq<char> {
    kind + " with id="@ + decimal(id as nat) + " is too large"@
}

/// The text of a table that holds bytes which are no record of its kind, or
/// a record under another key than its identifier.
pub open spec fn corrupt_text(kind: Seq<char>) -> Seq<char> {
    kind + " table is corrupt"@
}

fn digit_str(d: u64) -> (s: &'static str)
    requires
        d < 10,
    ensures
        s@ == seq![digit(d as nat)],
{
    proof {
        reveal_strlit("0");
        reveal_strlit("1");
        reveal_strlit("2");
        reveal_strlit("3");
        reveal_strlit("4");
        reveal_strlit("5");
        reveal_strlit("6");
        reveal_strlit("7");
        reveal_strlit("8");
        reveal_strlit("9");
    }
    let s = if d == 0 {
        "0"
    } else if d == 1 {
        "1"
    } else if d == 2 {
        "2"
    } else if d == 3 {
        "3"
    } else if d == 4 {
        "4"
    } else if d == 5 {
        "5"
    } else if d == 6 {
        "6"
    } else if d == 7 {
        "7"
    } else if d == 8 {
        "8"
    } else {
        "9"
    };
    assert(s@ =~= seq![digit(d as nat)]);
    s
}

/// Appends `n` in decimal to `out`.
pub fn push_decimal(out: &mut String, n: u64)
    ensures
        final(out)@ == old(out)@ + decimal(n as nat),
    decreases n,
{
    if n >= 10 {
        push_decimal(out, n / 10);
    }
    out.append(digit_str(n % 10));
    assert(out@ =~= old(out)@ + decimal(n as nat));
}

fn identified(kind: &str, id: u64, what: &str) -> (text: String)
    ensures
        text@ == kind@ + " with id="@ + decimal(id as nat) + what@,
{
    let mut text = String::from_str(kind);
    text.append(" with id=");
    push_decimal(&mut text, id);
    text.append(what);
    text
}

impl Error {
    /// The failure of a lookup of `id` among the records of the given kind.
    pub fn not_found(kind: &str, id: u64) -> (e: Error)
        ensures
            e@ == (ErrorView::NotFound { msg: not_found_text(kind@, id) }),
    {
        Error::NotFound { msg: identified(kind, id, " not found") }
    }

    /// The failure to store the record `id` of the given kind, whose bytes
    /// are more than a table takes.
    pub fn too_large(kind: &str, id: u64) -> (e: Error)
        ensures
            e@ == (ErrorView::InvalidInput { msg: too_large_text(kind@, id) }),
    {
        Error::InvalidInput { msg: identified(kind, id, " is too large") }
    }

    /// The failure to read a table of the given kind.
    pub fn corrupt(kind: &str) -> (e: Error)
        ensures
            e@ == (ErrorView::InvalidInput { msg: corrupt_text(kind@) }),
    {
        let mut text = String::from_str(kind);
        text.append(" table is corrupt");
        Error::InvalidInput { msg: text }
    }

    /// A failed write with the given text.
    pub fn invalid_input(text: &str) -> (e: Error)
        ensures
            e@ == (ErrorView::InvalidInput { msg: text@ }),
    {
        Error::InvalidInput { msg: String::from_str(text) }
    }

    /// The text that the failure carries.
    pub fn message(&self) -> (text: &str)
        ensures
            text@ == match self@ {
                ErrorView::NotFound { msg } => msg,
                ErrorView::InvalidInput { msg } => msg,
            },
    {
        match self {
            Error::NotFound { msg } => msg.as_str(),
            Error::InvalidInput { msg } => msg.as_str(),
        }
    }
}

} // verus!
