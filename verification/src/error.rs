//! The errors the application reports, each carrying plain text.
use vstd::prelude::*;

use crate::text::{append_str, owned, push_char};

verus! {

/// Everything that can go wrong. Errors that come from the file system or
/// from the JSON layer carry their description as text.
#[derive(Debug)]
pub enum AppError {
    Io(IoKind, String),
    Serde(String),
    MissingHomeDir,
    InvalidDueDate,
    EmptyTitle,
    CorruptedData { path: String },
    InvalidLocaleFile { path: String, details: String },
    InvalidConfig { path: String },
}

pub type AppResult<T> = Result<T, AppError>;

/// What sort of I/O failure an error is, as `std::io::ErrorKind` names it.
/// Kinds not listed here count as `Other`.
#[derive(Clone, Copy, Debug, PartialEq, Eq, Structural)]
pub enum IoKind {
    NotFound,
    PermissionDenied,
    AlreadyExists,
    InvalidInput,
    InvalidData,
    UnexpectedEof,
    WriteZero,
    Interrupted,
    Unsupported,
    OutOfMemory,
    Other,
}

/// An error as a mathematical value.
pub enum ErrorView {
    Io(IoKind, Seq<char>),
    Serde(Seq<char>),
    MissingHomeDir,
    InvalidDueDate,
    EmptyTitle,
    CorruptedData(Seq<char>),
    InvalidLocaleFile(Seq<char>, Seq<char>),
    InvalidConfig(Seq<char>),
}

impl View for AppError {
    type V = ErrorView;

    open spec fn view(&self) -> ErrorView {
        match self {
            AppError::Io(k, d) => ErrorView::Io(*k, d@),
            AppError::Serde(d) => ErrorView::Serde(d@),
            AppError::MissingHomeDir => ErrorView::MissingHomeDir,
            AppError::InvalidDueDate => ErrorView::InvalidDueDate,
            AppError::EmptyTitle => ErrorView::EmptyTitle,
            AppError::CorruptedData { path } => ErrorView::CorruptedData(path@),
            AppError::InvalidLocaleFile { path, details } => ErrorView::InvalidLocaleFile(
                path@,
                details@,
            ),
            AppError::InvalidConfig { path } => ErrorView::InvalidConfig(path@),
        }
    }
}

/// The decimal digit for `d` (`0 <= d < 10`).
pub open spec fn digit_char(d: int) -> char {
    (('0' as int) + d) as char
}

/// The decimal notation of `n`, as `u64`'s `Display` writes it.
pub open spec fn decimal(n: nat) -> Seq<char>
    decreases n,
{
    if n < 10 {
        seq![digit_char(n as int)]
    } else {
        decimal(n / 10).push(digit_char((n % 10) as int))
    }
}

/// The description of the error for a missing task id.
pub open spec fn not_found_text(id: u64) -> Seq<char> {
    "task "@ + decimal(id as nat) + " not found"@
}

/// The decimal digit character for `d`.
fn digit(d: u64) -> (r: char)
    requires
        d < 10,
    ensures
        r == digit_char(d as int),
{
    let b: u8 = 48u8 + (d as u8);
    b as char
}

/// Appends the decimal notation of `n`.
fn push_decimal(s: &mut String, n: u64)
    ensures
        final(s)@ == old(s)@ + decimal(n as nat),
    decreases n,
{
    if n >= 10 {
        push_decimal(s, n / 10);
    }
    push_char(s, digit(n % 10));
    proof {
        if n >= 10 {
            assert(decimal(n as nat) == decimal((n / 10) as nat).push(digit_char((n % 10) as int)));
        }
    }
}

/// The message `task {id} not found`.
pub(crate) fn not_found_message(id: u64) -> (r: String)
    ensures
        r@ == not_found_text(id),
{
    let mut s = owned("task ");
    push_decimal(&mut s, id);
    append_str(&mut s, " not found");
    proof {
        reveal_strlit("task ");
        reveal_strlit(" not found");
    }
    s
}

} // verus!
