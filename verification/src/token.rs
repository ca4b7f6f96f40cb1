use vstd::prelude::*;

verus! {

/// Tag carried by every emitted token, and at the same time the state of the
/// tokenizer: while scanning, the machine sits in the state named after the
/// kind of token it is accumulating.
///
/// `Idle` and `Line` are transient states only; they never tag an emitted
/// token.
#[derive(Clone, Copy, PartialEq, Eq, Structural, Debug)]
pub enum INIContext {
    /// Between lines, before the next token has started.
    Idle,
    /// A key name: accumulating one, or tagging an emitted one.
    Key,
    /// A value: accumulating one, or tagging an emitted one.
    Value,
    /// After a `\r` or a `]`: waiting for the `\n` that ends the line.
    Line,
    /// A comment: accumulating one, or tagging an emitted one.
    Comment,
    /// A section name: accumulating one, or tagging an emitted one.
    Section,
}

/// An ASCII letter or digit: what may start a key, and so a line.
pub open spec fn is_alnum(c: char) -> bool {
    ('a' <= c && c <= 'z') || ('A' <= c && c <= 'Z') || ('0' <= c && c <= '9')
}

/// What may continue a key name once it has started.
pub open spec fn is_key_char(c: char) -> bool {
    is_alnum(c) || c == '.' || c == '-' || c == '_' || c == '~'
}

/// The characters the machine rejects in a given state: in strict mode
/// parsing fails at the first of them, in lenient mode each one is discarded.
pub open spec fn rejected(ctx: INIContext, c: char) -> bool {
    match ctx {
        INIContext::Idle => !(c == ';' || c == '[' || c == '\r' || c == '\n' || is_alnum(c)),
        INIContext::Key => !(c == '=' || is_key_char(c)),
        INIContext::Value => false,
        INIContext::Line => !(c == '\r' || c == '\n'),
        INIContext::Comment => false,
        INIContext::Section => false,
    }
}

/// Executable form of [`is_alnum`].
pub fn alnum(c: char) -> (r: bool)
    ensures
        r == is_alnum(c),
{
    ('a' <= c && c <= 'z') || ('A' <= c && c <= 'Z') || ('0' <= c && c <= '9')
}

/// Executable form of [`is_key_char`].
pub fn key_char(c: char) -> (r: bool)
    ensures
        r == is_key_char(c),
{
    alnum(c) || c == '.' || c == '-' || c == '_' || c == '~'
}

} // verus!
