use vstd::prelude::*;

verus! {

/// The delimiter of a token group.
///
/// `Invisible` stands for a group with no visible delimiter, as a macro
/// expander may produce when it splices one token stream into another.
#[derive(Debug, Clone, Copy, PartialEq, Eq)]
pub enum Delim {
    Paren,
    Brace,
    Bracket,
    Invisible,
}

/// One lexical token: an identifier (or keyword), a single punctuation
/// character, a literal, or a delimited group of tokens.
///
/// Identifiers and literals carry their text; the rewriter never looks
/// inside it. A punctuation token carries its character and a flag that is
/// true when the character is joined to the next punctuation token with no
/// space between them (so that `::` or `->` can be told apart from two
/// separate characters).
#[derive(Debug, PartialEq, Eq)]
pub enum Tok {
    Ident(String),
    Punct(char, bool),
    Lit(String),
    Group(Delim, Vec<Tok>),
}

/// True of a brace-delimited group `{ ... }`.
pub open spec fn is_brace(t: Tok) -> bool {
    match t {
        Tok::Group(d, _) => d is Brace,
        _ => false,
    }
}

/// True of a parenthesis-delimited group `( ... )`.
pub open spec fn is_paren(t: Tok) -> bool {
    match t {
        Tok::Group(d, _) => d is Paren,
        _ => false,
    }
}

/// True of a `|` punctuation token, whatever its spacing.
pub open spec fn is_pipe(t: Tok) -> bool {
    match t {
        Tok::Punct(c, _) => c == '|',
        _ => false,
    }
}

/// True of a `.` punctuation token, whatever its spacing.
pub open spec fn is_dot(t: Tok) -> bool {
    match t {
        Tok::Punct(c, _) => c == '.',
        _ => false,
    }
}

/// True of a `,` punctuation token, whatever its spacing.
pub open spec fn is_comma(t: Tok) -> bool {
    match t {
        Tok::Punct(c, _) => c == ',',
        _ => false,
    }
}

/// True of a `:` punctuation token, whatever its spacing.
pub open spec fn is_colon(t: Tok) -> bool {
    match t {
        Tok::Punct(c, _) => c == ':',
        _ => false,
    }
}

/// True of a `<` punctuation token, whatever its spacing.
pub open spec fn is_lt(t: Tok) -> bool {
    match t {
        Tok::Punct(c, _) => c == '<',
        _ => false,
    }
}

/// True of a `>` punctuation token, whatever its spacing.
pub open spec fn is_gt(t: Tok) -> bool {
    match t {
        Tok::Punct(c, _) => c == '>',
        _ => false,
    }
}

/// True of an identifier token.
pub open spec fn is_ident(t: Tok) -> bool {
    t is Ident
}

/// The tokens inside a group; the empty sequence on any other token.
pub open spec fn group_toks(t: Tok) -> Seq<Tok> {
    match t {
        Tok::Group(_, ts) => ts@,
        _ => Seq::empty(),
    }
}

/// The `|` written by the rewriter when it builds a closure head itself.
pub open spec fn pipe_tok() -> Tok {
    Tok::Punct('|', false)
}

/// The `,` written by the rewriter between the last argument and the closure.
pub open spec fn comma_tok() -> Tok {
    Tok::Punct(',', false)
}

/// True iff `t` is a brace group, decided in executable code.
pub fn tok_is_brace(t: &Tok) -> (r: bool)
    ensures
        r == is_brace(*t),
{
    match t {
        Tok::Group(Delim::Brace, _) => true,
        _ => false,
    }
}

/// True iff `t` is the punctuation character `c`, decided in executable code.
pub fn tok_is_punct(t: &Tok, c: char) -> (r: bool)
    ensures
        r == (match *t {
            Tok::Punct(d, _) => d == c,
            _ => false,
        }),
{
    match t {
        Tok::Punct(d, _) => *d == c,
        _ => false,
    }
}

/// True iff `t` is an identifier, decided in executable code.
pub fn tok_is_ident(t: &Tok) -> (r: bool)
    ensures
        r == is_ident(*t),
{
    match t {
        Tok::Ident(_) => true,
        _ => false,
    }
}

} // verus!
