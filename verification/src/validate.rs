use vstd::prelude::*;
use proc_macro2::{Delimiter, Group, Punct, Spacing, TokenStream, TokenTree};
use crate::token::{Tok, Delim, is_ident, is_comma, is_colon, is_lt, is_gt, tok_is_ident,
    tok_is_punct};

verus! {

#[verifier::external_type_specification]
#[verifier::external_body]
pub struct ExTokenStream(TokenStream);

/// Whether these tokens parse, under the Rust expression grammar, as exactly
/// a plain function call or a method call. The grammar is the outside
/// parser's; the library does not restate it, it names the verdict and
/// refuses every head on which the verdict is false.
pub uninterp spec fn is_call_expr(head: Seq<Tok>) -> bool;

/// Whether these tokens parse, under the Rust statement grammar, as the
/// inside of a brace-delimited statement block.
pub uninterp spec fn is_stmt_block(body: Seq<Tok>) -> bool;

/// Conversion glue for the parser wrappers: one token as a `proc_macro2`
/// stream. Total and a function of the token alone, so that the wrappers'
/// verdicts depend on the tokens alone: text that does not lex, and
/// punctuation outside Rust's set (which `proc_macro2::Punct::new` would
/// refuse with a panic), become the empty stream instead.
#[verifier::external_body]
fn tok_stream(t: &Tok) -> TokenStream {
    match t {
        Tok::Ident(s) | Tok::Lit(s) => s.parse().unwrap_or_default(),
        Tok::Punct(c, jointly) => match "~!@#$%^&*-=+|;:,<.>/?'".contains(*c) {
            true if *jointly => TokenTree::Punct(Punct::new(*c, Spacing::Joint)).into(),
            true => TokenTree::Punct(Punct::new(*c, Spacing::Alone)).into(),
            false => TokenStream::new(),
        },
        Tok::Group(d, ts) => {
            let delim = match d {
                Delim::Paren => Delimiter::Parenthesis, Delim::Brace => Delimiter::Brace,
                Delim::Bracket => Delimiter::Bracket, Delim::Invisible => Delimiter::None,
            };
            TokenTree::Group(Group::new(delim, toks_stream(ts))).into()
        },
    }
}

/// Conversion glue for the parser wrappers: a token sequence as one
/// `proc_macro2` stream, each token through [`tok_stream`].
#[verifier::external_body]
fn toks_stream(ts: &Vec<Tok>) -> TokenStream {
    ts.iter().map(tok_stream).collect()
}

/// Relies on `syn::parse2::<syn::Expr>`: true exactly when the tokens parse
/// as one expression that is a plain call (`syn::Expr::Call`) or a method
/// call (`syn::Expr::MethodCall`). Parsing is deterministic, so the verdict
/// is a function of the tokens alone.
#[verifier::external_body]
pub(crate) fn head_is_call(head: &Vec<Tok>) -> (r: bool)
    ensures
        r == is_call_expr(head@),
{
    match syn::parse2::<syn::Expr>(toks_stream(head)) {
        Ok(syn::Expr::Call(_)) => true,
        Ok(syn::Expr::MethodCall(_)) => true,
        _ => false,
    }
}

/// Relies on `syn::parse2::<syn::Block>`: true exactly when the tokens,
/// wrapped in one brace group, parse as a statement block. Parsing is
/// deterministic, so the verdict is a function of the tokens alone.
#[verifier::external_body]
pub(crate) fn body_is_block(body: &Vec<Tok>) -> (r: bool)
    ensures
        r == is_stmt_block(body@),
{
    let mut grouped = TokenStream::new();
    grouped.extend([TokenTree::Group(Group::new(Delimiter::Brace, toks_stream(body)))]);
    syn::parse2::<syn::Block>(grouped).is_ok()
}

/// A valid parameter-list fragment, as it stands between the block's two
/// pipes: parameters separated by commas (a trailing comma is allowed), each
/// a name alone or a name, a colon and its type. A type's tokens run to the
/// next comma that stands outside angle brackets, and must be non-empty with
/// the angle brackets balanced.
pub open spec fn params_ok(ps: Seq<Tok>) -> bool {
    param_start(ps, 0)
}

/// A parameter, or the fragment's end, begins at `i`.
pub open spec fn param_start(ps: Seq<Tok>, i: int) -> bool
    decreases ps.len() - i,
{
    if i >= ps.len() {
        true
    } else if is_ident(ps[i]) {
        param_follow(ps, i + 1)
    } else {
        false
    }
}

/// What may follow a parameter's name at `i`: the fragment's end, a comma
/// before the next parameter, or a colon before the type.
pub open spec fn param_follow(ps: Seq<Tok>, i: int) -> bool
    decreases ps.len() - i,
{
    if i >= ps.len() {
        true
    } else if is_comma(ps[i]) {
        param_start(ps, i + 1)
    } else if is_colon(ps[i]) {
        param_type(ps, i + 1, 0, false)
    } else {
        false
    }
}

/// A type's tokens from `i` on: `depth` angle brackets stand open around
/// them, and `seen` says whether the type holds a token yet.
pub open spec fn param_type(ps: Seq<Tok>, i: int, depth: int, seen: bool) -> bool
    decreases ps.len() - i,
{
    if i >= ps.len() {
        seen && depth == 0
    } else if is_comma(ps[i]) && depth == 0 {
        seen && param_start(ps, i + 1)
    } else if is_lt(ps[i]) {
        param_type(ps, i + 1, depth + 1, true)
    } else if is_gt(ps[i]) {
        depth > 0 && param_type(ps, i + 1, depth - 1, true)
    } else {
        param_type(ps, i + 1, depth, true)
    }
}

/// Whether the tokens form a valid parameter-list fragment, decided in
/// executable code.
pub fn check_params(ps: &Vec<Tok>) -> (r: bool)
    ensures
        r == params_ok(ps@),
{
    check_param_start(ps, 0)
}

fn check_param_start(ps: &Vec<Tok>, i: usize) -> (r: bool)
    requires
        i <= ps@.len(),
    ensures
        r == param_start(ps@, i as int),
    decreases ps@.len() - i,
{
    if i >= ps.len() {
        true
    } else if tok_is_ident(&ps[i]) {
        check_param_follow(ps, i + 1)
    } else {
        false
    }
}

fn check_param_follow(ps: &Vec<Tok>, i: usize) -> (r: bool)
    requires
        i <= ps@.len(),
    ensures
        r == param_follow(ps@, i as int),
    decreases ps@.len() - i,
{
    if i >= ps.len() {
        true
    } else if tok_is_punct(&ps[i], ',') {
        check_param_start(ps, i + 1)
    } else if tok_is_punct(&ps[i], ':') {
        check_param_type(ps, i + 1, 0, false)
    } else {
        false
    }
}

fn check_param_type(ps: &Vec<Tok>, i: usize, depth: usize, seen: bool) -> (r: bool)
    requires
        i <= ps@.len(),
        depth <= i,
    ensures
        r == param_type(ps@, i as int, depth as int, seen),
    decreases ps@.len() - i,
{
    if i >= ps.len() {
        seen && depth == 0
    } else if tok_is_punct(&ps[i], ',') && depth == 0 {
        seen && check_param_start(ps, i + 1)
    } else if tok_is_punct(&ps[i], '<') {
        check_param_type(ps, i + 1, depth + 1, true)
    } else if tok_is_punct(&ps[i], '>') {
        depth > 0 && check_param_type(ps, i + 1, depth - 1, true)
    } else {
        check_param_type(ps, i + 1, depth, true)
    }
}

} // verus!
