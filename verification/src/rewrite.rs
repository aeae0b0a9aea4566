use vstd::prelude::*;
use vstd::pervasive::unreached;
use crate::token::{Tok, Delim, is_brace, is_paren, is_pipe, is_dot, is_comma, is_ident,
    group_toks, pipe_tok, comma_tok, tok_is_brace, tok_is_punct, tok_is_ident};
use crate::validate::{is_call_expr, is_stmt_block, params_ok, head_is_call, body_is_block,
    check_params};

verus! {

/// Why an input was refused.
#[derive(Debug, Clone, Copy, PartialEq, Eq, Structural)]
pub enum RewriteError {
    /// No top-level brace group anywhere in the input: there is no block to
    /// turn into a closure.
    MissingBlock,
    /// Tokens follow the trailing block, or what would become the closure's
    /// body does not parse as a statement block.
    BlockParseFailure,
    /// The tokens before the block do not parse as exactly a plain call or a
    /// method call.
    UnsupportedCallShape,
    /// The block opens a pipe-delimited parameter list that is never closed,
    /// or what stands between the pipes is not a parameter list.
    ParameterFragmentUnparseable,
}

/// No top-level brace group anywhere in the tokens.
pub open spec fn no_block(ts: Seq<Tok>) -> bool {
    forall|i: int| 0 <= i < ts.len() ==> !is_brace(ts[i])
}

/// The method-call pattern: the tokens before the argument list end in a dot
/// followed by the method's name.
pub open spec fn method_pat(h: Seq<Tok>) -> bool {
    h.len() >= 2 && is_dot(h[h.len() - 2]) && is_ident(h.last())
}

/// The tokens before the argument list name something that can be called:
/// they are non-empty, do not end in a dot, and if they end in `. name`
/// (a method call) there is a receiver before the dot.
pub open spec fn callee_ok(h: Seq<Tok>) -> bool {
    &&& h.len() >= 1
    &&& !is_dot(h.last())
    &&& (method_pat(h) ==> h.len() >= 3)
}

/// The call side: a callee followed by a parenthesized argument list.
pub open spec fn call_ok(head: Seq<Tok>) -> bool {
    &&& head.len() >= 2
    &&& is_paren(head.last())
    &&& callee_ok(head.drop_last())
}

/// The block opens with a parameter list: its first token is a pipe.
pub open spec fn has_param_line(body: Seq<Tok>) -> bool {
    body.len() > 0 && is_pipe(body[0])
}

/// The index of the first pipe token at or after position `i`, or -1 if
/// there is none.
pub open spec fn first_pipe_from(body: Seq<Tok>, i: int) -> int
    decreases body.len() - i,
{
    if i < 0 || i >= body.len() {
        -1
    } else if is_pipe(body[i]) {
        i
    } else {
        first_pipe_from(body, i + 1)
    }
}

/// The index of the pipe that closes the block's parameter list, or -1.
pub open spec fn param_close(body: Seq<Tok>) -> int {
    first_pipe_from(body, 1)
}

/// A block that opens a parameter list must also close it, and what stands
/// between the pipes must be a valid parameter-list fragment.
pub open spec fn block_ok(body: Seq<Tok>) -> bool {
    has_param_line(body) ==> {
        &&& param_close(body) >= 0
        &&& params_ok(body.subrange(1, param_close(body)))
    }
}

/// The head of the rewritten closure: the block's own parameter list with
/// both pipes, exactly as written, or a freshly written empty `||` when the
/// block opens with no parameter list.
pub open spec fn closure_head(body: Seq<Tok>) -> Seq<Tok> {
    if has_param_line(body) {
        body.take(param_close(body) + 1)
    } else {
        seq![pipe_tok(), pipe_tok()]
    }
}

/// The body of the rewritten closure: the block minus its parameter list,
/// in the original order.
pub open spec fn closure_body(body: Seq<Tok>) -> Seq<Tok> {
    if has_param_line(body) {
        body.skip(param_close(body) + 1)
    } else {
        body
    }
}

/// The comma written between the last original argument and the closure;
/// empty when there are no arguments or the argument list already ends in
/// a comma.
pub open spec fn arg_sep(args: Seq<Tok>) -> Seq<Tok> {
    if args.len() == 0 || is_comma(args.last()) {
        Seq::empty()
    } else {
        seq![comma_tok()]
    }
}

/// The rewritten argument list up to, but not including, the closure's
/// brace-delimited body: the original arguments, the separating comma if
/// one is owed, and the closure's head.
pub open spec fn new_args_head(args: Seq<Tok>, body: Seq<Tok>) -> Seq<Tok> {
    args + arg_sep(args) + closure_head(body)
}

/// The inputs on which rewriting succeeds: the input ends with the block;
/// the tokens before it have a call's shape and parse as exactly a plain
/// call or a method call; the block's parameter list, if it opens one, is
/// closed and valid; and what becomes the closure's body parses as a
/// statement block.
pub open spec fn accepts(ts: Seq<Tok>) -> bool {
    &&& ts.len() >= 1
    &&& is_brace(ts.last())
    &&& call_ok(ts.drop_last())
    &&& is_call_expr(ts.drop_last())
    &&& block_ok(group_toks(ts.last()))
    &&& is_stmt_block(closure_body(group_toks(ts.last())))
}

/// The error owed for a refused input.
pub open spec fn error_of(ts: Seq<Tok>) -> RewriteError
    recommends
        !accepts(ts),
{
    if no_block(ts) {
        RewriteError::MissingBlock
    } else if !is_brace(ts.last()) {
        RewriteError::BlockParseFailure
    } else if !(call_ok(ts.drop_last()) && is_call_expr(ts.drop_last())) {
        RewriteError::UnsupportedCallShape
    } else if !block_ok(group_toks(ts.last())) {
        RewriteError::ParameterFragmentUnparseable
    } else {
        RewriteError::BlockParseFailure
    }
}

/// How the rewritten argument list `na` relates to the original arguments
/// and the block's body: the original arguments first, in order, then the
/// separating comma if one is owed, then the closure — its head followed by
/// one brace group holding the closure's body.
pub open spec fn splice_ok(args: Seq<Tok>, body: Seq<Tok>, na: Seq<Tok>) -> bool {
    &&& na.len() == new_args_head(args, body).len() + 1
    &&& na.drop_last() == new_args_head(args, body)
    &&& is_brace(na.last())
    &&& group_toks(na.last()) == closure_body(body)
}

/// How the output of a successful rewrite relates to the input: everything
/// before the input's argument list — the plain callee, or the receiver,
/// dot and method name — is kept verbatim, and the one token after it is a
/// parenthesized argument list related to the original arguments and the
/// block by [`splice_ok`].
pub open spec fn rewrite_ok(ts: Seq<Tok>, out: Seq<Tok>) -> bool
    recommends
        accepts(ts),
{
    let head = ts.drop_last();
    let callee = head.drop_last();
    let args = group_toks(head.last());
    let body = group_toks(ts.last());
    &&& out.len() == callee.len() + 1
    &&& out.drop_last() == callee
    &&& is_paren(out.last())
    &&& splice_ok(args, body, group_toks(out.last()))
}

pub(crate) proof fn lemma_first_pipe_found(body: Seq<Tok>, i: int, j: int)
    requires
        0 <= i <= j < body.len(),
        is_pipe(body[j]),
        forall|k: int| i <= k < j ==> !is_pipe(body[k]),
    ensures
        first_pipe_from(body, i) == j,
    decreases j - i,
{
    if i < j {
        lemma_first_pipe_found(body, i + 1, j);
    }
}

proof fn lemma_first_pipe_absent(body: Seq<Tok>, i: int)
    requires
        0 <= i,
        forall|k: int| i <= k < body.len() ==> !is_pipe(body[k]),
    ensures
        first_pipe_from(body, i) == -1,
    decreases body.len() - i,
{
    if i < body.len() {
        lemma_first_pipe_absent(body, i + 1);
    }
}

/// The index of the pipe that closes the parameter list opened at the
/// block's first token, if there is one.
fn find_param_close(body: &Vec<Tok>) -> (r: Option<usize>)
    ensures
        r matches Some(j) ==> param_close(body@) == j && 1 <= j < body@.len(),
        r is None ==> param_close(body@) == -1,
{
    let n: usize = body.len();
    let mut j: usize = 1;
    while j < n
        invariant
            1 <= j,
            n == body@.len(),
            forall|k: int| 1 <= k < j ==> !is_pipe(body@[k]),
        decreases n - j,
    {
        if tok_is_punct(&body[j], '|') {
            proof {
                lemma_first_pipe_found(body@, 1, j as int);
            }
            return Some(j);
        }
        j += 1;
    }
    proof {
        lemma_first_pipe_absent(body@, 1);
    }
    None
}

/// Rewrites the tokens of `call { block }` into the tokens of a single call
/// whose last argument is a closure built from the block.
///
/// On success the output is the input's call with the block spliced into
/// its argument list ([`rewrite_ok`]); the rewrite succeeds exactly on the
/// inputs [`accepts`] describes, and a refused input earns the one error
/// [`error_of`] names for it.
pub fn rewrite(input: Vec<Tok>) -> (r: Result<Vec<Tok>, RewriteError>)
    ensures
        r is Ok <==> accepts(input@),
        r matches Ok(out) ==> rewrite_ok(input@, out@),
        r matches Err(e) ==> e == error_of(input@),
{
    let n: usize = input.len();
    if n == 0 {
        return Err(RewriteError::MissingBlock);
    }
    if !tok_is_brace(&input[n - 1]) {
        let mut i: usize = 0;
        while i < n
            invariant
                n == input@.len(),
                1 <= n,
                !is_brace(input@[n - 1]),
                forall|k: int| 0 <= k < i ==> !is_brace(input@[k]),
            decreases n - i,
        {
            if tok_is_brace(&input[i]) {
                return Err(RewriteError::BlockParseFailure);
            }
            i += 1;
        }
        return Err(RewriteError::MissingBlock);
    }
    proof {
        assert(is_brace(input@[n - 1]));
        assert(!no_block(input@));
    }

    let mut head = input;
    let block_tok = head.pop().unwrap();
    let body = match block_tok {
        Tok::Group(_, ts) => ts,
        _ => unreached(),
    };
    // head@ == input@.drop_last(); body@ == group_toks(input@.last())

    if head.len() == 0 {
        return Err(RewriteError::UnsupportedCallShape);
    }
    if !head_is_call(&head) {
        return Err(RewriteError::UnsupportedCallShape);
    }
    let args_tok = head.pop().unwrap();
    let mut args = match args_tok {
        Tok::Group(Delim::Paren, ts) => ts,
        _ => {
            return Err(RewriteError::UnsupportedCallShape);
        },
    };
    // head@ is now the callee (or receiver, dot and method name)

    let hn: usize = head.len();
    if hn == 0 {
        return Err(RewriteError::UnsupportedCallShape);
    }
    if tok_is_punct(&head[hn - 1], '.') {
        return Err(RewriteError::UnsupportedCallShape);
    }
    if hn == 2 && tok_is_punct(&head[0], '.') && tok_is_ident(&head[1]) {
        return Err(RewriteError::UnsupportedCallShape);
    }
    proof {
        assert(callee_ok(head@));
        assert(call_ok(input@.drop_last()));
    }

    let (mut head_of_closure, body_of_closure) = if body.len() > 0 && tok_is_punct(&body[0], '|') {
        let mut prefix = body;
        match find_param_close(&prefix) {
            Some(j) => {
                let rest = prefix.split_off(j + 1);
                let close_tok = prefix.pop().unwrap();
                let mut params = prefix.split_off(1);
                proof {
                    assert(params@ =~= group_toks(input@.last()).subrange(1, j as int));
                }
                if !check_params(&params) {
                    return Err(RewriteError::ParameterFragmentUnparseable);
                }
                prefix.append(&mut params);
                prefix.push(close_tok);
                proof {
                    assert(prefix@ =~= group_toks(input@.last()).take(j as int + 1));
                    assert(prefix@ == closure_head(group_toks(input@.last())));
                    assert(rest@ == closure_body(group_toks(input@.last())));
                }
                (prefix, rest)
            },
            None => {
                return Err(RewriteError::ParameterFragmentUnparseable);
            },
        }
    } else {
        let mut pipes: Vec<Tok> = Vec::new();
        pipes.push(Tok::Punct('|', false));
        pipes.push(Tok::Punct('|', false));
        proof {
            assert(pipes@ =~= closure_head(group_toks(input@.last())));
        }
        (pipes, body)
    };

    if !body_is_block(&body_of_closure) {
        return Err(RewriteError::BlockParseFailure);
    }

    let an: usize = args.len();
    if an > 0 && !tok_is_punct(&args[an - 1], ',') {
        args.push(Tok::Punct(',', false));
    }
    proof {
        assert(args@ =~= group_toks(input@.drop_last().last())
            + arg_sep(group_toks(input@.drop_last().last())));
    }
    args.append(&mut head_of_closure);
    args.push(Tok::Group(Delim::Brace, body_of_closure));
    proof {
        assert(args@.drop_last() =~= new_args_head(
            group_toks(input@.drop_last().last()),
            group_toks(input@.last()),
        ));
    }

    head.push(Tok::Group(Delim::Paren, args));
    proof {
        assert(head@.drop_last() =~= input@.drop_last().drop_last());
    }
    Ok(head)
}

} // verus!
