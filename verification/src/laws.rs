use vstd::prelude::*;
use crate::token::{Tok, is_brace, is_paren, is_pipe, is_dot, is_comma, is_ident, group_toks,
    pipe_tok, comma_tok};
use crate::rewrite::{RewriteError, no_block, method_pat, call_ok, has_param_line, param_close,
    arg_sep, accepts, error_of, rewrite_ok, lemma_first_pipe_found};
use crate::validate::{is_call_expr, is_stmt_block, params_ok};

verus! {

/// Rewriting `f() { stmts }` — a plain call with no arguments whose block
/// opens no parameter list — yields `f(|| { stmts })`: the callee is kept
/// verbatim and the closure is the sole argument.
pub proof fn lemma_plain_call_no_args(callee: Seq<Tok>, argsg: Tok, blockg: Tok, out: Seq<Tok>)
    requires
        callee.len() >= 1,
        !is_dot(callee.last()),
        !method_pat(callee),
        is_paren(argsg),
        group_toks(argsg).len() == 0,
        is_call_expr(callee + seq![argsg]),
        is_brace(blockg),
        !has_param_line(group_toks(blockg)),
        is_stmt_block(group_toks(blockg)),
        rewrite_ok(callee + seq![argsg, blockg], out),
    ensures
        accepts(callee + seq![argsg, blockg]),
        out.len() == callee.len() + 1,
        out.drop_last() == callee,
        is_paren(out.last()),
        group_toks(out.last()).len() == 3,
        group_toks(out.last())[0] == pipe_tok(),
        group_toks(out.last())[1] == pipe_tok(),
        is_brace(group_toks(out.last())[2]),
        group_toks(group_toks(out.last())[2]) == group_toks(blockg),
{
    let ts = callee + seq![argsg, blockg];
    assert(ts.last() == blockg);
    assert(ts.drop_last() =~= callee + seq![argsg]);
    assert(ts.drop_last().drop_last() =~= callee);
    let na = group_toks(out.last());
    assert(na.drop_last() =~= seq![pipe_tok(), pipe_tok()]);
    assert(na[0] == na.drop_last()[0]);
    assert(na[1] == na.drop_last()[1]);
    assert(na[2] == na.last());
}

/// Rewriting `f(args…) { stmts }` — a plain call with arguments whose block
/// opens no parameter list — yields `f(args…, || { stmts })`: the callee and
/// every argument are kept verbatim and in order, and the closure is
/// appended after a separating comma.
pub proof fn lemma_plain_call_with_args(callee: Seq<Tok>, argsg: Tok, blockg: Tok, out: Seq<Tok>)
    requires
        callee.len() >= 1,
        !is_dot(callee.last()),
        !method_pat(callee),
        is_paren(argsg),
        group_toks(argsg).len() >= 1,
        !is_comma(group_toks(argsg).last()),
        is_call_expr(callee + seq![argsg]),
        is_brace(blockg),
        !has_param_line(group_toks(blockg)),
        is_stmt_block(group_toks(blockg)),
        rewrite_ok(callee + seq![argsg, blockg], out),
    ensures
        accepts(callee + seq![argsg, blockg]),
        out.len() == callee.len() + 1,
        out.drop_last() == callee,
        is_paren(out.last()),
        group_toks(out.last()).len() == group_toks(argsg).len() + 4,
        group_toks(out.last()).take(group_toks(argsg).len() as int) == group_toks(argsg),
        group_toks(out.last())[group_toks(argsg).len() as int] == comma_tok(),
        group_toks(out.last())[group_toks(argsg).len() as int + 1] == pipe_tok(),
        group_toks(out.last())[group_toks(argsg).len() as int + 2] == pipe_tok(),
        is_brace(group_toks(out.last()).last()),
        group_toks(group_toks(out.last()).last()) == group_toks(blockg),
{
    let ts = callee + seq![argsg, blockg];
    assert(ts.last() == blockg);
    assert(ts.drop_last() =~= callee + seq![argsg]);
    assert(ts.drop_last().drop_last() =~= callee);
    let args = group_toks(argsg);
    let na = group_toks(out.last());
    assert(na.drop_last() =~= args + seq![comma_tok()] + seq![pipe_tok(), pipe_tok()]);
    assert(na.take(args.len() as int) =~= args);
    assert(na[args.len() as int] == na.drop_last()[args.len() as int]);
    assert(na[args.len() as int + 1] == na.drop_last()[args.len() as int + 1]);
    assert(na[args.len() as int + 2] == na.drop_last()[args.len() as int + 2]);
}

/// Rewriting `recv.m(args…) { stmts }` — a method call whose block opens no
/// parameter list — yields `recv.m(args…, || { stmts })`, mirroring the
/// plain-call case: receiver, dot and method name are kept verbatim, the
/// arguments keep their order, and the closure comes last.
pub proof fn lemma_method_call(recv: Seq<Tok>, dot: Tok, m: Tok, argsg: Tok, blockg: Tok,
    out: Seq<Tok>)
    requires
        recv.len() >= 1,
        is_dot(dot),
        is_ident(m),
        is_paren(argsg),
        is_call_expr(recv + seq![dot, m, argsg]),
        is_brace(blockg),
        !has_param_line(group_toks(blockg)),
        is_stmt_block(group_toks(blockg)),
        rewrite_ok(recv + seq![dot, m, argsg, blockg], out),
    ensures
        accepts(recv + seq![dot, m, argsg, blockg]),
        out.len() == recv.len() + 3,
        out.drop_last() == recv + seq![dot, m],
        is_paren(out.last()),
        group_toks(out.last()).drop_last() == group_toks(argsg) + arg_sep(group_toks(argsg))
            + seq![pipe_tok(), pipe_tok()],
        is_brace(group_toks(out.last()).last()),
        group_toks(group_toks(out.last()).last()) == group_toks(blockg),
{
    let ts = recv + seq![dot, m, argsg, blockg];
    assert(ts.last() == blockg);
    assert(ts.drop_last() =~= recv + seq![dot, m, argsg]);
    assert(ts.drop_last().drop_last() =~= recv + seq![dot, m]);
    let h = recv + seq![dot, m];
    assert(h[h.len() - 2] == dot);
    assert(h.last() == m);
}

/// When the block's first line opens a parameter list — `{ |params| rest }`,
/// the parameters untyped or typed exactly as written — the rewritten
/// closure's head is that parameter list verbatim, both pipes included, and
/// the closure's body is everything after the closing pipe, in the original
/// order.
pub proof fn lemma_param_line(head: Seq<Tok>, open_pipe: Tok, params: Seq<Tok>, close_pipe: Tok,
    rest: Seq<Tok>, blockg: Tok, out: Seq<Tok>)
    requires
        call_ok(head),
        is_call_expr(head),
        is_pipe(open_pipe),
        is_pipe(close_pipe),
        forall|k: int| 0 <= k < params.len() ==> !is_pipe(params[k]),
        params_ok(params),
        is_brace(blockg),
        group_toks(blockg) == seq![open_pipe] + params + seq![close_pipe] + rest,
        is_stmt_block(rest),
        rewrite_ok(head + seq![blockg], out),
    ensures
        accepts(head + seq![blockg]),
        out.len() == head.len(),
        out.drop_last() == head.drop_last(),
        is_paren(out.last()),
        group_toks(out.last()).drop_last() == group_toks(head.last())
            + arg_sep(group_toks(head.last())) + (seq![open_pipe] + params + seq![close_pipe]),
        is_brace(group_toks(out.last()).last()),
        group_toks(group_toks(out.last()).last()) == rest,
{
    let ts = head + seq![blockg];
    assert(ts.last() == blockg);
    assert(ts.drop_last() =~= head);
    let body = group_toks(blockg);
    let close: int = params.len() as int + 1;
    assert(body[0] == open_pipe);
    assert(body[close] == close_pipe);
    assert(forall|k: int| 1 <= k < close ==> body[k] == params[k - 1] && !is_pipe(body[k]));
    lemma_first_pipe_found(body, 1, close);
    assert(param_close(body) == close);
    assert(body.subrange(1, close) =~= params);
    assert(body.take(close + 1) =~= seq![open_pipe] + params + seq![close_pipe]);
    assert(body.skip(close + 1) =~= rest);
}

/// An input with no top-level brace group anywhere is refused with
/// `MissingBlock`: there is no degraded output.
pub proof fn lemma_missing_block(ts: Seq<Tok>)
    requires
        no_block(ts),
    ensures
        !accepts(ts),
        error_of(ts) == RewriteError::MissingBlock,
{
    if ts.len() >= 1 {
        assert(!is_brace(ts[ts.len() - 1]));
    }
}

} // verus!
