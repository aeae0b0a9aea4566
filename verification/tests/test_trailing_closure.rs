use trailing_closure::rewrite::rewrite;
use trailing_closure::token::{Delim, Tok};

fn ident(s: &str) -> Tok {
    Tok::Ident(s.to_string())
}

fn punct(c: char) -> Tok {
    Tok::Punct(c, false)
}

fn lit(s: &str) -> Tok {
    Tok::Lit(s.to_string())
}

fn paren(ts: Vec<Tok>) -> Tok {
    Tok::Group(Delim::Paren, ts)
}

fn brace(ts: Vec<Tok>) -> Tok {
    Tok::Group(Delim::Brace, ts)
}

fn takes_closure(f: impl FnOnce()) {
    f();
}

struct TestStruct;

impl TestStruct {
    fn method_with_closure(&self, f: impl FnOnce()) {
        f();
    }
}

fn function_with_args(x: i32, f: impl FnOnce()) {
    assert_eq!(x, 10);
    f();
}

fn higher_order(f: impl Fn(i32, &str) -> String) -> String {
    f(42, "test")
}

// The tokens of `|num: i32, text: &str|`.
fn typed_params() -> Vec<Tok> {
    vec![
        punct('|'),
        ident("num"),
        punct(':'),
        ident("i32"),
        punct(','),
        ident("text"),
        punct(':'),
        punct('&'),
        ident("str"),
        punct('|'),
    ]
}

// The tokens of `|num, text|`.
fn untyped_params() -> Vec<Tok> {
    vec![punct('|'), ident("num"), punct(','), ident("text"), punct('|')]
}

// The tokens of `format!("Number: {}, Text: {}", num, text)`.
fn format_call() -> Vec<Tok> {
    vec![
        ident("format"),
        punct('!'),
        paren(vec![
            lit("\"Number: {}, Text: {}\""),
            punct(','),
            ident("num"),
            punct(','),
            ident("text"),
        ]),
    ]
}

// `takes_closure() { value = 42; }` becomes `takes_closure(|| { value = 42; })`,
// and running the rewritten call sets the value.
#[test]
fn test_function_call() {
    let mut value = 0;

    let input = vec![
        ident("takes_closure"),
        paren(vec![]),
        brace(vec![ident("value"), punct('='), lit("42"), punct(';')]),
    ];
    let out = rewrite(input).unwrap();
    let expected = vec![
        ident("takes_closure"),
        paren(vec![
            punct('|'),
            punct('|'),
            brace(vec![ident("value"), punct('='), lit("42"), punct(';')]),
        ]),
    ];
    assert_eq!(out, expected);

    takes_closure(|| {
        value = 42;
    });
    assert_eq!(value, 42);
}

// `test_struct.method_with_closure() { value = 42; }` becomes
// `test_struct.method_with_closure(|| { value = 42; })`.
#[test]
fn test_method_call() {
    let mut value = 0;
    let test_struct = TestStruct;

    let input = vec![
        ident("test_struct"),
        punct('.'),
        ident("method_with_closure"),
        paren(vec![]),
        brace(vec![ident("value"), punct('='), lit("42"), punct(';')]),
    ];
    let out = rewrite(input).unwrap();
    let expected = vec![
        ident("test_struct"),
        punct('.'),
        ident("method_with_closure"),
        paren(vec![
            punct('|'),
            punct('|'),
            brace(vec![ident("value"), punct('='), lit("42"), punct(';')]),
        ]),
    ];
    assert_eq!(out, expected);

    test_struct.method_with_closure(|| {
        value = 42;
    });
    assert_eq!(value, 42);
}

// `function_with_args(10) { value = 42; }` becomes
// `function_with_args(10, || { value = 42; })`: the argument is kept and the
// closure is appended after a comma.
#[test]
fn test_with_arguments() {
    let mut value = 0;

    let input = vec![
        ident("function_with_args"),
        paren(vec![lit("10")]),
        brace(vec![ident("value"), punct('='), lit("42"), punct(';')]),
    ];
    let out = rewrite(input).unwrap();
    let expected = vec![
        ident("function_with_args"),
        paren(vec![
            lit("10"),
            punct(','),
            punct('|'),
            punct('|'),
            brace(vec![ident("value"), punct('='), lit("42"), punct(';')]),
        ]),
    ];
    assert_eq!(out, expected);

    function_with_args(10, || {
        value = 42;
    });
    assert_eq!(value, 42);
}

// A block whose first line is a typed parameter list: the pipes and the
// parameters move verbatim into the closure's head, the rest of the line
// becomes the closure's body.
#[test]
fn test_closure_with_parameters() {
    let mut block = typed_params();
    block.extend(format_call());

    let input = vec![ident("higher_order"), paren(vec![]), brace(block)];
    let out = rewrite(input).unwrap();
    let mut new_args = typed_params();
    new_args.push(brace(format_call()));
    let expected = vec![ident("higher_order"), paren(new_args)];
    assert_eq!(out, expected);

    let result = higher_order(|num: i32, text: &str| format!("Number: {}, Text: {}", num, text));
    assert_eq!(result, "Number: 42, Text: test");
}

// The same with untyped parameters: `|num, text|` is kept exactly as written.
#[test]
fn test_closure_with_parameters_no_types() {
    let mut block = untyped_params();
    block.extend(format_call());

    let input = vec![ident("higher_order"), paren(vec![]), brace(block)];
    let out = rewrite(input).unwrap();
    let mut new_args = untyped_params();
    new_args.push(brace(format_call()));
    let expected = vec![ident("higher_order"), paren(new_args)];
    assert_eq!(out, expected);

    let result = higher_order(|num, text| format!("Number: {}, Text: {}", num, text));
    assert_eq!(result, "Number: 42, Text: test");
}
