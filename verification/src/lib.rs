//! A source-to-source rewriting engine for trailing-closure sugar.
//!
//! Given the tokens of a call expression immediately followed by a
//! brace-delimited block, the library rewrites the pair into a single call
//! whose last argument is a closure built from the block. The block may open
//! with a pipe-delimited parameter list (`|x, y: T|`), which then becomes the
//! closure's parameter clause; otherwise the closure takes no parameters.
//!
//! The library works on its own token model ([`token::Tok`]); turning a
//! compiler's token stream into that model and back is left to the caller.

pub mod token;

pub mod validate;

pub mod rewrite;

pub mod laws;
