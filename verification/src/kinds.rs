//! The kinds of a small expression and item grammar.

use vstd::prelude::*;
use crate::SyntaxKind;

verus! {

// Nodes
pub const FN: SyntaxKind = 1;

pub const FN_KW: SyntaxKind = 2;

pub const PARAM_LIST: SyntaxKind = 5;

pub const BIN_EXPR: SyntaxKind = 4;

pub const FIELD: SyntaxKind = 6;

pub const TYPE: SyntaxKind = 7;

pub const STRUCT_KW: SyntaxKind = 8;

pub const STRUCT: SyntaxKind = 9;

// Tokens
pub const WHITESPACE: SyntaxKind = 99;

pub const IDENT: SyntaxKind = 100;

pub const NAME: SyntaxKind = 101;

pub const INT: SyntaxKind = 102;

pub const PLUS: SyntaxKind = 103;

pub const STAR: SyntaxKind = 104;

pub const COLON: SyntaxKind = 105;

pub const COMMA: SyntaxKind = 106;

pub const L_CURLY: SyntaxKind = 107;

pub const R_CURLY: SyntaxKind = 108;

} // verus!
