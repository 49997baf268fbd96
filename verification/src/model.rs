//! The in-memory instruction-set model the generator works on.
//!
//! Every entity is a plain value: names are already resolved to strings,
//! disassembly expressions are flat postfix element sequences.  The model
//! is immutable for the duration of one generation pass.

use vstd::prelude::*;

verus! {

/// A binary operator of the disassembly sub-language.
#[derive(Clone, Copy, Debug, PartialEq, Eq, Structural)]
pub enum Op {
    Add,
    Sub,
    Mul,
    Div,
    And,
    Or,
    Xor,
    Asr,
    Lsl,
}

/// A unary operator of the disassembly sub-language.
#[derive(Clone, Copy, Debug, PartialEq, Eq, Structural)]
pub enum OpUnary {
    /// Arithmetic negation, rendered `-`.
    Negation,
    /// Bitwise complement, rendered `~`.
    Negative,
}

/// A comparison operator of a pattern verification.
#[derive(Clone, Copy, Debug, PartialEq, Eq, Structural)]
pub enum CmpOp {
    Eq,
    Ne,
    Lt,
    Gt,
    Le,
    Ge,
}

/// A signed integer literal, kept as sign plus magnitude.
#[derive(Clone, Copy, Debug, PartialEq, Eq, Structural)]
pub enum Number {
    Positive(u64),
    Negative(u64),
}

/// The value kinds a disassembly expression may read.
///
/// Only `Integer` has a rendering rule; the remaining kinds are a closed
/// set of deliberately unsupported reads that must fail loudly.
#[derive(Clone, Copy, Debug, PartialEq, Eq, Structural)]
pub enum ReadValue {
    Integer(Number),
    Context,
    TokenField,
    InstStart,
    InstNext,
    Local,
}

/// One element of a flat postfix disassembly expression.
#[derive(Clone, Copy, Debug, PartialEq, Eq, Structural)]
pub enum ExprElement {
    Value(ReadValue),
    Op(Op),
    OpUnary(OpUnary),
}

/// One atomic guard condition of a pattern block.
#[derive(Clone, Debug)]
pub enum Verification {
    /// A context-register check: recognized but not translated.
    ContextCheck,
    /// A sub-table build, optionally followed by a comparison with a
    /// postfix value expression.
    TableBuild { name: String, comparison: Option<(CmpOp, Vec<ExprElement>)> },
    /// A token-field check against a postfix value expression.
    TokenFieldCheck { name: String, op: CmpOp, value: Vec<ExprElement> },
    /// A sub-pattern recursion: recognized but not translated.
    SubPattern,
}

/// A group of verifications within a constructor's pattern.
#[derive(Clone, Debug)]
pub enum Block {
    /// A conjunctive block: its verifications are joined by `&&`.
    And { verifications: Vec<Verification> },
    /// A disjunctive block: recognized but unsupported, it contributes
    /// nothing to the emitted condition.
    Or,
}

/// One element of a constructor's display template.
#[derive(Clone, Debug)]
pub enum DisplayElement {
    /// A reference to a sub-table, by name.
    Table(String),
    /// A reference to a token field, by name.
    TokenField(String),
    /// Literal text.
    Literal(String),
    /// A single space.
    Space,
    /// Any other element kind, carried as pre-rendered fallback text.
    Other(String),
}

/// A constructor's display template: an optional mnemonic plus the
/// ordered display elements (whose first element stands for the mnemonic
/// itself and is skipped when building the operand directive).
#[derive(Clone, Debug)]
pub struct Display {
    pub mnemonic: Option<String>,
    pub elements: Vec<DisplayElement>,
}

/// One encoding variant of an instruction: a pattern (ordered blocks)
/// plus a display template.
#[derive(Clone, Debug)]
pub struct Constructor {
    pub display: Display,
    pub blocks: Vec<Block>,
}

/// The fatal error kinds of the generator.
///
/// Untranslated verification kinds are not errors: they surface as
/// placeholders in the emitted text (see `codegen::VerifCode`), and an
/// unknown identifier falls back to identity mapping by design.
#[derive(Clone, Copy, Debug, PartialEq, Eq, Structural)]
pub enum GenError {
    /// Postfix reconstruction left the stack in an invalid final state.
    MalformedExpression,
    /// A disassembly value of a kind with no rendering rule.
    UnsupportedValueKind,
    /// The requested mnemonic set does not match the constructor count.
    SelectionMismatch,
}

} // verus!
