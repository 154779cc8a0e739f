//! The closed set of failures of an execution. One failure ends it.

use crate::format::binary_format::Capability;
use vstd::prelude::*;

verus! {

/// What a runtime error holds.
pub enum RuntimeErrorView {
    TypeMismatch { expected: Seq<char>, actual: Seq<char> },
    InvalidOperation(Seq<char>),
    UnknownOpcode(u16),
    StackUnderflow,
    InvalidNodeRef(u32),
    DivisionByZero,
    InvalidArgCount { expected: usize, actual: usize },
    MissingCapability(Capability),
    InvalidConstantIndex(u32),
    ArrayIndexOutOfBounds { index: usize, length: usize },
    MapKeyNotFound(Seq<char>),
    StackOverflow,
    IOError(Seq<char>),
    ExternalCallFailed(Seq<char>),
    ProofVerificationFailed(Seq<char>),
}

/// Why an execution, or an operation of the runtime, failed.
#[derive(Debug)]
pub enum RuntimeError {
    /// An operand is of a kind that the operation does not take.
    TypeMismatch { expected: String, actual: String },
    /// The operation cannot be done; the message says why. Also what a
    /// reserved opcode without a handler gives.
    InvalidOperation(String),
    /// The node's opcode is the code of no operation.
    UnknownOpcode(u16),
    StackUnderflow,
    /// The id names neither a memoized value nor a node.
    InvalidNodeRef(u32),
    DivisionByZero,
    /// The node has fewer operands than the operation reads.
    InvalidArgCount { expected: usize, actual: usize },
    MissingCapability(Capability),
    /// The constant pool has nothing at the index.
    InvalidConstantIndex(u32),
    ArrayIndexOutOfBounds { index: usize, length: usize },
    MapKeyNotFound(String),
    /// The call stack is as deep as the limit allows.
    StackOverflow,
    IOError(String),
    ExternalCallFailed(String),
    ProofVerificationFailed(String),
}

impl View for RuntimeError {
    type V = RuntimeErrorView;

    open spec fn view(&self) -> RuntimeErrorView {
        match self {
            RuntimeError::TypeMismatch { expected, actual } => RuntimeErrorView::TypeMismatch {
                expected: expected@,
                actual: actual@,
            },
            RuntimeError::InvalidOperation(m) => RuntimeErrorView::InvalidOperation(m@),
            RuntimeError::UnknownOpcode(c) => RuntimeErrorView::UnknownOpcode(*c),
            RuntimeError::StackUnderflow => RuntimeErrorView::StackUnderflow,
            RuntimeError::InvalidNodeRef(id) => RuntimeErrorView::InvalidNodeRef(*id),
            RuntimeError::DivisionByZero => RuntimeErrorView::DivisionByZero,
            RuntimeError::InvalidArgCount { expected, actual } => {
                RuntimeErrorView::InvalidArgCount { expected: *expected, actual: *actual }
            },
            RuntimeError::MissingCapability(c) => RuntimeErrorView::MissingCapability(*c),
            RuntimeError::InvalidConstantIndex(i) => RuntimeErrorView::InvalidConstantIndex(*i),
            RuntimeError::ArrayIndexOutOfBounds { index, length } => {
                RuntimeErrorView::ArrayIndexOutOfBounds { index: *index, length: *length }
            },
            RuntimeError::MapKeyNotFound(k) => RuntimeErrorView::MapKeyNotFound(k@),
            RuntimeError::StackOverflow => RuntimeErrorView::StackOverflow,
            RuntimeError::IOError(m) => RuntimeErrorView::IOError(m@),
            RuntimeError::ExternalCallFailed(m) => RuntimeErrorView::ExternalCallFailed(m@),
            RuntimeError::ProofVerificationFailed(m) => RuntimeErrorView::ProofVerificationFailed(
                m@,
            ),
        }
    }
}

impl Clone for RuntimeError {
    fn clone(&self) -> (copy: RuntimeError)
        ensures
            copy@ == self@,
    {
        match self {
            RuntimeError::TypeMismatch { expected, actual } => RuntimeError::TypeMismatch {
                expected: expected.clone(),
                actual: actual.clone(),
            },
            RuntimeError::InvalidOperation(m) => RuntimeError::InvalidOperation(m.clone()),
            RuntimeError::UnknownOpcode(c) => RuntimeError::UnknownOpcode(*c),
            RuntimeError::StackUnderflow => RuntimeError::StackUnderflow,
            RuntimeError::InvalidNodeRef(id) => RuntimeError::InvalidNodeRef(*id),
            RuntimeError::DivisionByZero => RuntimeError::DivisionByZero,
            RuntimeError::InvalidArgCount { expected, actual } => RuntimeError::InvalidArgCount {
                expected: *expected,
                actual: *actual,
            },
            RuntimeError::MissingCapability(c) => RuntimeError::MissingCapability(*c),
            RuntimeError::InvalidConstantIndex(i) => RuntimeError::InvalidConstantIndex(*i),
            RuntimeError::ArrayIndexOutOfBounds { index, length } => {
                RuntimeError::ArrayIndexOutOfBounds { index: *index, length: *length }
            },
            RuntimeError::MapKeyNotFound(k) => RuntimeError::MapKeyNotFound(k.clone()),
            RuntimeError::StackOverflow => RuntimeError::StackOverflow,
            RuntimeError::IOError(m) => RuntimeError::IOError(m.clone()),
            RuntimeError::ExternalCallFailed(m) => RuntimeError::ExternalCallFailed(m.clone()),
            RuntimeError::ProofVerificationFailed(m) => RuntimeError::ProofVerificationFailed(
                m.clone(),
            ),
        }
    }
}

} // verus!
