use vstd::prelude::*;

verus! {

/// The kind of a resolved value, as named in conversion errors.
#[derive(Debug, Clone, Copy, PartialEq, Eq, Structural)]
pub enum ValueKind {
    Binding,
    Snippets,
    List,
    StrMap,
    File,
    Files,
    Constant,
}

/// The form a conversion was asked to produce.
#[derive(Debug, Clone, Copy, PartialEq, Eq, Structural)]
pub enum ConversionTarget {
    Snippets,
    Text,
}

/// A failure of resolved-value evaluation. Every failure is terminal for the
/// current evaluation subtree and propagates to the caller unchanged.
#[derive(Debug)]
pub enum EvalError {
    /// A variable was read that holds neither a cached value nor a deferred
    /// pattern; carries the variable's name.
    UnresolvedVariable(String),
    /// A value of the given kind cannot be turned into the requested form.
    UnsupportedConversion { from: ValueKind, to: ConversionTarget },
    /// The value cannot be coerced to a number.
    NotNumeric,
    /// A binding chain was empty where a binding was needed.
    MissingBinding,
    /// A predicate-only pattern kind was evaluated as a value; carries the
    /// kind's name.
    UnsupportedPatternKind(String),
    /// An accessor or list index was applied to a value of the wrong shape;
    /// carries a description of the misuse.
    MalformedAccess(&'static str),
}

/// The mathematical model of an evaluation failure.
pub enum EvalErrorV {
    UnresolvedVariable(Seq<char>),
    UnsupportedConversion { from: ValueKind, to: ConversionTarget },
    NotNumeric,
    MissingBinding,
    UnsupportedPatternKind(Seq<char>),
    MalformedAccess(Seq<char>),
}

impl DeepView for EvalError {
    type V = EvalErrorV;

    open spec fn deep_view(&self) -> EvalErrorV {
        match self {
            EvalError::UnresolvedVariable(n) => EvalErrorV::UnresolvedVariable(n@),
            EvalError::UnsupportedConversion { from, to } => (EvalErrorV::UnsupportedConversion {
                from: *from,
                to: *to,
            }),
            EvalError::NotNumeric => EvalErrorV::NotNumeric,
            EvalError::MissingBinding => EvalErrorV::MissingBinding,
            EvalError::UnsupportedPatternKind(n) => EvalErrorV::UnsupportedPatternKind(n@),
            EvalError::MalformedAccess(m) => EvalErrorV::MalformedAccess(m@),
        }
    }
}

} // verus!
