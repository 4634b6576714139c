use vstd::prelude::*;

verus! {

/// A failure raised while a script runs.
#[derive(Debug, PartialEq, Eq)]
pub enum SandboxExecutionError {
    /// The fuel budget ran out.
    Timeout,
    /// A variable was read that no scope binds.
    ReferenceNotExist(String),
    /// An integer was divided by zero.
    DivideByZero,
    /// No registered implementation accepts the operand types.
    UnsupportedOperator,
}

/// The mathematical form of a `SandboxExecutionError`.
pub enum Fault {
    Timeout,
    ReferenceNotExist(Seq<char>),
    DivideByZero,
    UnsupportedOperator,
}

impl View for SandboxExecutionError {
    type V = Fault;

    open spec fn view(&self) -> Fault {
        match self {
            SandboxExecutionError::Timeout => Fault::Timeout,
            SandboxExecutionError::ReferenceNotExist(name) => Fault::ReferenceNotExist(name@),
            SandboxExecutionError::DivideByZero => Fault::DivideByZero,
            SandboxExecutionError::UnsupportedOperator => Fault::UnsupportedOperator,
        }
    }
}

impl SandboxExecutionError {
    /// A copy of this error.
    pub fn duplicate(&self) -> (r: SandboxExecutionError)
        ensures
            r@ == self@,
    {
        match self {
            SandboxExecutionError::Timeout => SandboxExecutionError::Timeout,
            SandboxExecutionError::ReferenceNotExist(name) => SandboxExecutionError::ReferenceNotExist(
                name.clone(),
            ),
            SandboxExecutionError::DivideByZero => SandboxExecutionError::DivideByZero,
            SandboxExecutionError::UnsupportedOperator => SandboxExecutionError::UnsupportedOperator,
        }
    }
}

} // verus!
