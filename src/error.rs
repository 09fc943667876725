use vstd::prelude::*;

verus! {

/// Failures reported by the library.
#[derive(Debug)]
pub enum Error {
    /// The builder's finalize step rejected what it had accumulated, or a
    /// transform could not be carried out.
    OperationBuild,
    /// A pass pipeline text could not be parsed; carries the diagnostic text.
    ParsePassPipeline(String),
}

impl Error {
    /// Returns a human-readable description of the error.
    pub fn message(&self) -> (r: String)
        ensures
            match self {
                Error::OperationBuild => r@ == "failed to build an operation"@,
                Error::ParsePassPipeline(m) => r@ == "failed to parse pass pipeline: "@ + m@,
            },
    {
        match self {
            Error::OperationBuild => String::from_str("failed to build an operation"),
            Error::ParsePassPipeline(m) => {
                let mut r = String::from_str("failed to parse pass pipeline: ");
                r.append(m.as_str());
                r
            },
        }
    }
}

} // verus!
