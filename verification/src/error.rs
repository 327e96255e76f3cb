//! Error type of the library.
use vstd::prelude::*;

verus! {

/// Errors reported by the library.
#[derive(Debug, Clone)]
pub enum OpossumError {
    /// Error concerning optical ports.
    OpticPort(String),
    /// Error of the property system.
    Properties(String),
    /// Error while building or querying an optical graph.
    OpticScenery(String),
    /// Error concerning group nodes.
    OpticGroup(String),
    /// Error during an analysis.
    Analysis(String),
    /// Error concerning a model document.
    OpmDocument(String),
    /// Any other error.
    Other(String),
}

/// The text of an error: the name of its kind, a colon, and its message.
pub open spec fn error_text(e: OpossumError) -> Seq<char> {
    match e {
        OpossumError::OpticPort(m) => "OpticPort:"@ + m@,
        OpossumError::Properties(m) => "Properties:"@ + m@,
        OpossumError::OpticScenery(m) => "OpticScenery:"@ + m@,
        OpossumError::OpticGroup(m) => "OpticGroup:"@ + m@,
        OpossumError::Analysis(m) => "Analysis:"@ + m@,
        OpossumError::OpmDocument(m) => "OpmDocument:"@ + m@,
        OpossumError::Other(m) => "Opossum Error:Other:"@ + m@,
    }
}

impl OpossumError {
    /// The text of this error: the name of its kind, a colon, and its message.
    pub fn to_string(&self) -> (s: String)
        ensures
            s@ == error_text(*self),
    {
        let (mut s, m) = match self {
            OpossumError::OpticPort(m) => ("OpticPort:".to_owned(), m),
            OpossumError::Properties(m) => ("Properties:".to_owned(), m),
            OpossumError::OpticScenery(m) => ("OpticScenery:".to_owned(), m),
            OpossumError::OpticGroup(m) => ("OpticGroup:".to_owned(), m),
            OpossumError::Analysis(m) => ("Analysis:".to_owned(), m),
            OpossumError::OpmDocument(m) => ("OpmDocument:".to_owned(), m),
            OpossumError::Other(m) => ("Opossum Error:Other:".to_owned(), m),
        };
        s.append(m.as_str());
        s
    }
}

/// Result type of the library.
pub type OpmResult<T> = Result<T, OpossumError>;

} // verus!
