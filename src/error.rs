use vstd::prelude::*;

verus! {

/// Why loading a spec or resolving an input failed. Where an input is at
/// fault, the first field is its name.
#[derive(Debug)]
pub enum Error {
    /// A reference names no local binding and no declared input.
    UnknownInput(String),
    /// An input's `let` clause is not an object.
    LetNotObject(String),
    /// A file or command input whose source is not a string.
    NonStringSource(String),
    /// A command line that does not split into words, or splits into none.
    BadCommand(String),
    /// The file of a file input could not be read or parsed; the second field says why.
    FileFailed(String, String),
    /// The command of a command input could not run or exited with failure.
    CommandFailed(String, String),
    /// Inputs nested deeper than the resolution limit.
    TooDeep(String),
    /// A reply of another kind than the request it answers.
    ReplyMismatch,
    /// An input named like a builtin function.
    BuiltinName(String),
    /// A second, different declaration of an input.
    Conflict(String),
    /// A second definition of the output.
    DoubleOutput,
    /// No output template was given.
    NoOutput,
    /// The spec document is not an object.
    NotAnObject,
    /// A field of the spec document that is missing or has the wrong type.
    BadField(String),
}

pub enum ErrorModel {
    UnknownInput(Seq<char>),
    LetNotObject(Seq<char>),
    NonStringSource(Seq<char>),
    BadCommand(Seq<char>),
    FileFailed(Seq<char>, Seq<char>),
    CommandFailed(Seq<char>, Seq<char>),
    TooDeep(Seq<char>),
    ReplyMismatch,
    BuiltinName(Seq<char>),
    Conflict(Seq<char>),
    DoubleOutput,
    NoOutput,
    NotAnObject,
    BadField(Seq<char>),
}

impl View for Error {
    type V = ErrorModel;

    open spec fn view(&self) -> ErrorModel {
        match self {
            Error::UnknownInput(n) => ErrorModel::UnknownInput(n@),
            Error::LetNotObject(n) => ErrorModel::LetNotObject(n@),
            Error::NonStringSource(n) => ErrorModel::NonStringSource(n@),
            Error::BadCommand(n) => ErrorModel::BadCommand(n@),
            Error::FileFailed(n, m) => ErrorModel::FileFailed(n@, m@),
            Error::CommandFailed(n, m) => ErrorModel::CommandFailed(n@, m@),
            Error::TooDeep(n) => ErrorModel::TooDeep(n@),
            Error::ReplyMismatch => ErrorModel::ReplyMismatch,
            Error::BuiltinName(n) => ErrorModel::BuiltinName(n@),
            Error::Conflict(n) => ErrorModel::Conflict(n@),
            Error::DoubleOutput => ErrorModel::DoubleOutput,
            Error::NoOutput => ErrorModel::NoOutput,
            Error::NotAnObject => ErrorModel::NotAnObject,
            Error::BadField(f) => ErrorModel::BadField(f@),
        }
    }
}

} // verus!
