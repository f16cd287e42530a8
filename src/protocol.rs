//! What an evaluation asks of the outside world and what it is told back.
//!
//! Reading a file, running a command and querying a JSONPath happen outside
//! the library. An evaluation is a function of the replies received so far:
//! it either finishes or names the next piece of outside work it needs. The
//! caller performs that work, appends the reply and evaluates again; the
//! replies are consumed in the order the requests were made.
use vstd::prelude::*;
use crate::error::{Error, ErrorModel};
use crate::input::option_view;
use crate::json::{Json, JsonModel};

verus! {

/// Outside work that an evaluation needs before it can go on.
#[derive(Debug)]
pub enum Request {
    /// Read and parse the JSON file at `path`.
    ReadFile { path: String },
    /// Run `program` with `args`; when `stdin` is given, write it as JSON to
    /// the program's standard input.
    RunCommand { program: String, args: Vec<String>, stdin: Option<Json> },
    /// The values that the JSONPath `path` selects in `doc`, in document order.
    Select { doc: Json, path: String },
}

pub enum RequestModel {
    ReadFile { path: Seq<char> },
    RunCommand { program: Seq<char>, args: Seq<Seq<char>>, stdin: Option<JsonModel> },
    Select { doc: JsonModel, path: Seq<char> },
}

impl View for Request {
    type V = RequestModel;

    open spec fn view(&self) -> RequestModel {
        match self {
            Request::ReadFile { path } => RequestModel::ReadFile { path: path@ },
            Request::RunCommand { program, args, stdin } => RequestModel::RunCommand {
                program: program@,
                args: args@.map_values(|a: String| a@),
                stdin: option_view(*stdin),
            },
            Request::Select { doc, path } => RequestModel::Select { doc: doc@, path: path@ },
        }
    }
}

/// The outcome of a [`Request`].
#[derive(Debug)]
pub enum Reply {
    /// The parsed content of the file.
    File(Json),
    /// The file could not be read or is not JSON; the text says why.
    FileError(String),
    /// The standard output of a command that exited successfully, and its
    /// value when the output parses as JSON.
    Output { text: String, parsed: Option<Json> },
    /// The command could not be run, or exited with failure; the text says why.
    CommandError(String),
    /// The values the path selected, in order.
    Selected(Vec<Json>),
    /// The path is not a valid JSONPath query.
    SelectError,
}

pub enum ReplyModel {
    File(JsonModel),
    FileError(Seq<char>),
    Output { text: Seq<char>, parsed: Option<JsonModel> },
    CommandError(Seq<char>),
    Selected(Seq<JsonModel>),
    SelectError,
}

impl View for Reply {
    type V = ReplyModel;

    open spec fn view(&self) -> ReplyModel {
        match self {
            Reply::File(v) => ReplyModel::File(v@),
            Reply::FileError(m) => ReplyModel::FileError(m@),
            Reply::Output { text, parsed } => ReplyModel::Output {
                text: text@,
                parsed: option_view(*parsed),
            },
            Reply::CommandError(m) => ReplyModel::CommandError(m@),
            Reply::Selected(vs) => ReplyModel::Selected(Json::Array(*vs)@->Array_0),
            Reply::SelectError => ReplyModel::SelectError,
        }
    }
}

/// Why an evaluation stopped before producing a value.
#[derive(Debug)]
pub enum Halt {
    /// A hard error.
    Fail(Error),
    /// Outside work is needed first.
    Wait(Request),
}

pub enum HaltModel {
    Fail(ErrorModel),
    Wait(RequestModel),
}

impl View for Halt {
    type V = HaltModel;

    open spec fn view(&self) -> HaltModel {
        match self {
            Halt::Fail(e) => HaltModel::Fail(e@),
            Halt::Wait(q) => HaltModel::Wait(q@),
        }
    }
}

/// Where a run of the whole transformation stands.
#[derive(Debug)]
pub enum Progress {
    /// The output document.
    Finished(Json),
    /// A hard error ended the transformation.
    Failed(Error),
    /// The transformation needs this outside work done and its reply appended.
    Needs(Request),
}

pub enum ProgressModel {
    Finished(JsonModel),
    Failed(ErrorModel),
    Needs(RequestModel),
}

impl View for Progress {
    type V = ProgressModel;

    open spec fn view(&self) -> ProgressModel {
        match self {
            Progress::Finished(v) => ProgressModel::Finished(v@),
            Progress::Failed(e) => ProgressModel::Failed(e@),
            Progress::Needs(q) => ProgressModel::Needs(q@),
        }
    }
}

} // verus!
