//! What a workflow asks of its surroundings, and what it is told in return.

use crate::errors::{ErrorKind, Failure, FailureView};
use crate::gateway::texts;
use vstd::prelude::*;

verus! {

/// The settings of a run.
#[derive(Clone, Copy, Debug, PartialEq, Eq, Structural)]
pub struct Config {
    /// Whether the names of metadata files end in `.json`.
    pub json_suffix: bool,
}

/// A request as mathematics.
pub enum ActionView {
    Upload { path: Seq<char> },
    UploadBytes { data: Seq<char> },
    ReadClock,
    CreateDir { path: Seq<char> },
    CopyFile { from: Seq<char>, to: Seq<char> },
    Mirror { from: Seq<char>, to: Seq<char> },
    ListFiles { dir: Seq<char> },
    WriteFile { path: Seq<char>, contents: Seq<char> },
    Finish { uri: Seq<char> },
    Abort { failure: FailureView },
}

/// What a workflow asks for next.
#[derive(Debug, PartialEq, Eq)]
pub enum Action {
    /// Store the file or directory at `path`, and tell its identifier.
    Upload { path: String },
    /// Store `data`, and tell its identifier.
    UploadBytes { data: String },
    /// Tell the time.
    ReadClock,
    /// Make the directory `path`, and those above it that are missing.
    CreateDir { path: String },
    /// Copy the file `from` to `to`, byte for byte.
    CopyFile { from: String, to: String },
    /// Copy the tree under `from` to `to`.
    Mirror { from: String, to: String },
    /// Tell the names of the regular files that lie directly in `dir`.
    ListFiles { dir: String },
    /// Write `contents` to the file `path`.
    WriteFile { path: String, contents: String },
    /// The run is complete; `uri` is the address to report.
    Finish { uri: String },
    /// The run has failed; nothing more is asked.
    Abort { failure: Failure },
}

impl View for Action {
    type V = ActionView;

    open spec fn view(&self) -> ActionView {
        match self {
            Action::Upload { path } => ActionView::Upload { path: path@ },
            Action::UploadBytes { data } => ActionView::UploadBytes { data: data@ },
            Action::ReadClock => ActionView::ReadClock,
            Action::CreateDir { path } => ActionView::CreateDir { path: path@ },
            Action::CopyFile { from, to } => ActionView::CopyFile { from: from@, to: to@ },
            Action::Mirror { from, to } => ActionView::Mirror { from: from@, to: to@ },
            Action::ListFiles { dir } => ActionView::ListFiles { dir: dir@ },
            Action::WriteFile { path, contents } => ActionView::WriteFile {
                path: path@,
                contents: contents@,
            },
            Action::Finish { uri } => ActionView::Finish { uri: uri@ },
            Action::Abort { failure } => ActionView::Abort { failure: failure@ },
        }
    }
}

/// An answer as mathematics.
pub enum OutcomeView {
    Done,
    Stored { cid: Seq<char> },
    Clock { seconds: i64 },
    Files { names: Seq<Seq<char>> },
    Failed { failure: FailureView },
}

/// What a workflow is told once its request has been carried out.
#[derive(Debug, PartialEq, Eq)]
pub enum Outcome {
    /// The directory was made, the file copied or written, the tree copied.
    Done,
    /// The content was stored under the identifier `cid`.
    Stored { cid: String },
    /// It is `seconds` seconds since the start of 1970.
    Clock { seconds: i64 },
    /// The regular files have the names `names`, in any order.
    Files { names: Vec<String> },
    /// The request could not be carried out.
    Failed { failure: Failure },
}

impl View for Outcome {
    type V = OutcomeView;

    open spec fn view(&self) -> OutcomeView {
        match self {
            Outcome::Done => OutcomeView::Done,
            Outcome::Stored { cid } => OutcomeView::Stored { cid: cid@ },
            Outcome::Clock { seconds } => OutcomeView::Clock { seconds: *seconds },
            Outcome::Files { names } => OutcomeView::Files { names: texts(names@) },
            Outcome::Failed { failure } => OutcomeView::Failed { failure: failure@ },
        }
    }
}

/// The failure of a workflow that was told something it did not ask for.
pub open spec fn unexpected() -> FailureView {
    FailureView { kind: ErrorKind::InvalidInput, detail: "the answer does not fit the request"@ }
}

/// The failure of a workflow that was told something it did not ask for.
pub fn unexpected_answer() -> (failure: Failure)
    ensures
        failure@ == unexpected(),
{
    Failure::new(ErrorKind::InvalidInput, "the answer does not fit the request")
}

} // verus!
