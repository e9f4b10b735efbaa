//! The workflow for a token that stands alone.

use crate::actions::{unexpected, unexpected_answer, Action, ActionView, Config, Outcome, OutcomeView};
use crate::errors::{ErrorKind, Failure, FailureView};
use crate::json::record_json;
use crate::metadata::{content_uri, single_metadata, uri_of, NftMetadata};
use crate::paths::{
    single_dir, single_dir_of, single_image_path, single_image_path_of, single_metadata_path,
    single_metadata_path_of,
};
use vstd::prelude::*;

verus! {

/// How far a run has come. Each stage names what is awaited.
#[derive(Clone, Copy, Debug, PartialEq, Eq, Structural)]
pub enum SingleStage {
    /// The identifier of the stored image.
    UploadImage,
    /// The identifier of the stored metadata.
    UploadMetadata,
    /// The output directory.
    CreateDir,
    /// The local copy of the image.
    CopyImage,
    /// The local copy of the metadata.
    WriteMetadata,
    /// Nothing: the run is complete.
    Finished,
    /// Nothing: the run has failed.
    Failed,
}

/// A run as mathematics.
pub struct SingleView {
    pub stage: SingleStage,
    pub json_suffix: bool,
    pub image_path: Seq<char>,
    pub file_name: Option<Seq<char>>,
    pub image_cid: Seq<char>,
    pub metadata_cid: Seq<char>,
}

/// One run of the workflow: store the image, build its metadata and store
/// that, then keep a copy of both under the output directory.
#[derive(Debug)]
pub struct SingleWorkflow {
    pub stage: SingleStage,
    pub config: Config,
    /// Where the image lies.
    pub image_path: String,
    /// The last part of the image's path, where it has one that is text.
    pub file_name: Option<String>,
    /// The identifier of the image, once it is stored.
    pub image_cid: String,
    /// The identifier of the metadata, once it is stored.
    pub metadata_cid: String,
}

impl View for SingleWorkflow {
    type V = SingleView;

    open spec fn view(&self) -> SingleView {
        SingleView {
            stage: self.stage,
            json_suffix: self.config.json_suffix,
            image_path: self.image_path@,
            file_name: match self.file_name {
                Some(name) => Some(name@),
                None => None,
            },
            image_cid: self.image_cid@,
            metadata_cid: self.metadata_cid@,
        }
    }
}

/// The failure of a run whose image has no file name.
pub open spec fn nameless() -> FailureView {
    FailureView { kind: ErrorKind::InvalidInput, detail: "the image has no file name"@ }
}

/// A run that has just begun.
pub open spec fn single_start(
    image_path: Seq<char>,
    file_name: Option<Seq<char>>,
    json_suffix: bool,
) -> SingleView {
    SingleView {
        stage: SingleStage::UploadImage,
        json_suffix,
        image_path,
        file_name,
        image_cid: Seq::empty(),
        metadata_cid: Seq::empty(),
    }
}

/// The run after a failure.
pub open spec fn single_failed(w: SingleView) -> SingleView {
    SingleView { stage: SingleStage::Failed, ..w }
}

/// One step of a run: the stages follow one another in a fixed order, each
/// on the answer that it awaits; the first failure ends the run, and so does
/// an answer that was not asked for; a run that has ended stays as it is.
pub open spec fn single_step(w: SingleView, outcome: OutcomeView) -> (SingleView, ActionView) {
    match (w.stage, outcome) {
        (SingleStage::Finished, _) => (w, ActionView::Abort { failure: unexpected() }),
        (SingleStage::Failed, _) => (w, ActionView::Abort { failure: unexpected() }),
        (_, OutcomeView::Failed { failure }) => (single_failed(w), ActionView::Abort { failure }),
        (SingleStage::UploadImage, OutcomeView::Stored { cid }) => match w.file_name {
            None => (single_failed(w), ActionView::Abort { failure: nameless() }),
            Some(name) => (
                SingleView { stage: SingleStage::UploadMetadata, image_cid: cid, ..w },
                ActionView::UploadBytes { data: record_json(single_metadata(name, cid), false) },
            ),
        },
        (SingleStage::UploadMetadata, OutcomeView::Stored { cid }) => match w.file_name {
            None => (single_failed(w), ActionView::Abort { failure: nameless() }),
            Some(name) => (
                SingleView { stage: SingleStage::CreateDir, metadata_cid: cid, ..w },
                ActionView::CreateDir { path: single_dir(name) },
            ),
        },
        (SingleStage::CreateDir, OutcomeView::Done) => match w.file_name {
            None => (single_failed(w), ActionView::Abort { failure: nameless() }),
            Some(name) => (
                SingleView { stage: SingleStage::CopyImage, ..w },
                ActionView::CopyFile { from: w.image_path, to: single_image_path(name) },
            ),
        },
        (SingleStage::CopyImage, OutcomeView::Done) => match w.file_name {
            None => (single_failed(w), ActionView::Abort { failure: nameless() }),
            Some(name) => (
                SingleView { stage: SingleStage::WriteMetadata, ..w },
                ActionView::WriteFile {
                    path: single_metadata_path(name, w.json_suffix),
                    contents: record_json(single_metadata(name, w.image_cid), true),
                },
            ),
        },
        (SingleStage::WriteMetadata, OutcomeView::Done) => (
            SingleView { stage: SingleStage::Finished, ..w },
            ActionView::Finish { uri: content_uri(w.metadata_cid) },
        ),
        _ => (single_failed(w), ActionView::Abort { failure: unexpected() }),
    }
}

/// Whether a run has ended.
pub open spec fn single_over(w: SingleView) -> bool {
    w.stage == SingleStage::Finished || w.stage == SingleStage::Failed
}

/// The first failure ends the run: whatever a run awaits, the answer that
/// its request failed leaves it failed, and it asks for nothing but to stop
/// with that failure.
pub proof fn lemma_single_failure_ends_run(w: SingleView, failure: FailureView)
    requires
        !single_over(w),
    ensures
        single_step(w, OutcomeView::Failed { failure }) == (
            single_failed(w),
            ActionView::Abort { failure },
        ),
{
}

/// A run that has ended stays as it is, whatever it is told, and asks for
/// nothing more.
pub proof fn lemma_single_end_is_final(w: SingleView, outcome: OutcomeView)
    requires
        single_over(w),
    ensures
        single_step(w, outcome).0 == w,
        single_step(w, outcome).1 is Abort,
{
}

/// Nothing is retried and no stage is left out: a step either goes on to
/// the one stage that follows, or ends the run.
pub proof fn lemma_single_order(w: SingleView, outcome: OutcomeView)
    requires
        !single_over(w),
    ensures
        ({
            let next = single_step(w, outcome).0.stage;
            next == SingleStage::Failed || next == (match w.stage {
                SingleStage::UploadImage => SingleStage::UploadMetadata,
                SingleStage::UploadMetadata => SingleStage::CreateDir,
                SingleStage::CreateDir => SingleStage::CopyImage,
                SingleStage::CopyImage => SingleStage::WriteMetadata,
                _ => SingleStage::Finished,
            })
        }),
{
}

impl SingleWorkflow {
    /// Begins a run on the image at `image_path`, whose file name is
    /// `file_name`. The first request is to store the image.
    pub fn start(image_path: &str, file_name: Option<&str>, config: Config) -> (r: (
        SingleWorkflow,
        Action,
    ))
        ensures
            r.0@ == single_start(
                image_path@,
                match file_name {
                    Some(name) => Some(name@),
                    None => None,
                },
                config.json_suffix,
            ),
            r.1@ == (ActionView::Upload { path: image_path@ }),
    {
        let workflow = SingleWorkflow {
            stage: SingleStage::UploadImage,
            config,
            image_path: image_path.to_owned(),
            file_name: match file_name {
                Some(name) => Some(name.to_owned()),
                None => None,
            },
            image_cid: String::new(),
            metadata_cid: String::new(),
        };
        (workflow, Action::Upload { path: image_path.to_owned() })
    }

    /// Whether the run has ended, complete or failed.
    pub fn is_over(&self) -> (r: bool)
        ensures
            r == (self.stage == SingleStage::Finished || self.stage == SingleStage::Failed),
    {
        match self.stage {
            SingleStage::Finished => true,
            SingleStage::Failed => true,
            _ => false,
        }
    }

    /// Ends the run with the given failure.
    fn fail(&mut self, failure: Failure) -> (action: Action)
        ensures
            final(self)@ == single_failed(old(self)@),
            action@ == (ActionView::Abort { failure: failure@ }),
    {
        self.stage = SingleStage::Failed;
        Action::Abort { failure }
    }

    /// Ends the run because the image has no file name.
    fn fail_nameless(&mut self) -> (action: Action)
        ensures
            final(self)@ == single_failed(old(self)@),
            action@ == (ActionView::Abort { failure: nameless() }),
    {
        self.fail(Failure::new(ErrorKind::InvalidInput, "the image has no file name"))
    }

    /// Takes the answer to the last request and gives the next request.
    pub fn step(&mut self, outcome: Outcome) -> (action: Action)
        ensures
            (final(self)@, action@) == single_step(old(self)@, outcome@),
    {
        match (self.stage, outcome) {
            (SingleStage::Finished, _) => Action::Abort { failure: unexpected_answer() },
            (SingleStage::Failed, _) => Action::Abort { failure: unexpected_answer() },
            (_, Outcome::Failed { failure }) => self.fail(failure),
            (SingleStage::UploadImage, Outcome::Stored { cid }) => {
                match &self.file_name {
                    None => self.fail_nameless(),
                    Some(name) => {
                        let metadata = NftMetadata::single(name.as_str(), cid.as_str());
                        self.image_cid = cid;
                        self.stage = SingleStage::UploadMetadata;
                        Action::UploadBytes { data: metadata.to_json() }
                    },
                }
            },
            (SingleStage::UploadMetadata, Outcome::Stored { cid }) => {
                match &self.file_name {
                    None => self.fail_nameless(),
                    Some(name) => {
                        let path = single_dir_of(name.as_str());
                        self.metadata_cid = cid;
                        self.stage = SingleStage::CreateDir;
                        Action::CreateDir { path }
                    },
                }
            },
            (SingleStage::CreateDir, Outcome::Done) => {
                match &self.file_name {
                    None => self.fail_nameless(),
                    Some(name) => {
                        let to = single_image_path_of(name.as_str());
                        self.stage = SingleStage::CopyImage;
                        Action::CopyFile { from: self.image_path.clone(), to }
                    },
                }
            },
            (SingleStage::CopyImage, Outcome::Done) => {
                match &self.file_name {
                    None => self.fail_nameless(),
                    Some(name) => {
                        let metadata = NftMetadata::single(
                            name.as_str(),
                            self.image_cid.as_str(),
                        );
                        let path = single_metadata_path_of(
                            name.as_str(),
                            self.config.json_suffix,
                        );
                        self.stage = SingleStage::WriteMetadata;
                        Action::WriteFile { path, contents: metadata.to_json_pretty() }
                    },
                }
            },
            (SingleStage::WriteMetadata, Outcome::Done) => {
                self.stage = SingleStage::Finished;
                Action::Finish { uri: uri_of(self.metadata_cid.as_str()) }
            },
            _ => self.fail(unexpected_answer()),
        }
    }
}

} // verus!
