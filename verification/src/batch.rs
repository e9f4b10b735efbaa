//! The workflow for a collection of tokens.

use crate::actions::{unexpected, unexpected_answer, Action, ActionView, Config, Outcome, OutcomeView};
use crate::decimal::{is_canonical, lemma_decimal_of_parse, parse_u64, parse_u64_spec};
use crate::errors::{ErrorKind, Failure, FailureView};
use crate::gateway::texts;
use crate::json::record_json;
use crate::metadata::{content_uri, member_metadata, uri_of, NftMetadata};
use crate::names::{lemma_sorted_names, name_order, sort_names, sorted_names};
use crate::paths::{
    collection_images_dir, collection_images_dir_of, collection_metadata_dir,
    collection_metadata_dir_of, file_stem, file_stem_spec, member_metadata_path,
    member_metadata_path_of, metadata_file_name,
};
use crate::stamp::{stamp_of, utc_stamp};
use crate::text::glue;
use vstd::prelude::*;
use vstd::relations::sorted_by;

verus! {

/// How far a run has come. Each stage names what is awaited.
#[derive(Clone, Copy, Debug, PartialEq, Eq, Structural)]
pub enum BatchStage {
    /// The identifier of the stored image directory.
    UploadImages,
    /// The time.
    ReadClock,
    /// The local copy of the image directory.
    MirrorImages,
    /// The directory for the metadata files.
    CreateMetadataDir,
    /// The names of the image files.
    ListFiles,
    /// A metadata file.
    WriteFiles,
    /// The identifier of the stored metadata directory.
    UploadMetadata,
    /// Nothing: the run is complete.
    Finished,
    /// Nothing: the run has failed.
    Failed,
}

/// A run as mathematics.
pub struct BatchView {
    pub stage: BatchStage,
    pub json_suffix: bool,
    pub input_dir: Seq<char>,
    pub folder_cid: Seq<char>,
    pub stamp: Seq<char>,
    pub files: Seq<Seq<char>>,
    pub next: nat,
}

/// One run of the workflow: store the image directory, keep a copy of it,
/// write one metadata file for each image in the order of the file names,
/// then store the metadata directory.
#[derive(Debug)]
pub struct BatchWorkflow {
    pub stage: BatchStage,
    pub config: Config,
    /// The directory that holds the images.
    pub input_dir: String,
    /// The identifier of the image directory, once it is stored.
    pub folder_cid: String,
    /// The time stamp that names the collection, once the time is known.
    pub stamp: String,
    /// The names of the image files, once they are known, in the order in
    /// which they are taken.
    pub files: Vec<String>,
    /// How many of the files have been dealt with.
    pub next: usize,
}

impl View for BatchWorkflow {
    type V = BatchView;

    open spec fn view(&self) -> BatchView {
        BatchView {
            stage: self.stage,
            json_suffix: self.config.json_suffix,
            input_dir: self.input_dir@,
            folder_cid: self.folder_cid@,
            stamp: self.stamp@,
            files: texts(self.files@),
            next: self.next as nat,
        }
    }
}

/// A run that has just begun.
pub open spec fn batch_start(input_dir: Seq<char>, json_suffix: bool) -> BatchView {
    BatchView {
        stage: BatchStage::UploadImages,
        json_suffix,
        input_dir,
        folder_cid: Seq::empty(),
        stamp: Seq::empty(),
        files: Seq::empty(),
        next: 0,
    }
}

/// The run after a failure.
pub open spec fn batch_failed(w: BatchView) -> BatchView {
    BatchView { stage: BatchStage::Failed, ..w }
}

/// The failure of a run that was told a time outside the calendar.
pub open spec fn timeless() -> FailureView {
    FailureView { kind: ErrorKind::InvalidInput, detail: "the time is out of range"@ }
}

/// The token id that a file name gives: its stem, read as a number.
pub open spec fn token_id_of(file_name: Seq<char>) -> Option<u64> {
    parse_u64_spec(file_stem_spec(file_name))
}

/// What a run does about its next file. With every file dealt with, it asks
/// for the metadata directory to be stored. A file whose stem is no token id
/// ends the run as invalid input, with the file's name. For any other file
/// it asks for the metadata file to be written, named by the token id.
pub open spec fn batch_advance(w: BatchView) -> (BatchView, ActionView) {
    if w.next >= w.files.len() {
        (
            BatchView { stage: BatchStage::UploadMetadata, ..w },
            ActionView::Upload { path: collection_metadata_dir(w.stamp) },
        )
    } else {
        let file_name = w.files[w.next as int];
        match token_id_of(file_name) {
            None => (
                batch_failed(w),
                ActionView::Abort {
                    failure: FailureView { kind: ErrorKind::InvalidInput, detail: file_name },
                },
            ),
            Some(id) => (
                BatchView { stage: BatchStage::WriteFiles, next: w.next + 1, ..w },
                ActionView::WriteFile {
                    path: member_metadata_path(w.stamp, id, w.json_suffix),
                    contents: record_json(member_metadata(id, w.folder_cid, file_name), true),
                },
            ),
        }
    }
}

/// What a run does once the time is known. With a stamp, it asks for the
/// images to be copied into the collection that the stamp names. Without
/// one, the time is out of range and the run ends.
pub open spec fn batch_stamped(w: BatchView, stamp: Option<Seq<char>>) -> (
    BatchView,
    ActionView,
) {
    match stamp {
        None => (batch_failed(w), ActionView::Abort { failure: timeless() }),
        Some(stamp) => (
            BatchView { stage: BatchStage::MirrorImages, stamp, ..w },
            ActionView::Mirror { from: w.input_dir, to: collection_images_dir(stamp) },
        ),
    }
}

/// The address under which the members' metadata is found: that of the
/// stored metadata directory, and a slash.
pub open spec fn base_uri(cid: Seq<char>) -> Seq<char> {
    content_uri(cid) + "/"@
}

/// One step of a run: the stages follow one another in a fixed order, each
/// on the answer that it awaits; the files are taken in dictionary order of
/// their names; the first failure ends the run, and so does an answer that
/// was not asked for; a run that has ended stays as it is.
pub open spec fn batch_step(w: BatchView, outcome: OutcomeView) -> (BatchView, ActionView) {
    match (w.stage, outcome) {
        (BatchStage::Finished, _) => (w, ActionView::Abort { failure: unexpected() }),
        (BatchStage::Failed, _) => (w, ActionView::Abort { failure: unexpected() }),
        (_, OutcomeView::Failed { failure }) => (batch_failed(w), ActionView::Abort { failure }),
        (BatchStage::UploadImages, OutcomeView::Stored { cid }) => (
            BatchView { stage: BatchStage::ReadClock, folder_cid: cid, ..w },
            ActionView::ReadClock,
        ),
        (BatchStage::ReadClock, OutcomeView::Clock { seconds }) => batch_stamped(
            w,
            utc_stamp(seconds),
        ),
        (BatchStage::MirrorImages, OutcomeView::Done) => (
            BatchView { stage: BatchStage::CreateMetadataDir, ..w },
            ActionView::CreateDir { path: collection_metadata_dir(w.stamp) },
        ),
        (BatchStage::CreateMetadataDir, OutcomeView::Done) => (
            BatchView { stage: BatchStage::ListFiles, ..w },
            ActionView::ListFiles { dir: w.input_dir },
        ),
        (BatchStage::ListFiles, OutcomeView::Files { names }) => batch_advance(
            BatchView { files: sorted_names(names), next: 0, ..w },
        ),
        (BatchStage::WriteFiles, OutcomeView::Done) => batch_advance(w),
        (BatchStage::UploadMetadata, OutcomeView::Stored { cid }) => (
            BatchView { stage: BatchStage::Finished, ..w },
            ActionView::Finish { uri: base_uri(cid) },
        ),
        _ => (batch_failed(w), ActionView::Abort { failure: unexpected() }),
    }
}

/// Whether a run has ended.
pub open spec fn batch_over(w: BatchView) -> bool {
    w.stage == BatchStage::Finished || w.stage == BatchStage::Failed
}

/// The first failure ends the run: whatever a run awaits, the answer that
/// its request failed leaves it failed, and it asks for nothing but to stop
/// with that failure.
pub proof fn lemma_batch_failure_ends_run(w: BatchView, failure: FailureView)
    requires
        !batch_over(w),
    ensures
        batch_step(w, OutcomeView::Failed { failure }) == (
            batch_failed(w),
            ActionView::Abort { failure },
        ),
{
}

/// A run that has ended stays as it is, whatever it is told, and asks for
/// nothing more.
pub proof fn lemma_batch_end_is_final(w: BatchView, outcome: OutcomeView)
    requires
        batch_over(w),
    ensures
        batch_step(w, outcome).0 == w,
        batch_step(w, outcome).1 is Abort,
{
}

/// A file whose stem is no token id ends the run as invalid input, and no
/// metadata file is asked for on its account: the files written are those
/// that came before it.
pub proof fn lemma_bad_name_ends_run(w: BatchView)
    requires
        w.next < w.files.len(),
        token_id_of(w.files[w.next as int]) is None,
    ensures
        batch_advance(w).0 == batch_failed(w),
        batch_advance(w).0.next == w.next,
        batch_advance(w).1 == (ActionView::Abort {
            failure: FailureView {
                kind: ErrorKind::InvalidInput,
                detail: w.files[w.next as int],
            },
        }),
{
}

/// The files are taken in dictionary order of their names, not in the order
/// of their ids: once the names are known, the run holds the same names,
/// each as often as it was listed, and each comes before or equals every
/// later one.
pub proof fn lemma_files_in_dictionary_order(w: BatchView, names: Seq<Seq<char>>)
    requires
        w.stage == BatchStage::ListFiles,
    ensures
        ({
            let files = batch_step(w, OutcomeView::Files { names }).0.files;
            &&& sorted_by(files, name_order())
            &&& files.to_multiset() == names.to_multiset()
        }),
{
    lemma_sorted_names(names);
}

/// A metadata file is named by the token id alone: for a file whose stem is
/// a canonical numeral, the name is that stem, with `.json` behind it where
/// the suffix is switched on.
pub proof fn lemma_metadata_named_by_id(
    stamp: Seq<char>,
    file_name: Seq<char>,
    json_suffix: bool,
)
    requires
        is_canonical(file_stem_spec(file_name)),
        token_id_of(file_name) is Some,
    ensures
        member_metadata_path(stamp, token_id_of(file_name)->Some_0, json_suffix)
            == collection_metadata_dir(stamp) + "/"@ + metadata_file_name(
            file_stem_spec(file_name),
            json_suffix,
        ),
{
    lemma_decimal_of_parse(file_stem_spec(file_name));
}

/// Reads the token id off a file name.
pub fn token_id(file_name: &str) -> (r: Option<u64>)
    ensures
        r == token_id_of(file_name@),
{
    let stem = file_stem(file_name);
    parse_u64(stem.as_str())
}

impl BatchWorkflow {
    /// Begins a run on the images in `input_dir`. The first request is to
    /// store that directory.
    pub fn start(input_dir: &str, config: Config) -> (r: (BatchWorkflow, Action))
        ensures
            r.0@ == batch_start(input_dir@, config.json_suffix),
            r.1@ == (ActionView::Upload { path: input_dir@ }),
    {
        let workflow = BatchWorkflow {
            stage: BatchStage::UploadImages,
            config,
            input_dir: input_dir.to_owned(),
            folder_cid: String::new(),
            stamp: String::new(),
            files: Vec::new(),
            next: 0,
        };
        assert(workflow@.files =~= Seq::empty());
        (workflow, Action::Upload { path: input_dir.to_owned() })
    }

    /// Whether the run has ended, complete or failed.
    pub fn is_over(&self) -> (r: bool)
        ensures
            r == (self.stage == BatchStage::Finished || self.stage == BatchStage::Failed),
    {
        match self.stage {
            BatchStage::Finished => true,
            BatchStage::Failed => true,
            _ => false,
        }
    }

    /// Ends the run with the given failure.
    fn fail(&mut self, failure: Failure) -> (action: Action)
        ensures
            final(self)@ == batch_failed(old(self)@),
            action@ == (ActionView::Abort { failure: failure@ }),
    {
        self.stage = BatchStage::Failed;
        Action::Abort { failure }
    }

    /// Takes the stamp of the time at which the collection is made, or none
    /// where that time is out of range, and gives the next request.
    pub fn stamped(&mut self, stamp: Option<String>) -> (action: Action)
        ensures
            (final(self)@, action@) == batch_stamped(
                old(self)@,
                match stamp {
                    Some(text) => Some(text@),
                    None => None,
                },
            ),
    {
        match stamp {
            None => self.fail(Failure::new(ErrorKind::InvalidInput, "the time is out of range")),
            Some(stamp) => {
                let to = collection_images_dir_of(stamp.as_str());
                self.stamp = stamp;
                self.stage = BatchStage::MirrorImages;
                Action::Mirror { from: self.input_dir.clone(), to }
            },
        }
    }

    /// Deals with the next file, or with the end of the files.
    fn advance(&mut self) -> (action: Action)
        ensures
            (final(self)@, action@) == batch_advance(old(self)@),
    {
        if self.next >= self.files.len() {
            self.stage = BatchStage::UploadMetadata;
            return Action::Upload { path: collection_metadata_dir_of(self.stamp.as_str()) };
        }
        let file_name = &self.files[self.next];
        match token_id(file_name.as_str()) {
            None => {
                let failure = Failure::new(ErrorKind::InvalidInput, file_name.as_str());
                self.fail(failure)
            },
            Some(id) => {
                let metadata = NftMetadata::member(
                    id,
                    self.folder_cid.as_str(),
                    file_name.as_str(),
                );
                let path = member_metadata_path_of(
                    self.stamp.as_str(),
                    id,
                    self.config.json_suffix,
                );
                self.stage = BatchStage::WriteFiles;
                self.next = self.next + 1;
                Action::WriteFile { path, contents: metadata.to_json_pretty() }
            },
        }
    }

    /// Takes the answer to the last request and gives the next request.
    pub fn step(&mut self, outcome: Outcome) -> (action: Action)
        ensures
            (final(self)@, action@) == batch_step(old(self)@, outcome@),
    {
        match (self.stage, outcome) {
            (BatchStage::Finished, _) => Action::Abort { failure: unexpected_answer() },
            (BatchStage::Failed, _) => Action::Abort { failure: unexpected_answer() },
            (_, Outcome::Failed { failure }) => self.fail(failure),
            (BatchStage::UploadImages, Outcome::Stored { cid }) => {
                self.folder_cid = cid;
                self.stage = BatchStage::ReadClock;
                Action::ReadClock
            },
            (BatchStage::ReadClock, Outcome::Clock { seconds }) => {
                let stamp = stamp_of(seconds);
                self.stamped(stamp)
            },
            (BatchStage::MirrorImages, Outcome::Done) => {
                self.stage = BatchStage::CreateMetadataDir;
                Action::CreateDir { path: collection_metadata_dir_of(self.stamp.as_str()) }
            },
            (BatchStage::CreateMetadataDir, Outcome::Done) => {
                self.stage = BatchStage::ListFiles;
                Action::ListFiles { dir: self.input_dir.clone() }
            },
            (BatchStage::ListFiles, Outcome::Files { names }) => {
                self.files = sort_names(&names);
                self.next = 0;
                self.advance()
            },
            (BatchStage::WriteFiles, Outcome::Done) => self.advance(),
            (BatchStage::UploadMetadata, Outcome::Stored { cid }) => {
                let uri = uri_of(cid.as_str());
                self.stage = BatchStage::Finished;
                Action::Finish { uri: glue(uri.as_str(), "/") }
            },
            _ => self.fail(unexpected_answer()),
        }
    }
}

} // verus!
