use ipfs_uploader::actions::{Action, Config, Outcome};
use ipfs_uploader::errors::{ErrorKind, Failure};
use ipfs_uploader::metadata::NftMetadata;
use ipfs_uploader::single::{SingleStage, SingleWorkflow};
use std::collections::BTreeMap;

struct World {
    files: BTreeMap<String, String>,
    dirs: Vec<String>,
    uploads: Vec<String>,
    reported: Option<String>,
    failure: Option<Failure>,
}

fn run(image_path: &str, file_name: Option<&str>, json_suffix: bool) -> (SingleWorkflow, World) {
    let mut world = World {
        files: BTreeMap::new(),
        dirs: Vec::new(),
        uploads: Vec::new(),
        reported: None,
        failure: None,
    };
    let (mut workflow, mut action) = SingleWorkflow::start(image_path, file_name, Config { json_suffix });
    for _ in 0..20 {
        let outcome = match action {
            Action::Upload { path } => {
                world.uploads.push(path);
                Outcome::Stored { cid: "bafy000IMAGE".to_string() }
            }
            Action::UploadBytes { data } => {
                world.uploads.push(data);
                Outcome::Stored { cid: "bafy000META".to_string() }
            }
            Action::CreateDir { path } => {
                world.dirs.push(path);
                Outcome::Done
            }
            Action::CopyFile { from, to } => {
                world.files.insert(to, format!("copy of {}", from));
                Outcome::Done
            }
            Action::WriteFile { path, contents } => {
                world.files.insert(path, contents);
                Outcome::Done
            }
            Action::Finish { uri } => {
                world.reported = Some(uri);
                break;
            }
            Action::Abort { failure } => {
                world.failure = Some(failure);
                break;
            }
            other => panic!("unexpected request {:?}", other),
        };
        action = workflow.step(outcome);
    }
    (workflow, world)
}

#[test]
fn single_workflow_with_a_stub_gateway() {
    let (workflow, world) = run("assets/cat.jpg", Some("cat.jpg"), false);
    assert_eq!(workflow.stage, SingleStage::Finished);
    assert!(workflow.is_over());
    assert_eq!(world.reported, Some("ipfs://bafy000META".to_string()));
    assert_eq!(world.dirs, vec!["output/cat"]);
    assert_eq!(world.files.get("output/cat/cat.jpg"), Some(&"copy of assets/cat.jpg".to_string()));
    let written = world.files.get("output/cat/cat").unwrap();
    assert!(written.contains("\"image\": \"ipfs://bafy000IMAGE\""));
    let record = NftMetadata::from_json(written).unwrap();
    assert_eq!(record, NftMetadata::single("cat.jpg", "bafy000IMAGE"));
    assert_eq!(record.image, "ipfs://bafy000IMAGE");
    assert_eq!(world.files.len(), 2);
    assert_eq!(world.uploads.len(), 2);
    assert_eq!(world.uploads[0], "assets/cat.jpg");
    assert!(world.uploads[1].contains("\"image\":\"ipfs://bafy000IMAGE\""));
    assert_eq!(world.uploads[1], NftMetadata::single("cat.jpg", "bafy000IMAGE").to_json());
}

#[test]
fn single_workflow_with_the_suffix() {
    let (_, world) = run("assets/cat.jpg", Some("cat.jpg"), true);
    assert!(world.files.contains_key("output/cat/cat.json"));
    assert!(!world.files.contains_key("output/cat/cat"));
    assert_eq!(world.reported, Some("ipfs://bafy000META".to_string()));
}

#[test]
fn single_workflow_steps_in_order() {
    let (mut w, first) = SingleWorkflow::start("a/cat.jpg", Some("cat.jpg"), Config { json_suffix: false });
    assert_eq!(first, Action::Upload { path: "a/cat.jpg".to_string() });
    assert_eq!(w.stage, SingleStage::UploadImage);
    assert!(!w.is_over());
    let a = w.step(Outcome::Stored { cid: "IMG".to_string() });
    assert_eq!(a, Action::UploadBytes { data: NftMetadata::single("cat.jpg", "IMG").to_json() });
    assert_eq!(w.stage, SingleStage::UploadMetadata);
    let a = w.step(Outcome::Stored { cid: "META".to_string() });
    assert_eq!(a, Action::CreateDir { path: "output/cat".to_string() });
    assert_eq!(w.stage, SingleStage::CreateDir);
    let a = w.step(Outcome::Done);
    assert_eq!(
        a,
        Action::CopyFile { from: "a/cat.jpg".to_string(), to: "output/cat/cat.jpg".to_string() }
    );
    assert_eq!(w.stage, SingleStage::CopyImage);
    let a = w.step(Outcome::Done);
    assert_eq!(
        a,
        Action::WriteFile {
            path: "output/cat/cat".to_string(),
            contents: NftMetadata::single("cat.jpg", "IMG").to_json_pretty(),
        }
    );
    assert_eq!(w.stage, SingleStage::WriteMetadata);
    let a = w.step(Outcome::Done);
    assert_eq!(a, Action::Finish { uri: "ipfs://META".to_string() });
    assert_eq!(w.stage, SingleStage::Finished);
    assert!(w.is_over());
}

#[test]
fn single_workflow_stops_at_the_first_failure() {
    let (mut w, _) = SingleWorkflow::start("a/cat.jpg", Some("cat.jpg"), Config { json_suffix: false });
    let failure = Failure::new(ErrorKind::NotFound, "a/cat.jpg");
    let a = w.step(Outcome::Failed { failure: failure.clone() });
    assert_eq!(a, Action::Abort { failure });
    assert_eq!(w.stage, SingleStage::Failed);
    assert!(w.is_over());
    let a = w.step(Outcome::Stored { cid: "late".to_string() });
    assert!(matches!(a, Action::Abort { .. }));
    assert_eq!(w.stage, SingleStage::Failed);
}

#[test]
fn single_workflow_fails_in_the_middle_and_keeps_what_was_written() {
    let (mut w, _) = SingleWorkflow::start("a/cat.jpg", Some("cat.jpg"), Config { json_suffix: false });
    w.step(Outcome::Stored { cid: "IMG".to_string() });
    w.step(Outcome::Stored { cid: "META".to_string() });
    w.step(Outcome::Done);
    let failure = Failure::new(ErrorKind::IoError, "disk full");
    let a = w.step(Outcome::Failed { failure: failure.clone() });
    assert_eq!(a, Action::Abort { failure });
    assert_eq!(w.stage, SingleStage::Failed);
    assert_eq!(w.image_cid, "IMG");
    assert_eq!(w.metadata_cid, "META");
}

#[test]
fn single_workflow_without_a_file_name_fails_after_the_upload() {
    let (workflow, world) = run("..", None, false);
    assert_eq!(workflow.stage, SingleStage::Failed);
    assert_eq!(world.uploads, vec![".."]);
    let failure = world.failure.unwrap();
    assert_eq!(failure.kind, ErrorKind::InvalidInput);
    assert_eq!(failure.detail, "the image has no file name");
    assert!(world.files.is_empty());
}

#[test]
fn single_workflow_refuses_an_answer_it_did_not_ask_for() {
    let (mut w, _) = SingleWorkflow::start("a/cat.jpg", Some("cat.jpg"), Config { json_suffix: false });
    let a = w.step(Outcome::Done);
    assert_eq!(
        a,
        Action::Abort {
            failure: Failure::new(ErrorKind::InvalidInput, "the answer does not fit the request")
        }
    );
    assert_eq!(w.stage, SingleStage::Failed);
}

#[test]
fn single_workflow_once_finished_stays_finished() {
    let (mut workflow, _) = run("assets/cat.jpg", Some("cat.jpg"), false);
    let a = workflow.step(Outcome::Done);
    assert!(matches!(a, Action::Abort { .. }));
    assert_eq!(workflow.stage, SingleStage::Finished);
}
