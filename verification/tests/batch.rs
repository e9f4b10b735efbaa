use ipfs_uploader::actions::{Action, Config, Outcome};
use ipfs_uploader::batch::{token_id, BatchStage, BatchWorkflow};
use ipfs_uploader::errors::{ErrorKind, Failure};
use ipfs_uploader::metadata::NftMetadata;

struct World {
    written: Vec<(String, String)>,
    dirs: Vec<String>,
    mirrors: Vec<(String, String)>,
    uploads: Vec<String>,
    reported: Option<String>,
    failure: Option<Failure>,
}

fn run(names: &[&str], seconds: i64, json_suffix: bool) -> (BatchWorkflow, World) {
    let mut world = World {
        written: Vec::new(),
        dirs: Vec::new(),
        mirrors: Vec::new(),
        uploads: Vec::new(),
        reported: None,
        failure: None,
    };
    let (mut workflow, mut action) = BatchWorkflow::start("assets/batch", Config { json_suffix });
    for _ in 0..100 {
        let outcome = match action {
            Action::Upload { path } => {
                let cid = if world.uploads.is_empty() { "bafyIMAGES" } else { "bafyMETA" };
                world.uploads.push(path);
                Outcome::Stored { cid: cid.to_string() }
            }
            Action::ReadClock => Outcome::Clock { seconds },
            Action::Mirror { from, to } => {
                world.mirrors.push((from, to));
                Outcome::Done
            }
            Action::CreateDir { path } => {
                world.dirs.push(path);
                Outcome::Done
            }
            Action::ListFiles { dir } => {
                assert_eq!(dir, "assets/batch");
                Outcome::Files { names: names.iter().map(|s| s.to_string()).collect() }
            }
            Action::WriteFile { path, contents } => {
                world.written.push((path, contents));
                Outcome::Done
            }
            Action::Finish { uri } => {
                world.reported = Some(uri);
                break;
            }
            Action::Abort { failure } => {
                world.failure = Some(failure);
                break;
            }
            other => panic!("unexpected request {:?}", other),
        };
        action = workflow.step(outcome);
    }
    (workflow, world)
}

#[test]
fn batch_takes_files_in_dictionary_order_and_names_them_by_id() {
    let (workflow, world) = run(&["1.png", "2.png", "10.png"], 1753694706, false);
    assert_eq!(workflow.stage, BatchStage::Finished);
    assert_eq!(workflow.files, vec!["1.png", "10.png", "2.png"]);
    let paths: Vec<&str> = world.written.iter().map(|(p, _)| p.as_str()).collect();
    assert_eq!(
        paths,
        vec![
            "output/collection_20250728_092506/metadata/1",
            "output/collection_20250728_092506/metadata/10",
            "output/collection_20250728_092506/metadata/2",
        ]
    );
    assert_eq!(world.written[1].1, NftMetadata::member(10, "bafyIMAGES", "10.png").to_json_pretty());
    let second = NftMetadata::from_json(&world.written[1].1).unwrap();
    assert_eq!(second.name, "MetaCore #10");
    assert_eq!(second.image, "ipfs://bafyIMAGES/10.png");
    assert_eq!(world.reported, Some("ipfs://bafyMETA/".to_string()));
    assert_eq!(
        world.uploads,
        vec!["assets/batch", "output/collection_20250728_092506/metadata"]
    );
    assert_eq!(
        world.mirrors,
        vec![(
            "assets/batch".to_string(),
            "output/collection_20250728_092506/images".to_string()
        )]
    );
    assert_eq!(world.dirs, vec!["output/collection_20250728_092506/metadata"]);
}

#[test]
fn batch_with_the_suffix() {
    let (_, world) = run(&["3.png"], 0, true);
    assert_eq!(world.written.len(), 1);
    assert_eq!(world.written[0].0, "output/collection_19700101_000000/metadata/3.json");
}

#[test]
fn batch_aborts_on_a_name_that_is_no_token_id() {
    let (workflow, world) = run(&["abc.png"], 0, false);
    assert_eq!(workflow.stage, BatchStage::Failed);
    assert!(world.written.is_empty());
    assert_eq!(world.reported, None);
    assert_eq!(
        world.failure,
        Some(Failure { kind: ErrorKind::InvalidInput, detail: "abc.png".to_string() })
    );
    assert_eq!(world.uploads, vec!["assets/batch"]);
}

#[test]
fn batch_keeps_what_was_written_before_the_bad_name() {
    let (workflow, world) = run(&["2.png", "abc.png", "1.png", "zzz.png"], 0, false);
    assert_eq!(workflow.stage, BatchStage::Failed);
    let paths: Vec<&str> = world.written.iter().map(|(p, _)| p.as_str()).collect();
    assert_eq!(
        paths,
        vec![
            "output/collection_19700101_000000/metadata/1",
            "output/collection_19700101_000000/metadata/2",
        ]
    );
    assert_eq!(world.failure.unwrap().detail, "abc.png");
    assert_eq!(world.reported, None);
    assert_eq!(world.uploads.len(), 1);
}

#[test]
fn batch_of_no_files_still_stores_the_metadata_directory() {
    let (workflow, world) = run(&[], 0, false);
    assert_eq!(workflow.stage, BatchStage::Finished);
    assert!(world.written.is_empty());
    assert_eq!(world.reported, Some("ipfs://bafyMETA/".to_string()));
}

#[test]
fn batch_twice_at_different_times_writes_to_different_directories() {
    let (_, first) = run(&["1.png"], 1753694706, false);
    let (_, second) = run(&["1.png"], 1753694843, false);
    assert_eq!(first.mirrors[0].1, "output/collection_20250728_092506/images");
    assert_eq!(second.mirrors[0].1, "output/collection_20250728_092723/images");
    assert_ne!(first.mirrors[0].1, second.mirrors[0].1);
    assert_ne!(first.written[0].0, second.written[0].0);
    assert_ne!(first.dirs, second.dirs);
}

#[test]
fn batch_stamp_is_the_time_in_utc() {
    for (seconds, stamp) in [
        (0i64, "19700101_000000"),
        (-1, "19691231_235959"),
        (1700000000, "20231114_221320"),
        (253402300799, "99991231_235959"),
    ] {
        let (_, world) = run(&[], seconds, false);
        assert_eq!(world.dirs, vec![format!("output/collection_{}/metadata", stamp)]);
    }
}

#[test]
fn batch_fails_on_a_time_outside_the_calendar() {
    let (workflow, world) = run(&["1.png"], i64::MAX, false);
    assert_eq!(workflow.stage, BatchStage::Failed);
    let failure = world.failure.unwrap();
    assert_eq!(failure.kind, ErrorKind::InvalidInput);
    assert_eq!(failure.detail, "the time is out of range");
    assert!(world.mirrors.is_empty());
}

#[test]
fn batch_steps_in_order() {
    let (mut w, first) = BatchWorkflow::start("in", Config { json_suffix: false });
    assert_eq!(first, Action::Upload { path: "in".to_string() });
    assert_eq!(w.stage, BatchStage::UploadImages);
    assert_eq!(w.step(Outcome::Stored { cid: "DIR".to_string() }), Action::ReadClock);
    assert_eq!(w.stage, BatchStage::ReadClock);
    assert_eq!(
        w.step(Outcome::Clock { seconds: 0 }),
        Action::Mirror {
            from: "in".to_string(),
            to: "output/collection_19700101_000000/images".to_string()
        }
    );
    assert_eq!(w.stage, BatchStage::MirrorImages);
    assert_eq!(
        w.step(Outcome::Done),
        Action::CreateDir { path: "output/collection_19700101_000000/metadata".to_string() }
    );
    assert_eq!(w.stage, BatchStage::CreateMetadataDir);
    assert_eq!(w.step(Outcome::Done), Action::ListFiles { dir: "in".to_string() });
    assert_eq!(w.stage, BatchStage::ListFiles);
    let a = w.step(Outcome::Files { names: vec!["5.png".to_string()] });
    assert_eq!(
        a,
        Action::WriteFile {
            path: "output/collection_19700101_000000/metadata/5".to_string(),
            contents: NftMetadata::member(5, "DIR", "5.png").to_json_pretty(),
        }
    );
    assert_eq!(w.stage, BatchStage::WriteFiles);
    assert_eq!(w.next, 1);
    assert_eq!(
        w.step(Outcome::Done),
        Action::Upload { path: "output/collection_19700101_000000/metadata".to_string() }
    );
    assert_eq!(w.stage, BatchStage::UploadMetadata);
    assert_eq!(
        w.step(Outcome::Stored { cid: "META".to_string() }),
        Action::Finish { uri: "ipfs://META/".to_string() }
    );
    assert_eq!(w.stage, BatchStage::Finished);
    assert!(w.is_over());
}

#[test]
fn batch_stops_at_the_first_failure() {
    let (mut w, _) = BatchWorkflow::start("in", Config { json_suffix: false });
    w.step(Outcome::Stored { cid: "DIR".to_string() });
    w.step(Outcome::Clock { seconds: 0 });
    let failure = Failure::new(ErrorKind::IoError, "cannot read in/1.png");
    assert_eq!(w.step(Outcome::Failed { failure: failure.clone() }), Action::Abort { failure });
    assert_eq!(w.stage, BatchStage::Failed);
    assert!(matches!(w.step(Outcome::Done), Action::Abort { .. }));
    assert_eq!(w.stage, BatchStage::Failed);
}

#[test]
fn batch_refuses_an_answer_it_did_not_ask_for() {
    let (mut w, _) = BatchWorkflow::start("in", Config { json_suffix: false });
    let a = w.step(Outcome::Clock { seconds: 0 });
    assert_eq!(
        a,
        Action::Abort {
            failure: Failure::new(ErrorKind::InvalidInput, "the answer does not fit the request")
        }
    );
    assert_eq!(w.stage, BatchStage::Failed);
}

#[test]
fn token_id_is_read_off_the_stem() {
    assert_eq!(token_id("1.png"), Some(1));
    assert_eq!(token_id("10.png"), Some(10));
    assert_eq!(token_id("007.jpeg"), Some(7));
    assert_eq!(token_id("42"), Some(42));
    assert_eq!(token_id("abc.png"), None);
    assert_eq!(token_id(".png"), None);
    assert_eq!(token_id("1.2.png"), None);
    assert_eq!(token_id(""), None);
}

#[test]
fn batch_names_a_file_with_leading_zeros_by_its_id() {
    let (_, world) = run(&["007.png"], 0, false);
    assert_eq!(world.written[0].0, "output/collection_19700101_000000/metadata/7");
    let record = NftMetadata::from_json(&world.written[0].1).unwrap();
    assert_eq!(record.name, "MetaCore #7");
    assert_eq!(record.image, "ipfs://bafyIMAGES/007.png");
}

#[test]
fn batch_takes_the_stamp_it_is_given() {
    let (mut w, _) = BatchWorkflow::start("in", Config { json_suffix: false });
    w.step(Outcome::Stored { cid: "DIR".to_string() });
    let a = w.stamped(Some("20250728_092506".to_string()));
    assert_eq!(
        a,
        Action::Mirror {
            from: "in".to_string(),
            to: "output/collection_20250728_092506/images".to_string()
        }
    );
    assert_eq!(w.stage, BatchStage::MirrorImages);
    assert_eq!(w.stamp, "20250728_092506");
}

#[test]
fn batch_without_a_stamp_fails() {
    let (mut w, _) = BatchWorkflow::start("in", Config { json_suffix: false });
    w.step(Outcome::Stored { cid: "DIR".to_string() });
    let a = w.stamped(None);
    assert_eq!(
        a,
        Action::Abort { failure: Failure::new(ErrorKind::InvalidInput, "the time is out of range") }
    );
    assert_eq!(w.stage, BatchStage::Failed);
}
