use nominal::{
    Action, ApplyError, ApplyErrorDetails, Event, Execution, IoFailure, IoFailureKind, Plan,
    Rename, Renamer, Stage, Step, TargetOrder,
};
use std::collections::{BTreeMap, BTreeSet};

/// A file system in memory: files with their contents, symbolic links that
/// point nowhere, and directories.
struct Disk {
    files: BTreeMap<String, String>,
    dangling_links: BTreeSet<String>,
    directories: BTreeSet<String>,
    unreadable: BTreeSet<String>,
    log: Vec<Action>,
}

impl Disk {
    fn new() -> Disk {
        Disk {
            files: BTreeMap::new(),
            dangling_links: BTreeSet::new(),
            directories: BTreeSet::new(),
            unreadable: BTreeSet::new(),
            log: Vec::new(),
        }
    }

    fn with_files(files: &[(&str, &str)]) -> Disk {
        let mut disk = Disk::new();
        for (path, content) in files {
            disk.files.insert(path.to_string(), content.to_string());
        }
        disk
    }

    fn has(&self, path: &str) -> bool {
        self.files.contains_key(path)
            || self.dangling_links.contains(path)
            || self.directories.contains(path)
    }

    fn content(&self, path: &str) -> Option<&str> {
        self.files.get(path).map(|content| content.as_str())
    }

    fn perform(&mut self, action: &Action) -> Event {
        self.log.push(action.clone());
        match action {
            Action::LookUpTarget { target } => Event::LookedUp(if self.unreadable.contains(target) {
                Err(IoFailure::new(IoFailureKind::Other, "Permission denied".to_string()))
            } else if self.has(target) {
                Ok(())
            } else {
                Err(IoFailure::new(IoFailureKind::NotFound, "No such file".to_string()))
            }),
            Action::LookUpParent { parent } => Event::Exists(self.directories.contains(parent)),
            Action::CreateParent { parent } => Event::Changed(if self.files.contains_key(parent) {
                Err(IoFailure::new(IoFailureKind::Other, "File exists".to_string()))
            } else {
                let mut path = String::new();
                for part in parent.split('/') {
                    if !path.is_empty() {
                        path.push('/');
                    }
                    path.push_str(part);
                    if !path.is_empty() {
                        self.directories.insert(path.clone());
                    }
                }
                Ok(())
            }),
            Action::Move { source, target } => Event::Changed(match self.files.remove(source) {
                Some(content) => {
                    self.files.insert(target.clone(), content);
                    Ok(())
                }
                None => Err(IoFailure::new(IoFailureKind::NotFound, "No such file".to_string())),
            }),
        }
    }

    fn run(&mut self, execution: &mut Execution) {
        while let Some(action) = execution.next() {
            let event = self.perform(&action);
            assert!(execution.advance(event));
        }
    }

    fn apply(&mut self, plan: Plan) -> Result<(), ApplyError> {
        let mut execution = plan.apply();
        self.run(&mut execution);
        assert!(execution.is_finished());
        execution.outcome().unwrap()
    }
}

fn plan_of(requests: &[(&str, &str)]) -> Plan {
    let mut renamer = Renamer::new();
    for (source, target) in requests {
        renamer.add(source.to_string(), target.to_string());
    }
    renamer.plan().unwrap()
}

fn rename(source: &str, target: &str) -> Rename {
    Rename::new(source.to_string(), target.to_string())
}

fn look_up_target(target: &str) -> Action {
    Action::LookUpTarget { target: target.to_string() }
}

fn look_up_parent(parent: &str) -> Action {
    Action::LookUpParent { parent: parent.to_string() }
}

fn create_parent(parent: &str) -> Action {
    Action::CreateParent { parent: parent.to_string() }
}

fn move_to(source: &str, target: &str) -> Action {
    Action::Move { source: source.to_string(), target: target.to_string() }
}

fn not_found() -> IoFailure {
    IoFailure::new(IoFailureKind::NotFound, "No such file".to_string())
}

fn refused() -> IoFailure {
    IoFailure::new(IoFailureKind::Other, "Permission denied".to_string())
}

#[test]
fn applying_moves_the_file() {
    let mut disk = Disk::with_files(&[("old.txt", "content")]);
    let outcome = disk.apply(plan_of(&[("old.txt", "new.txt")]));
    assert!(outcome.is_ok());
    assert!(!disk.has("old.txt"));
    assert!(disk.has("new.txt"));
    assert_eq!(disk.content("new.txt"), Some("content"));
}

#[test]
fn applying_fails_where_the_target_exists() {
    let mut disk = Disk::with_files(&[("old.txt", "old"), ("new.txt", "new")]);
    let error = disk.apply(plan_of(&[("old.txt", "new.txt")])).unwrap_err();
    assert!(matches!(error.details, ApplyErrorDetails::TargetExists));
    assert_eq!(error.source, "old.txt");
    assert_eq!(error.target, "new.txt");
    assert_eq!(disk.content("old.txt"), Some("old"));
    assert_eq!(disk.content("new.txt"), Some("new"));
    assert_eq!(disk.log, [look_up_target("new.txt")]);
}

#[test]
fn applying_stops_at_the_first_failure_and_undoes_nothing() {
    let mut disk = Disk::with_files(&[("a.txt", "a"), ("c.txt", "c"), ("d.txt", "d"), ("e.txt", "e")]);
    let plan = plan_of(&[("e.txt", "f.txt"), ("c.txt", "d.txt"), ("a.txt", "b.txt")]);
    let mut execution = plan.apply();
    disk.run(&mut execution);
    assert_eq!(execution.applied(), 1);
    let error = execution.outcome().unwrap().unwrap_err();
    assert!(matches!(error.details, ApplyErrorDetails::TargetExists));
    assert_eq!(error.source, "c.txt");
    assert_eq!(error.target, "d.txt");
    // The first operation is applied.
    assert!(!disk.has("a.txt"));
    assert_eq!(disk.content("b.txt"), Some("a"));
    // The second is not, and the third was never tried.
    assert_eq!(disk.content("c.txt"), Some("c"));
    assert_eq!(disk.content("d.txt"), Some("d"));
    assert_eq!(disk.content("e.txt"), Some("e"));
    assert!(!disk.has("f.txt"));
}

#[test]
fn a_dangling_link_at_the_target_blocks_the_rename() {
    let mut disk = Disk::with_files(&[("old.txt", "old")]);
    disk.dangling_links.insert("new.txt".to_string());
    let error = disk.apply(plan_of(&[("old.txt", "new.txt")])).unwrap_err();
    assert!(matches!(error.details, ApplyErrorDetails::TargetExists));
    assert_eq!(disk.content("old.txt"), Some("old"));
}

#[test]
fn applying_asks_for_each_step_in_turn() {
    let mut disk = Disk::with_files(&[("old.txt", "content")]);
    disk.apply(plan_of(&[("old.txt", "new.txt")])).unwrap();
    assert_eq!(
        disk.log,
        [
            look_up_target("new.txt"),
            look_up_parent(""),
            create_parent(""),
            move_to("old.txt", "new.txt"),
        ]
    );
}

#[test]
fn applying_creates_the_directory_of_the_target() {
    let mut disk = Disk::with_files(&[("old.txt", "content")]);
    disk.apply(plan_of(&[("old.txt", "sub/dir/new.txt")])).unwrap();
    assert_eq!(
        disk.log,
        [
            look_up_target("sub/dir/new.txt"),
            look_up_parent("sub/dir"),
            create_parent("sub/dir"),
            move_to("old.txt", "sub/dir/new.txt"),
        ]
    );
    assert!(disk.directories.contains("sub"));
    assert!(disk.directories.contains("sub/dir"));
    assert_eq!(disk.content("sub/dir/new.txt"), Some("content"));
}

#[test]
fn applying_leaves_a_directory_that_is_there() {
    let mut disk = Disk::with_files(&[("dir/old.txt", "content")]);
    disk.directories.insert("dir".to_string());
    disk.apply(plan_of(&[("dir/old.txt", "dir/new.txt")])).unwrap();
    assert_eq!(
        disk.log,
        [
            look_up_target("dir/new.txt"),
            look_up_parent("dir"),
            move_to("dir/old.txt", "dir/new.txt"),
        ]
    );
}

#[test]
fn applying_a_target_without_a_directory_goes_straight_to_the_move() {
    let mut disk = Disk::with_files(&[("old.txt", "content")]);
    let mut renamer = Renamer::new();
    renamer.add("old.txt".to_string(), "/".to_string());
    disk.apply(renamer.plan().unwrap()).unwrap();
    assert_eq!(disk.log, [look_up_target("/"), move_to("old.txt", "/")]);
}

#[test]
fn applying_runs_in_the_order_of_the_plan() {
    let mut disk = Disk::with_files(&[("x", "1"), ("y", "2"), ("z", "3")]);
    let plan = plan_of(&[("z", "c"), ("x", "a"), ("y", "b")]);
    disk.apply(plan).unwrap();
    let moves: Vec<&Action> =
        disk.log.iter().filter(|action| matches!(action, Action::Move { .. })).collect();
    assert_eq!(moves, [&move_to("x", "a"), &move_to("y", "b"), &move_to("z", "c")]);
    assert_eq!(disk.content("a"), Some("1"));
    assert_eq!(disk.content("b"), Some("2"));
    assert_eq!(disk.content("c"), Some("3"));
}

#[test]
fn applying_an_earlier_target_frees_it_for_nothing_later() {
    // A chain is not resolved: the plan runs once, in the order of its targets.
    let mut disk = Disk::with_files(&[("a", "1"), ("b", "2")]);
    let error = disk.apply(plan_of(&[("a", "b"), ("b", "c")])).unwrap_err();
    assert!(matches!(error.details, ApplyErrorDetails::TargetExists));
    assert_eq!(error.target, "b");
    assert_eq!(disk.content("a"), Some("1"));
    assert_eq!(disk.content("b"), Some("2"));
}

#[test]
fn applying_reports_a_lookup_that_fails() {
    let mut disk = Disk::with_files(&[("old.txt", "content")]);
    disk.unreadable.insert("new.txt".to_string());
    let error = disk.apply(plan_of(&[("old.txt", "new.txt")])).unwrap_err();
    assert_eq!(error.source, "old.txt");
    assert_eq!(error.target, "new.txt");
    match error.details {
        ApplyErrorDetails::Io(failure) => {
            assert_eq!(failure.kind, IoFailureKind::Other);
            assert_eq!(failure.message, "Permission denied");
        }
        other => panic!("unexpected details: {other:?}"),
    }
    assert_eq!(disk.content("old.txt"), Some("content"));
}

#[test]
fn applying_reports_a_source_that_is_missing() {
    let mut disk = Disk::new();
    let error = disk.apply(plan_of(&[("old.txt", "new.txt")])).unwrap_err();
    assert_eq!(error.message(), "failed to rename \"old.txt\" to \"new.txt\": No such file");
    match error.details {
        ApplyErrorDetails::Io(failure) => assert_eq!(failure.kind, IoFailureKind::NotFound),
        other => panic!("unexpected details: {other:?}"),
    }
}

#[test]
fn applying_reports_a_directory_that_cannot_be_created() {
    let mut disk = Disk::with_files(&[("old.txt", "content"), ("sub", "a file")]);
    let error = disk.apply(plan_of(&[("old.txt", "sub/new.txt")])).unwrap_err();
    match error.details {
        ApplyErrorDetails::Io(failure) => assert_eq!(failure.message, "File exists"),
        other => panic!("unexpected details: {other:?}"),
    }
    assert_eq!(disk.content("old.txt"), Some("content"));
    assert_eq!(disk.log.len(), 3);
}

#[test]
fn applying_an_empty_plan_is_finished_at_once() {
    let execution = plan_of(&[]).apply();
    assert!(execution.is_finished());
    assert_eq!(execution.next(), None);
    assert_eq!(execution.applied(), 0);
    assert!(execution.outcome().unwrap().is_ok());
}

#[test]
fn execution_has_no_outcome_before_it_is_finished() {
    let execution = plan_of(&[("a", "b")]).apply();
    assert!(!execution.is_finished());
    assert_eq!(execution.next(), Some(look_up_target("b")));
    assert!(execution.outcome().is_none());
}

#[test]
fn execution_takes_only_the_answer_to_its_request() {
    let mut execution = plan_of(&[("a", "b")]).apply();
    assert!(!execution.advance(Event::Exists(false)));
    assert!(!execution.advance(Event::Changed(Ok(()))));
    assert_eq!(execution.next(), Some(look_up_target("b")));
    assert!(execution.advance(Event::LookedUp(Err(not_found()))));
    assert_eq!(execution.next(), Some(look_up_parent("")));
    assert!(!execution.advance(Event::LookedUp(Ok(()))));
    assert!(!execution.advance(Event::Changed(Ok(()))));
    assert!(execution.advance(Event::Exists(true)));
    assert_eq!(execution.next(), Some(move_to("a", "b")));
    assert!(!execution.advance(Event::Exists(true)));
    assert!(execution.advance(Event::Changed(Ok(()))));
    assert_eq!(execution.next(), None);
    assert_eq!(execution.applied(), 1);
    assert!(execution.outcome().unwrap().is_ok());
}

#[test]
fn execution_takes_nothing_once_it_has_failed() {
    let mut execution = plan_of(&[("a", "b"), ("c", "d")]).apply();
    assert!(execution.advance(Event::LookedUp(Ok(()))));
    assert!(execution.is_finished());
    assert_eq!(execution.next(), None);
    assert!(!execution.advance(Event::LookedUp(Err(not_found()))));
    assert!(!execution.advance(Event::Changed(Ok(()))));
    assert_eq!(execution.applied(), 0);
    let error = execution.outcome().unwrap().unwrap_err();
    assert_eq!(error.target, "b");
}

#[test]
fn execution_takes_nothing_once_all_is_applied() {
    let mut disk = Disk::with_files(&[("a", "1")]);
    let mut execution = plan_of(&[("a", "b")]).apply();
    disk.run(&mut execution);
    assert!(!execution.advance(Event::Changed(Ok(()))));
    assert!(!execution.advance(Event::LookedUp(Ok(()))));
    assert_eq!(execution.applied(), 1);
}

#[test]
fn rename_asks_by_stage() {
    let operation = rename("from/old", "to/new");
    assert_eq!(operation.action(Stage::CheckTarget), Some(look_up_target("to/new")));
    assert_eq!(operation.action(Stage::CheckParent), Some(look_up_parent("to")));
    assert_eq!(operation.action(Stage::CreateParent), Some(create_parent("to")));
    assert_eq!(operation.action(Stage::Move), Some(move_to("from/old", "to/new")));
    let rootward = rename("old", "/");
    assert_eq!(rootward.action(Stage::CheckParent), None);
    assert_eq!(rootward.action(Stage::CreateParent), None);
}

fn next_stage(step: Option<Step>) -> Stage {
    match step {
        Some(Step::Next(stage)) => stage,
        other => panic!("unexpected step: {other:?}"),
    }
}

fn failure_of(step: Option<Step>) -> ApplyError {
    match step {
        Some(Step::Failed(error)) => error,
        other => panic!("unexpected step: {other:?}"),
    }
}

#[test]
fn rename_goes_from_stage_to_stage() {
    let operation = rename("old", "dir/new");
    assert_eq!(
        next_stage(operation.apply(Stage::CheckTarget, Event::LookedUp(Err(not_found())))),
        Stage::CheckParent
    );
    assert_eq!(next_stage(operation.apply(Stage::CheckParent, Event::Exists(true))), Stage::Move);
    assert_eq!(
        next_stage(operation.apply(Stage::CheckParent, Event::Exists(false))),
        Stage::CreateParent
    );
    assert_eq!(
        next_stage(operation.apply(Stage::CreateParent, Event::Changed(Ok(())))),
        Stage::Move
    );
    assert!(matches!(operation.apply(Stage::Move, Event::Changed(Ok(()))), Some(Step::Applied)));
    let rootward = rename("old", "/");
    assert_eq!(
        next_stage(rootward.apply(Stage::CheckTarget, Event::LookedUp(Err(not_found())))),
        Stage::Move
    );
}

#[test]
fn rename_fails_with_the_paths_of_the_operation() {
    let operation = rename("old", "dir/new");
    let exists = failure_of(operation.apply(Stage::CheckTarget, Event::LookedUp(Ok(()))));
    assert!(matches!(exists.details, ApplyErrorDetails::TargetExists));
    assert_eq!((exists.source.as_str(), exists.target.as_str()), ("old", "dir/new"));
    for (stage, event) in [
        (Stage::CheckTarget, Event::LookedUp(Err(refused()))),
        (Stage::CreateParent, Event::Changed(Err(refused()))),
        (Stage::Move, Event::Changed(Err(refused()))),
        (Stage::Move, Event::Changed(Err(not_found()))),
    ] {
        let error = failure_of(operation.apply(stage, event));
        assert!(matches!(error.details, ApplyErrorDetails::Io(_)));
        assert_eq!((error.source.as_str(), error.target.as_str()), ("old", "dir/new"));
    }
}

#[test]
fn rename_takes_no_answer_to_another_request() {
    let operation = rename("old", "new");
    assert!(operation.apply(Stage::CheckTarget, Event::Exists(true)).is_none());
    assert!(operation.apply(Stage::CheckTarget, Event::Changed(Ok(()))).is_none());
    assert!(operation.apply(Stage::CheckParent, Event::LookedUp(Ok(()))).is_none());
    assert!(operation.apply(Stage::CheckParent, Event::Changed(Ok(()))).is_none());
    assert!(operation.apply(Stage::CreateParent, Event::Exists(true)).is_none());
    assert!(operation.apply(Stage::CreateParent, Event::LookedUp(Ok(()))).is_none());
    assert!(operation.apply(Stage::Move, Event::Exists(true)).is_none());
    assert!(operation.apply(Stage::Move, Event::LookedUp(Ok(()))).is_none());
}

#[test]
fn applying_in_bytewise_order_runs_in_that_order() {
    let mut disk = Disk::with_files(&[("x", "1"), ("y", "2")]);
    let mut renamer = Renamer::new();
    renamer.add("x".to_string(), "file2".to_string());
    renamer.add("y".to_string(), "file10".to_string());
    disk.apply(renamer.plan_with(&TargetOrder::bytewise())).unwrap();
    let moves: Vec<&Action> =
        disk.log.iter().filter(|action| matches!(action, Action::Move { .. })).collect();
    assert_eq!(moves, [&move_to("y", "file10"), &move_to("x", "file2")]);
}
