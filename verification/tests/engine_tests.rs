use rincron_mini::dispatch::DispatchOutcome;
use rincron_mini::file_check::FileCheck;
use rincron_mini::stability::StabilityTracker;
use rincron_mini::supervisor::{ChildStatus, ProcessSupervisor};
use rincron_mini::watch_element::{WatchElement, MASK_CLOSE_WRITE};
use rincron_mini::watch_manager::WatchManager;

fn element(path: &str, command: &str) -> WatchElement {
    WatchElement {
        path: path.to_string(),
        command: command.to_string(),
        mask: MASK_CLOSE_WRITE,
        file_match: String::new(),
        check_interval: 0,
    }
}

#[test]
fn new_file_check_starts_with_full_countdown() {
    let fc = FileCheck::new("/up/f", 5_000, "echo f");
    assert_eq!(fc.path, "/up/f");
    assert_eq!(fc.cmd, "echo f");
    assert_eq!(fc.size, 0);
    assert_eq!(fc.next_check, 5_000);
    assert_eq!(fc.check_interval, 5_000);
}

#[test]
fn tick_subtracts_elapsed_time() {
    let mut fc = FileCheck::new("/up/f", 1_000, "echo f");
    fc.tick(100);
    assert_eq!(fc.next_check, 900);
    fc.tick(900);
    assert_eq!(fc.next_check, 0);
    fc.tick(100);
    assert_eq!(fc.next_check, -100);
}

#[test]
fn tick_saturates_instead_of_wrapping() {
    let mut fc = FileCheck::new("/up/f", i64::MIN + 5, "echo f");
    fc.tick(100);
    assert_eq!(fc.next_check, i64::MIN);
}

#[test]
fn check_before_countdown_expires_does_nothing() {
    let mut fc = FileCheck::new("/up/f", 1_000, "echo f");
    fc.tick(100);
    assert!(fc.has_changed(42));
    assert_eq!(fc.size, 0);
    assert_eq!(fc.next_check, 900);
}

#[test]
fn due_check_with_unchanged_size_is_stable_after_one_evaluation() {
    let mut fc = FileCheck::new("/up/f", 1_000, "echo f");
    for _ in 0..7 {
        fc.tick(200);
    }
    assert!(fc.is_due());
    assert!(!fc.has_changed(0));
}

#[test]
fn due_check_with_changed_size_resets_the_full_countdown() {
    let mut fc = FileCheck::new("/up/f", 1_000, "echo f");
    fc.tick(1_500);
    assert!(fc.is_due());
    assert!(fc.has_changed(4_096));
    assert_eq!(fc.size, 4_096);
    assert_eq!(fc.next_check, 1_000);
    fc.tick(1_000);
    assert!(!fc.has_changed(4_096));
}

#[test]
fn reload_preserves_an_unchanged_watch() {
    let mut m = WatchManager::new();
    m.begin_transaction();
    m.add_element(element("/tmp/in", "echo $#"));
    let (removed, added) = m.end_transaction();
    assert_eq!(removed.len(), 0);
    assert_eq!(added.len(), 1);
    m.install(7, element("/tmp/in", "echo $#"));

    m.begin_transaction();
    m.add_element(element("/tmp/in", "echo $#"));
    let (removed, added) = m.end_transaction();
    assert_eq!(removed.len(), 0);
    assert_eq!(added.len(), 0);
    assert!(m.search_element(7).is_some());
    assert_eq!(m.search_element(7).unwrap().path, "/tmp/in");
}

#[test]
fn reload_removes_stale_and_adds_new() {
    let mut m = WatchManager::new();
    m.install(1, element("/old", "a"));
    m.install(2, element("/both", "b"));

    m.begin_transaction();
    m.add_element(element("/both", "b"));
    m.add_element(element("/new", "c"));
    let (removed, added) = m.end_transaction();

    assert_eq!(removed.len(), 1);
    assert_eq!(removed[0].descriptor, 1);
    assert_eq!(removed[0].element.path, "/old");
    assert_eq!(added.len(), 1);
    assert_eq!(added[0].path, "/new");

    m.install(3, added[0].clone());
    assert_eq!(m.search_element(2).unwrap().path, "/both");
    assert_eq!(m.search_element(3).unwrap().path, "/new");
    assert!(m.search_element(1).is_none());
}

#[test]
fn a_changed_element_is_torn_down_and_readded() {
    let mut m = WatchManager::new();
    m.install(1, element("/dir", "old command"));
    m.begin_transaction();
    m.add_element(element("/dir", "new command"));
    let (removed, added) = m.end_transaction();
    assert_eq!(removed.len(), 1);
    assert_eq!(removed[0].descriptor, 1);
    assert_eq!(added.len(), 1);
    assert_eq!(added[0].command, "new command");
}

#[test]
fn install_replaces_the_pair_with_the_same_handle() {
    let mut m = WatchManager::new();
    m.install(5, element("/a", "x"));
    m.install(5, element("/a", "y"));
    assert_eq!(m.search_element(5).unwrap().command, "y");
}

#[test]
fn unknown_handle_resolves_to_nothing() {
    let mut m = WatchManager::new();
    m.install(5, element("/a", "x"));
    assert!(m.search_element(6).is_none());
}

#[test]
fn tracker_routes_immediate_and_deferred() {
    let mut t = StabilityTracker::new();
    t.route(DispatchOutcome::Execute(FileCheck::new("/a", 0, "run a")));
    t.route(DispatchOutcome::Defer(FileCheck::new("/b", 1_000, "run b")));
    t.route(DispatchOutcome::Discarded);
    assert_eq!(t.file_executions.len(), 1);
    assert_eq!(t.file_checks.len(), 1);
    assert_eq!(t.file_executions[0].cmd, "run a");
    assert_eq!(t.file_checks[0].cmd, "run b");
}

#[test]
fn tracker_tick_advances_every_countdown() {
    let mut t = StabilityTracker::new();
    t.route(DispatchOutcome::Defer(FileCheck::new("/a", 1_000, "a")));
    t.route(DispatchOutcome::Defer(FileCheck::new("/b", 300, "b")));
    t.file_watch_tick(100);
    assert_eq!(t.file_checks[0].next_check, 900);
    assert_eq!(t.file_checks[1].next_check, 200);
}

#[test]
fn sweep_promotes_stable_checks_and_resets_changed_ones() {
    let mut t = StabilityTracker::new();
    t.route(DispatchOutcome::Defer(FileCheck::new("/stable", 100, "run stable")));
    t.route(DispatchOutcome::Defer(FileCheck::new("/growing", 100, "run growing")));
    t.route(DispatchOutcome::Defer(FileCheck::new("/early", 300, "run early")));
    t.file_watch_tick(200);

    let sizes = vec![0, 512, 0];
    t.file_watch(&sizes);

    assert_eq!(t.file_executions.len(), 1);
    assert_eq!(t.file_executions[0].cmd, "run stable");
    assert_eq!(t.file_checks.len(), 2);
    assert_eq!(t.file_checks[0].cmd, "run growing");
    assert_eq!(t.file_checks[0].size, 512);
    assert_eq!(t.file_checks[0].next_check, 100);
    assert_eq!(t.file_checks[1].cmd, "run early");
    assert_eq!(t.file_checks[1].next_check, 100);

    let ready = t.take_executions();
    assert_eq!(ready.len(), 1);
    assert_eq!(ready[0].cmd, "run stable");
    assert_eq!(t.file_executions.len(), 0);
    assert_eq!(t.file_checks.len(), 2);
}

#[test]
fn reaping_removes_exactly_the_finished_children() {
    let mut s = ProcessSupervisor::new();
    s.register_child(10);
    s.register_child(20);
    s.register_child(30);
    let statuses = vec![ChildStatus::Running, ChildStatus::Exited, ChildStatus::Running];
    let removed = s.watch_children(&statuses);
    assert_eq!(s.child_processes, vec![10, 30]);
    assert_eq!(removed, vec![1]);
}

#[test]
fn reaping_returns_removals_in_descending_order() {
    let mut s = ProcessSupervisor::new();
    s.register_child(10);
    s.register_child(20);
    s.register_child(30);
    let statuses = vec![ChildStatus::Error, ChildStatus::Running, ChildStatus::Exited];
    let removed = s.watch_children(&statuses);
    assert_eq!(s.child_processes, vec![20]);
    assert_eq!(removed, vec![2, 0]);
}

#[test]
fn reaping_with_all_running_removes_nothing() {
    let mut s = ProcessSupervisor::new();
    s.register_child(10);
    s.register_child(20);
    let statuses = vec![ChildStatus::Running, ChildStatus::Running];
    let removed = s.watch_children(&statuses);
    assert_eq!(s.child_processes, vec![10, 20]);
    assert_eq!(removed.len(), 0);
}

#[test]
fn event_for_an_unknown_handle_changes_nothing() {
    let mut m = WatchManager::new();
    m.install(1, element("/dir", "echo $#"));
    let mut t = StabilityTracker::new();
    rincron_mini::dispatch::process_event(&m, &mut t, 99, "a.txt");
    assert_eq!(t.file_checks.len(), 0);
    assert_eq!(t.file_executions.len(), 0);
    rincron_mini::dispatch::process_event(&m, &mut t, 1, "a.txt");
    assert_eq!(t.file_executions.len(), 1);
    assert_eq!(t.file_executions[0].cmd, "echo a.txt");
}
