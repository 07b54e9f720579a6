use builder_supervisor::builder::Builder;
use builder_supervisor::output::{Output, TaggedLine};
use builder_supervisor::registry::Registry;

#[test]
fn output_new_is_empty() {
    let o = Output::new();
    assert_eq!(o.out, "");
    assert_eq!(o.err, "");
}

#[test]
fn append_lines_accumulates_by_origin() {
    let mut o = Output::new();
    let lines = vec![
        TaggedLine::Stdout(String::from("building")),
        TaggedLine::Stderr(String::from("warning: slow")),
        TaggedLine::Stdout(String::from("done")),
    ];
    o.append_lines(&lines);
    assert_eq!(o.out, "building\ndone\n");
    assert_eq!(o.err, "warning: slow\n");
}

#[test]
fn echo_script_output() {
    // A script that prints "a" to stdout and exits: once its single line
    // has been delivered, the drained output is exactly "a\n" / "".
    let mut b = Builder::new(String::from("echo.sh"), 100);
    let first = b.drain_output(&Vec::new());
    assert_eq!(first.out, "");
    assert_eq!(first.err, "");
    let o = b.drain_output(&vec![TaggedLine::Stdout(String::from("a"))]);
    assert_eq!(o.out, "a\n");
    assert_eq!(o.err, "");
}

#[test]
fn drain_is_not_destructive() {
    let mut b = Builder::new(String::from("watch.sh"), 42);
    let lines = vec![
        TaggedLine::Stdout(String::from("one")),
        TaggedLine::Stderr(String::from("two")),
    ];
    let first = b.drain_output(&lines);
    let second = b.drain_output(&Vec::new());
    assert_eq!(first.out, second.out);
    assert_eq!(first.err, second.err);
    assert_eq!(second.out, "one\n");
    assert_eq!(second.err, "two\n");
}

#[test]
fn drain_returns_full_history_not_delta() {
    let mut b = Builder::new(String::from("build.sh"), 7);
    b.drain_output(&vec![TaggedLine::Stdout(String::from("first"))]);
    let o = b.drain_output(&vec![TaggedLine::Stdout(String::from("second"))]);
    assert_eq!(o.out, "first\nsecond\n");
}

#[test]
fn signal_target_is_negated_group_id() {
    // The termination signal goes to the negative of the group id, so it
    // reaches the whole process group, forked descendants included.
    let b = Builder::new(String::from("fork.sh"), 1234);
    assert_eq!(b.signal_target(), -1234);
}

#[test]
fn registry_starts_empty() {
    let r = Registry::new();
    assert!(!r.contains(&String::from("web")));
}

#[test]
fn spawn_success_registers_fresh_builder() {
    let mut r = Registry::new();
    let name = String::from("web");
    r.apply_spawn_success(&name, 321);
    assert!(r.contains(&name));
    let o = r.drain_output(&name, &Vec::new()).unwrap();
    assert_eq!(o.out, "");
    assert_eq!(o.err, "");
}

#[test]
fn redeploy_clears_previous_generation_output() {
    let mut r = Registry::new();
    let name = String::from("web");
    r.apply_spawn_success(&name, 50);
    r.drain_output(&name, &vec![TaggedLine::Stdout(String::from("old generation"))]);
    // Redeploy: the fresh generation replaces buffers and history wholesale.
    r.apply_spawn_success(&name, 51);
    let o = r
        .drain_output(&name, &vec![TaggedLine::Stdout(String::from("new generation"))])
        .unwrap();
    assert_eq!(o.out, "new generation\n");
    assert_eq!(o.err, "");
}

#[test]
fn unknown_name_is_absent_not_a_crash() {
    let mut r = Registry::new();
    let name = String::from("nonesuch");
    assert!(r.drain_output(&name, &Vec::new()).is_none());
    assert!(r.group_to_signal(&name).is_none());
    r.apply_spawn_failure(&name);
    assert!(!r.contains(&name));
}

#[test]
fn spawn_failure_leaves_name_absent() {
    let mut r = Registry::new();
    let name = String::from("web");
    r.apply_spawn_success(&name, 60);
    // The old generation was signalled and the respawn failed: the entry
    // goes away rather than exposing a half-initialized builder.
    r.apply_spawn_failure(&name);
    assert!(!r.contains(&name));
    assert!(r.drain_output(&name, &Vec::new()).is_none());
}

#[test]
fn redeploy_signals_old_group_then_replaces() {
    let mut r = Registry::new();
    let name = String::from("web");
    r.apply_spawn_success(&name, 70);
    assert_eq!(r.group_to_signal(&name), Some(-70));
    r.apply_spawn_success(&name, 71);
    assert_eq!(r.group_to_signal(&name), Some(-71));
}

#[test]
fn registry_keeps_other_entries_apart() {
    let mut r = Registry::new();
    let web = String::from("web");
    let db = String::from("db");
    r.apply_spawn_success(&web, 80);
    r.apply_spawn_success(&db, 81);
    r.drain_output(&web, &vec![TaggedLine::Stdout(String::from("from web"))]);
    let o = r.drain_output(&db, &vec![TaggedLine::Stderr(String::from("from db"))]).unwrap();
    assert_eq!(o.out, "");
    assert_eq!(o.err, "from db\n");
    let o = r.drain_output(&web, &Vec::new()).unwrap();
    assert_eq!(o.out, "from web\n");
    assert_eq!(o.err, "");
}

#[test]
fn shutdown_targets_every_group() {
    let mut r = Registry::new();
    r.apply_spawn_success(&String::from("web"), 90);
    r.apply_spawn_success(&String::from("db"), 91);
    let ts = r.signal_targets();
    assert_eq!(ts.len(), 2);
    assert!(ts.contains(&-90));
    assert!(ts.contains(&-91));
}
