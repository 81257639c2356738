use plugin_lock::command::{init, init_config, run, InitConfigStep, InitStep};
use plugin_lock::config::{add, find, remove, EditError, SourceKind, SourceSpec};

fn spec(name: &str) -> SourceSpec {
    SourceSpec {
        name: name.to_string(),
        kind: SourceKind::Local,
        locator: format!("/plugins/{}", name),
        revision: None,
        subdir: None,
        uses: vec!["*.zsh".to_string()],
        template: None,
    }
}

fn names(c: &[SourceSpec]) -> Vec<String> {
    c.iter().map(|s| s.name.clone()).collect()
}

#[test]
fn add_appends_a_new_plugin() {
    let mut c = vec![spec("a")];
    assert!(add(&mut c, spec("b")).is_ok());
    assert_eq!(names(&c), vec!["a", "b"]);
    assert_eq!(find(&c, &"b".to_string()), Some(1));
}

#[test]
fn add_refuses_a_taken_name() {
    let mut c = vec![spec("a"), spec("b")];
    match add(&mut c, spec("a")) {
        Err(EditError::AlreadyExists { name }) => assert_eq!(name, "a"),
        Ok(()) => panic!("duplicate name accepted"),
    }
    assert_eq!(names(&c), vec!["a", "b"]);
}

#[test]
fn remove_takes_out_the_named_plugin() {
    let mut c = vec![spec("a"), spec("b"), spec("c")];
    remove(&mut c, &"b".to_string());
    assert_eq!(names(&c), vec!["a", "c"]);
    assert_eq!(find(&c, &"b".to_string()), None);
}

#[test]
fn remove_of_an_unknown_name_changes_nothing() {
    let mut c = vec![spec("a")];
    remove(&mut c, &"zz".to_string());
    assert_eq!(names(&c), vec!["a"]);
}

#[test]
fn init_config_decisions() {
    assert_eq!(init_config(true, true), InitConfigStep::Create);
    assert_eq!(init_config(true, false), InitConfigStep::Abort);
    assert_eq!(init_config(false, true), InitConfigStep::Propagate);
    assert_eq!(init_config(false, false), InitConfigStep::Propagate);
}

#[test]
fn init_leaves_an_existing_file() {
    assert_eq!(init(true), InitStep::AlreadyInitialized);
    assert_eq!(init(false), InitStep::Initialize);
}

#[test]
fn run_reports_warnings_then_the_error() {
    let r = run(Err("boom".to_string()), vec!["w1".to_string(), "w2".to_string()]);
    assert!(r.failed);
    assert_eq!(r.messages, vec!["w1", "w2", "boom"]);
    let r = run::<String>(Ok(()), vec!["w".to_string()]);
    assert!(!r.failed);
    assert_eq!(r.messages, vec!["w"]);
}
