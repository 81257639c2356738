use plugin_lock::command::{reuse, source, Reuse};
use plugin_lock::config::SourceKind;
use plugin_lock::lock::{FetchError, FetchErrorKind, LockedConfig, Observation, ResolvedPlugin};
use plugin_lock::render::{render, Piece};

fn default_template() -> Vec<Piece> {
    vec![Piece::Text("source \"".to_string()), Piece::File, Piece::Text("\"\n".to_string())]
}

fn plugin(name: &str, files: &[&str], template: Option<Vec<Piece>>) -> ResolvedPlugin {
    ResolvedPlugin {
        name: name.to_string(),
        kind: SourceKind::Local,
        identity: format!("/src/{}", name),
        dir: format!("/cache/{}", name),
        files: files.iter().map(|f| f.to_string()).collect(),
        modified: 3,
        template,
    }
}

fn sample() -> LockedConfig {
    LockedConfig {
        fingerprint: 9,
        plugins: vec![
            plugin("a", &["/cache/a/1.zsh", "/cache/a/2.zsh"], None),
            plugin(
                "b",
                &["/cache/b/b.zsh"],
                Some(vec![Piece::Name, Piece::Text("=".to_string()), Piece::Dir, Piece::Text(";".to_string()), Piece::Identity, Piece::Text("\n".to_string())]),
            ),
        ],
        errors: Vec::new(),
    }
}

#[test]
fn render_applies_templates_in_order() {
    let out = render(&sample(), &default_template());
    assert_eq!(
        out,
        "source \"/cache/a/1.zsh\"\nsource \"/cache/a/2.zsh\"\nb=/cache/b;/src/b\n"
    );
}

#[test]
fn render_is_deterministic() {
    let l = sample();
    assert_eq!(render(&l, &default_template()), render(&l, &default_template()));
}

#[test]
fn render_of_no_plugins_is_empty() {
    let l = LockedConfig { fingerprint: 0, plugins: Vec::new(), errors: Vec::new() };
    assert_eq!(render(&l, &default_template()), "");
}

#[test]
fn reuse_a_valid_lock() {
    let obs = vec![Observation { dir_exists: true, modified: 3 }; 2];
    assert!(matches!(reuse(false, false, Some(sample()), 9, &obs), Reuse::Reuse(_)));
    assert!(matches!(reuse(true, false, Some(sample()), 9, &obs), Reuse::Relock));
    assert!(matches!(reuse(false, true, Some(sample()), 9, &obs), Reuse::Relock));
    assert!(matches!(reuse(false, false, None, 9, &obs), Reuse::Relock));
    assert!(matches!(reuse(false, false, Some(sample()), 10, &obs), Reuse::Relock));
}

#[test]
fn source_writes_only_a_fresh_error_free_lock() {
    let entries = vec!["/cache/a".to_string(), "/cache/gone".to_string()];
    let p = source(sample(), true, &default_template(), &entries);
    assert!(p.write);
    assert_eq!(p.stale, vec!["/cache/gone".to_string()]);
    assert!(p.script.starts_with("source \"/cache/a/1.zsh\""));

    let p = source(sample(), false, &default_template(), &entries);
    assert!(!p.write);
    assert!(p.stale.is_empty());

    let mut l = sample();
    l.errors.push(FetchError {
        plugin: "c".to_string(),
        kind: FetchErrorKind::Authentication,
        detail: String::new(),
    });
    let p = source(l, true, &default_template(), &entries);
    assert!(!p.write);
    assert!(p.stale.is_empty());
    assert_eq!(p.locked.errors.len(), 1);
    assert_eq!(p.script, "source \"/cache/a/1.zsh\"\nsource \"/cache/a/2.zsh\"\nb=/cache/b;/src/b\n");
}
