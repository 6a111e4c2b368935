use play::commands::{plan_new, Instantiation};
use play::config::{Config, ExternalTemplate};
use play::copier::{copy_plan, copy_tree_plan, WalkEntry};
use play::error::PlayError;
use play::lister::{list_projects, DirEntry};
use play::paths::join_rel;
use play::registry::template_names;
use play::textlines::split_lines;

fn s(text: &str) -> String {
    text.to_string()
}

fn entry(parts: &[&str], is_dir: bool) -> WalkEntry {
    WalkEntry { rel: parts.iter().map(|p| s(p)).collect(), is_dir }
}

fn rels(plan: &[WalkEntry]) -> Vec<(Vec<String>, bool)> {
    plan.iter().map(|e| (e.rel.clone(), e.is_dir)).collect()
}

/// A tiny in-memory stand-in for a destination tree: files by joined path,
/// directories as a path list. Running a plan against it mirrors what the
/// front end does on the real filesystem.
fn run_plan(
    plan: &[WalkEntry],
    source: &[(&str, &[u8])],
    state: &mut (Vec<(String, Vec<u8>)>, Vec<String>),
) {
    for e in plan {
        let at = join_rel(&s("dest"), &e.rel);
        if e.is_dir {
            if !state.1.contains(&at) {
                state.1.push(at);
            }
        } else {
            let joined = e.rel.join("/");
            let bytes = source
                .iter()
                .find(|(p, _)| *p == joined)
                .map(|(_, b)| b.to_vec())
                .unwrap_or_default();
            if let Some(slot) = state.0.iter_mut().find(|(p, _)| *p == at) {
                slot.1 = bytes;
            } else {
                state.0.push((at, bytes));
            }
        }
    }
}

#[test]
fn round_trip_plan_keeps_everything() {
    let entries = vec![
        entry(&[], true),
        entry(&["a.txt"], false),
        entry(&["sub"], true),
        entry(&["sub", "b.txt"], false),
    ];
    let plan = copy_plan(&entries, &Vec::new());
    assert_eq!(rels(&plan), rels(&entries));
}

#[test]
fn ignored_names_never_reach_the_plan() {
    let patterns = split_lines(&s("node_modules\n"));
    let entries = vec![
        entry(&[], true),
        entry(&["a.txt"], false),
        entry(&["node_modules"], true),
        entry(&["node_modules", "left-pad"], true),
        entry(&["node_modules", "left-pad", "index.js"], false),
        entry(&["sub"], true),
        entry(&["sub", "b.txt"], false),
    ];
    let plan = copy_plan(&entries, &patterns);
    let expected = vec![
        entry(&[], true),
        entry(&["a.txt"], false),
        entry(&["sub"], true),
        entry(&["sub", "b.txt"], false),
    ];
    assert_eq!(rels(&plan), rels(&expected));
    for e in &plan {
        assert!(!e.rel.iter().any(|part| part == "node_modules"));
    }
}

#[test]
fn recopy_is_idempotent() {
    let entries = vec![
        entry(&[], true),
        entry(&["a.txt"], false),
        entry(&["sub"], true),
        entry(&["sub", "b.txt"], false),
    ];
    let source: &[(&str, &[u8])] = &[("a.txt", b"alpha"), ("sub/b.txt", b"beta")];
    let plan = copy_plan(&entries, &Vec::new());
    let mut state: (Vec<(String, Vec<u8>)>, Vec<String>) = (Vec::new(), Vec::new());
    run_plan(&plan, source, &mut state);
    let after_once = state.clone();
    run_plan(&plan, source, &mut state);
    assert_eq!(state, after_once);
    assert_eq!(state.0.len(), 2);
}

#[test]
fn missing_source_fails_cleanly() {
    let r = copy_tree_plan(false, false, &s("/tpl/nope"), &Vec::new(), &Vec::new());
    match r {
        Err(PlayError::SourceNotFound { path }) => assert_eq!(path, "/tpl/nope"),
        _ => panic!("a missing source must be reported as SourceNotFound"),
    }
}

#[test]
fn source_that_is_a_file_fails_cleanly() {
    let r = copy_tree_plan(true, false, &s("/tpl/file.txt"), &Vec::new(), &Vec::new());
    assert!(matches!(r, Err(PlayError::SourceNotFound { .. })));
}

#[test]
fn new_then_ls_scenario() {
    let config = Config { target_dir: s("/out"), templates_dir: s("/tpl"), external: Vec::new() };
    let dirs = vec![s("foo")];
    assert_eq!(template_names(&dirs, &config), vec![s("foo")]);

    let plan = plan_new(&config, &dirs, &s("foo"), Some(s("demo")), s("generated-name"))
        .expect("foo is an available template");
    assert_eq!(plan.template_parent, "/out/foo");
    assert_eq!(plan.project_name, "demo");
    let (source_dir, dest_dir) = match plan.instantiation {
        Instantiation::CopyFiles { source_dir, dest_dir } => (source_dir, dest_dir),
        Instantiation::RunExternal { .. } => panic!("foo is not an external template"),
    };
    assert_eq!(source_dir, "/tpl/foo");
    assert_eq!(dest_dir, "/out/foo/demo");

    let entries = vec![
        entry(&[], true),
        entry(&["a.txt"], false),
        entry(&["sub"], true),
        entry(&["sub", "b.txt"], false),
    ];
    let copy = copy_plan(&entries, &Vec::new());
    let placed: Vec<String> = copy
        .iter()
        .filter(|e| !e.is_dir)
        .map(|e| join_rel(&dest_dir, &e.rel))
        .collect();
    assert_eq!(placed, vec![s("/out/foo/demo/a.txt"), s("/out/foo/demo/sub/b.txt")]);

    let listing = list_projects(true, &vec![DirEntry { name: s("demo"), is_dir: true }]);
    assert_eq!(listing, vec![s("demo")]);
}

#[test]
fn external_template_wins() {
    let config = Config {
        target_dir: s("/out"),
        templates_dir: s("/tpl"),
        external: vec![ExternalTemplate { name: s("site"), command: s("mksite --init") }],
    };
    let plan = plan_new(&config, &vec![s("site")], &s("site"), None, s("brave-blue-fox"))
        .expect("site is an available template");
    assert_eq!(plan.project_name, "brave-blue-fox");
    assert_eq!(plan.template_parent, "/out/site");
    match plan.instantiation {
        Instantiation::RunExternal { command } => assert_eq!(command, "mksite --init"),
        Instantiation::CopyFiles { .. } => panic!("external templates must not copy files"),
    }
}

#[test]
fn unknown_template_is_rejected() {
    let config = Config { target_dir: s("/out"), templates_dir: s("/tpl"), external: Vec::new() };
    let r = plan_new(&config, &vec![s("foo")], &s("bar"), None, s("x"));
    match r {
        Err(PlayError::UnknownTemplate { name }) => assert_eq!(name, "bar"),
        _ => panic!("bar is not an available template"),
    }
}

#[test]
fn generated_name_used_when_none_chosen() {
    let config = Config { target_dir: s("/out"), templates_dir: s("/tpl"), external: Vec::new() };
    let plan = plan_new(&config, &vec![s("foo")], &s("foo"), None, s("calm-green-hill"))
        .expect("foo is an available template");
    assert_eq!(plan.project_name, "calm-green-hill");
    match plan.instantiation {
        Instantiation::CopyFiles { dest_dir, .. } => {
            assert_eq!(dest_dir, "/out/foo/calm-green-hill")
        },
        Instantiation::RunExternal { .. } => panic!("foo is not an external template"),
    }
}
