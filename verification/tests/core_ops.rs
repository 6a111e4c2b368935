use play::config::{setup_action, config_file_path, default_config, Config, ExternalTemplate, SetupAction};
use play::error::PlayError;
use play::ignore_rules::is_excluded;
use play::lister::{list_projects, DirEntry};
use play::paths::{join_rel, join_under};
use play::registry::{has_name, template_names};
use play::textlines::split_lines;

fn s(text: &str) -> String {
    text.to_string()
}

fn empty_config(target: &str, templates: &str) -> Config {
    Config { target_dir: s(target), templates_dir: s(templates), external: Vec::new() }
}

#[test]
fn describe_unknown_template() {
    let e = PlayError::UnknownTemplate { name: s("rocket") };
    assert_eq!(e.describe(), "unknown template: rocket");
}

#[test]
fn describe_source_not_found() {
    let e = PlayError::SourceNotFound { path: s("/tpl/foo") };
    assert_eq!(e.describe(), "template directory not found: /tpl/foo");
}

#[test]
fn describe_config_errors() {
    assert_eq!(
        PlayError::ConfigMissing.describe(),
        "the config file does not exist, please create it"
    );
    assert_eq!(PlayError::ConfigMalformed.describe(), "the config file is malformed");
    assert_eq!(PlayError::Io { path: s("/x") }.describe(), "io failure at: /x");
    assert_eq!(PlayError::Subprocess.describe(), "the external command failed");
}

#[test]
fn split_lines_basic() {
    assert_eq!(split_lines(&s("a\nbb\nc")), vec![s("a"), s("bb"), s("c")]);
}

#[test]
fn split_lines_trailing_newline() {
    assert_eq!(split_lines(&s("node_modules\n")), vec![s("node_modules"), s("")]);
}

#[test]
fn split_lines_empty() {
    assert_eq!(split_lines(&s("")), vec![s("")]);
}

#[test]
fn split_lines_beyond_ascii() {
    assert_eq!(split_lines(&s("héllo\nwörld")), vec![s("héllo"), s("wörld")]);
}

#[test]
fn excluded_by_anchored_path_pattern() {
    let patterns = vec![s("sub/b.txt")];
    assert!(is_excluded(&patterns, &vec![s("sub"), s("b.txt")], false));
    assert!(!is_excluded(&patterns, &vec![s("sub")], true));
    assert!(!is_excluded(&patterns, &vec![s("other"), s("sub"), s("b.txt")], false));
}

#[test]
fn join_under_basic() {
    assert_eq!(join_under(&s("/tpl"), &s("foo")), "/tpl/foo");
}

#[test]
fn join_rel_components() {
    assert_eq!(join_rel(&s("/out"), &vec![s("a"), s("b"), s("c.txt")]), "/out/a/b/c.txt");
}

#[test]
fn join_rel_empty_is_root() {
    assert_eq!(join_rel(&s("/out"), &Vec::new()), "/out");
}

#[test]
fn has_name_membership() {
    let names = vec![s("rust"), s("web")];
    assert!(has_name(&names, &s("web")));
    assert!(!has_name(&names, &s("zig")));
}

#[test]
fn template_names_union() {
    let mut config = empty_config("/out", "/tpl");
    config.external.push(ExternalTemplate { name: s("site"), command: s("mksite") });
    let names = template_names(&vec![s("rust"), s("web")], &config);
    assert_eq!(names, vec![s("rust"), s("web"), s("site")]);
}

#[test]
fn external_command_lookup() {
    let mut config = empty_config("/out", "/tpl");
    config.external.push(ExternalTemplate { name: s("site"), command: s("mksite --init") });
    assert_eq!(config.external_command(&s("site")), Some(s("mksite --init")));
    assert_eq!(config.external_command(&s("rust")), None);
}

#[test]
fn setup_action_cases() {
    assert_eq!(setup_action(false, true), SetupAction::ParseExisting);
    assert_eq!(setup_action(true, true), SetupAction::ParseExisting);
    assert_eq!(setup_action(true, false), SetupAction::FailMissingConfig);
    assert_eq!(setup_action(false, false), SetupAction::CreateDefault);
}

#[test]
fn default_config_bootstrap() {
    let config = default_config(&s("/home/someone"));
    assert_eq!(config.target_dir, "/home/someone/playground");
    assert_eq!(config.templates_dir, "/home/someone/playground/.templates");
    assert!(config.external.is_empty());
    assert!(!config.target_dir.is_empty());
    assert!(!config.templates_dir.is_empty());
}

#[test]
fn config_file_path_override() {
    assert_eq!(config_file_path(Some(s("/etc/play.json")), &s("/cfg")), "/etc/play.json");
}

#[test]
fn config_file_path_default() {
    assert_eq!(config_file_path(None, &s("/home/someone/.config")), "/home/someone/.config/play/play.json");
}

#[test]
fn list_projects_empty_dir() {
    let names = list_projects(true, &Vec::new());
    assert!(names.is_empty());
}

#[test]
fn list_projects_missing_dir_is_empty() {
    let entries = vec![DirEntry { name: s("ghost"), is_dir: true }];
    let names = list_projects(false, &entries);
    assert!(names.is_empty());
}

#[test]
fn list_projects_only_directories() {
    let entries = vec![
        DirEntry { name: s("demo"), is_dir: true },
        DirEntry { name: s("notes.txt"), is_dir: false },
        DirEntry { name: s("second"), is_dir: true },
    ];
    assert_eq!(list_projects(true, &entries), vec![s("demo"), s("second")]);
}

#[test]
fn excluded_by_name_anywhere() {
    let patterns = vec![s("node_modules")];
    assert!(is_excluded(&patterns, &vec![s("node_modules")], true));
    assert!(is_excluded(&patterns, &vec![s("node_modules"), s("left-pad.js")], false));
    assert!(is_excluded(&patterns, &vec![s("web"), s("node_modules")], true));
    assert!(!is_excluded(&patterns, &vec![s("src"), s("main.rs")], false));
}

#[test]
fn excluded_nothing_without_patterns() {
    assert!(!is_excluded(&Vec::new(), &vec![s("node_modules")], true));
}

#[test]
fn excluded_respects_whitelist() {
    let patterns = vec![s("*.log"), s("!keep.log")];
    assert!(is_excluded(&patterns, &vec![s("debug.log")], false));
    assert!(!is_excluded(&patterns, &vec![s("keep.log")], false));
}

#[test]
fn excluded_directory_only_pattern() {
    let patterns = vec![s("build/")];
    assert!(is_excluded(&patterns, &vec![s("build")], true));
    assert!(!is_excluded(&patterns, &vec![s("build")], false));
}

#[test]
fn excluded_root_never() {
    let patterns = vec![s("*")];
    assert!(!is_excluded(&patterns, &Vec::new(), true));
}
