use snpm::cache::{
    cache_directory, cache_entry_name, cache_scratch_name, cache_tarball_name, join_path, package_root, unquote_range,
};
use snpm::cli::{has_flag, join_from, parse_command, usage_lines, Command, MissingArgument};
use snpm::logger::{colorize, format_level_line, format_message};
use snpm::manifest::{install_jobs, parse_manifest, ManifestError};
use snpm::task::{
    binary_candidates, get_framework_info, is_binary_file, plan_script, plan_task, searches_directory, split_words,
    TaskPlan,
};
use snpm::text::{starts_with, str_eq, substitute, trim_char};

fn args(v: &[&str]) -> Vec<String> {
    v.iter().map(|s| s.to_string()).collect()
}

#[test]
fn colours() {
    assert_eq!(colorize("red", "hi"), "\x1b[31mhi\x1b[0m");
    assert_eq!(colorize("orange", "x"), "\x1b[33mx\x1b[0m");
    assert_eq!(colorize("grey", "x"), "\x1b[90mx\x1b[0m");
    assert_eq!(colorize("pink", "x"), "\x1b[38;5;207mx\x1b[0m");
    assert_eq!(colorize("nextjs_pink", "x"), "\x1b[38;5;183mx\x1b[0m");
    assert_eq!(colorize("chartreuse", "plain"), "plain");
    assert_eq!(colorize("", ""), "");
}

#[test]
fn log_lines() {
    let white = "\x1b[97msnpm\x1b[0m";
    assert_eq!(format_level_line("m", "info"), format!("{} \x1b[94minfo\x1b[0m m", white));
    assert_eq!(format_level_line("m", "warn"), format!("{} \x1b[33mwarn\x1b[0m m", white));
    assert_eq!(format_level_line("m", "error"), format!("{} \x1b[31merr\x1b[0m m", white));
    assert_eq!(format_level_line("m", "debug"), "Unknown color m");
}

#[test]
fn log_levels_ignore_case() {
    let white = "\x1b[97msnpm\x1b[0m";
    assert_eq!(format_message("done".to_string(), "INFO"), format!("{} \x1b[94minfo\x1b[0m done", white));
    assert_eq!(format_message("oops".to_string(), "Error"), format!("{} \x1b[31merr\x1b[0m oops", white));
    assert_eq!(format_message("x".to_string(), "Trace"), "Unknown color x");
}

#[test]
fn text_helpers() {
    assert!(str_eq("abc", "abc"));
    assert!(!str_eq("abc", "abd"));
    assert!(!str_eq("abc", "ab"));
    assert!(starts_with("@scope/pkg", "@"));
    assert!(!starts_with("", "@"));
    assert_eq!(trim_char("\"^1.0\"\"", '"'), "^1.0");
    assert_eq!(substitute("@a/b@c", '@', "", '/', "%2F"), "a%2Fbc");
}

#[test]
fn cache_names() {
    assert_eq!(cache_entry_name("left-pad", "^1.3.0"), "left-pad_^1.3.0");
    assert_eq!(cache_tarball_name("left-pad_^1.3.0"), "left-pad_^1.3.0.tgz");
    assert_eq!(cache_scratch_name("left-pad_^1.3.0"), "left-pad_^1.3.0.tmp");
    assert_eq!(unquote_range("\"~2.1\""), "~2.1");
    assert_eq!(unquote_range("~2.1"), "~2.1");
}

#[test]
fn cache_location() {
    assert_eq!(cache_directory(true, Some("/home/u")).unwrap(), "C:\\snpm_cache");
    assert_eq!(cache_directory(false, Some("/home/u")).unwrap(), "/home/u/.snpm_cache");
    assert_eq!(cache_directory(false, Some("/")).unwrap(), "/.snpm_cache");
    assert_eq!(cache_directory(false, None), None);
    assert_eq!(join_path("", "x"), "x");
}

#[test]
fn archive_root() {
    let l = |v: &[(&str, bool)]| v.iter().map(|(n, d)| (n.to_string(), *d)).collect::<Vec<_>>();
    assert_eq!(package_root(&l(&[("README", false), ("package", true)])), Some(1));
    assert_eq!(package_root(&l(&[("a", true), ("b", true)])), None);
    assert_eq!(package_root(&l(&[("a", false)])), None);
    assert_eq!(package_root(&l(&[])), None);
}

#[test]
fn words() {
    assert_eq!(split_words("  next   dev --port 3000 "), args(&["next", "dev", "--port", "3000"]));
    assert_eq!(split_words("a\tb\nc\u{3000}d"), args(&["a", "b", "c", "d"]));
    assert!(split_words(" \t ").is_empty());
}

#[test]
fn binary_names() {
    assert_eq!(binary_candidates("vite", false), args(&["vite", "vite.sh"]));
    assert_eq!(binary_candidates("vite", true), args(&["vite.cmd", "vite.exe", "vite.bat", "vite"]));
    assert!(is_binary_file("vite.sh", "vite", false));
    assert!(!is_binary_file("vite.cmd", "vite", false));
    assert!(is_binary_file("vite.bat", "vite", true));
    assert!(!searches_directory("node_modules"));
    assert!(searches_directory("bin"));
}

#[test]
fn frameworks() {
    assert_eq!(get_framework_info("next dev"), Some(("Next.js", "nextjs_pink")));
    assert_eq!(get_framework_info("react-scripts start"), Some(("Create React App", "cyan")));
    assert_eq!(get_framework_info("vue-cli-service serve"), Some(("Vue", "green")));
    assert_eq!(get_framework_info("node server.js"), None);
}

#[test]
fn task_plans() {
    let scripts = Some(vec![
        ("dev".to_string(), Some("next dev --turbo".to_string())),
        ("hello".to_string(), Some("echo hi".to_string())),
        ("odd".to_string(), None),
        ("blank".to_string(), Some("  ".to_string())),
    ]);
    match plan_task(&scripts, "dev") {
        TaskPlan::Binary { command, binary, args: a } => {
            assert_eq!(command, "next dev --turbo");
            assert_eq!(binary, "next");
            assert_eq!(a, args(&["dev", "--turbo"]));
        },
        _ => panic!("expected a binary"),
    }
    assert!(matches!(plan_task(&scripts, "hello"), TaskPlan::Shell { .. }));
    assert!(matches!(plan_task(&scripts, "odd"), TaskPlan::NotAString));
    assert!(matches!(plan_task(&scripts, "blank"), TaskPlan::Empty));
    match plan_task(&scripts, "ls -la") {
        TaskPlan::SystemCommand { words, not_a_script } => {
            assert_eq!(words, args(&["ls", "-la"]));
            assert!(not_a_script);
        },
        _ => panic!("expected a system command"),
    }
    match plan_task(&None, "make all") {
        TaskPlan::SystemCommand { words, not_a_script } => {
            assert_eq!(words, args(&["make", "all"]));
            assert!(!not_a_script);
        },
        _ => panic!("expected a system command"),
    }
    assert!(matches!(plan_task(&None, ""), TaskPlan::Empty));
    assert!(matches!(plan_script("cd app"), TaskPlan::Shell { .. }));
}

#[test]
fn commands() {
    assert!(matches!(parse_command(&args(&["snpm"])), Command::NoCommand));
    assert!(matches!(parse_command(&args(&["snpm", "install"])), Command::Install));
    match parse_command(&args(&["snpm", "task", "dev", "extra"])) {
        Command::Task { name } => assert_eq!(name, "dev"),
        _ => panic!("expected a task"),
    }
    assert!(matches!(parse_command(&args(&["snpm", "task"])), Command::Missing(MissingArgument::TaskName)));
    match parse_command(&args(&["snpm", "x", "cowsay", "hello", "there"])) {
        Command::Exec { args: a } => assert_eq!(a, "cowsay hello there"),
        _ => panic!("expected exec"),
    }
    assert!(matches!(parse_command(&args(&["snpm", "exec"])), Command::Missing(MissingArgument::PackageName)));
    match parse_command(&args(&["snpm", "create", "vite@latest", "app"])) {
        Command::Create { args: a } => assert_eq!(a, "vite@latest app"),
        _ => panic!("expected create"),
    }
    assert!(matches!(parse_command(&args(&["snpm", "create"])), Command::Missing(MissingArgument::TemplateName)));
    assert!(matches!(parse_command(&args(&["snpm", "?"])), Command::Help));
    assert!(matches!(parse_command(&args(&["snpm", "v"])), Command::Help));
    assert!(matches!(parse_command(&args(&["snpm", "frobnicate"])), Command::Unknown));
}

#[test]
fn flags_and_joining() {
    assert!(has_flag(&args(&["snpm", "task", "dev", "--debug"]), "--debug"));
    assert!(!has_flag(&args(&["snpm", "task", "--debugger"]), "--debug"));
    assert_eq!(join_from(&args(&["a", "b", "c"]), 1), "b c");
    assert_eq!(join_from(&args(&["a"]), 1), "");
}

#[test]
fn usage_text() {
    let lines = usage_lines();
    assert_eq!(lines.len(), 8);
    assert_eq!(lines[2], "\x1b[97mUsage: snpm <command> [options]\x1b[0m");
    assert_eq!(lines[1], "\x1b[35mSuperNPM\x1b[0m \x1b[35m0.1.0\x1b[0m");
}

#[test]
fn manifest_jobs() {
    let m = parse_manifest(r#"{"name":"app","version":"1.0.0",
        "dependencies":{"left-pad":"^1.3.0"},
        "devDependencies":{"left-pad":"^1.3.0","typescript":"~5.4.0"},
        "scripts":{"build":"tsc","weird":3}}"#)
    .ok()
    .unwrap();
    assert_eq!(m.name.as_deref(), Some("app"));
    assert_eq!(m.version.as_deref(), Some("1.0.0"));
    let jobs = install_jobs(&m).ok().unwrap();
    let seen: Vec<(String, String, bool)> = jobs.iter().map(|j| (j.name.clone(), j.range.clone(), j.is_dev)).collect();
    assert_eq!(
        seen,
        vec![
            ("left-pad".to_string(), "^1.3.0".to_string(), false),
            ("left-pad".to_string(), "^1.3.0".to_string(), true),
            ("typescript".to_string(), "~5.4.0".to_string(), true),
        ]
    );
    let scripts = m.scripts.unwrap();
    assert_eq!(scripts.len(), 2);
    assert!(scripts.iter().any(|(k, v)| k == "weird" && v.is_none()));
}

#[test]
fn manifest_errors() {
    assert!(matches!(parse_manifest("{"), Err(ManifestError::NotJson)));
    assert!(matches!(parse_manifest("[1, 2]"), Err(ManifestError::NotJson)));
    let m = parse_manifest(r#"{"dependencies":{"a":1},"scripts":{"dev":"vite"}}"#).ok().unwrap();
    assert!(matches!(install_jobs(&m), Err(ManifestError::RangeNotString)));
    assert_eq!(m.scripts.unwrap(), vec![("dev".to_string(), Some("vite".to_string()))]);
    let m = parse_manifest(r#"{"name":"app"}"#).ok().unwrap();
    assert!(matches!(install_jobs(&m), Err(ManifestError::NoDependencies)));
    let m = parse_manifest(r#"{"devDependencies":{"a/b":"1.0.0"}}"#).ok().unwrap();
    let jobs = install_jobs(&m).ok().unwrap();
    assert_eq!(jobs.len(), 1);
    assert_eq!(jobs[0].name, "a/b");
    assert!(jobs[0].is_dev);
}

#[test]
fn machine_cache_directory() {
    assert_eq!(snpm::cache::get_cache_directory(true).unwrap(), "C:\\snpm_cache");
    if let Some(dir) = snpm::cache::get_cache_directory(false) {
        assert!(dir.ends_with(".snpm_cache"));
    }
}
