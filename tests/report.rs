use lint_master::check_file::CheckFile;
use lint_master::report::{classify, language_of_extension, FileReport, Language, RunOutcome};

#[test]
fn classify_by_extension() {
    assert_eq!(classify("a.tsx"), Ok(Language::WebLang));
    assert_eq!(classify("x/y.JS"), Ok(Language::WebLang));
    assert_eq!(classify("b.go"), Ok(Language::GoLang));
    assert_eq!(classify("c.md"), Ok(Language::Unsupported));
    assert!(classify("README").is_err());
    assert_eq!(language_of_extension("TS"), Language::WebLang);
    assert_eq!(language_of_extension("rs"), Language::Unsupported);
}

#[test]
fn scenario_web_file_with_todo_and_theme_color() {
    let contents = "// TODO fix this\nconst x = \"#FF00FF\";";
    let t = CheckFile::check_ts("a.tsx", contents, "#FF00FF", "", &vec![]);
    assert_eq!(t.todo_check.errors, 1);
    assert_eq!(t.todo_check.result, vec!["line 0 has TODO // TODO fix this".to_string()]);
    assert_eq!(t.color_check.errors, 1);
    assert_eq!(
        t.color_check.result,
        vec!["Color #FF00FF need replace theme.ts definition".to_string()]
    );
    assert!(t.total_errors() >= 2);
    let report = FileReport::Web(t);
    let mut run = RunOutcome::new();
    run.record(&report);
    assert_eq!(run.total, 2);
    assert_eq!(run.exit_code(), 1);
}

#[test]
fn scenario_clean_go_file() {
    let g = CheckFile::check_go("b.go", "package main\n\nfunc main() {}\n", "", &vec![]);
    assert_eq!(g.total_errors(), 0);
    let mut run = RunOutcome::new();
    run.record(&FileReport::Go(g));
    assert_eq!(run.total, 0);
    assert_eq!(run.exit_code(), 0);
}

#[test]
fn scenario_unsupported_file() {
    assert_eq!(classify("c.md"), Ok(Language::Unsupported));
    let mut run = RunOutcome::new();
    run.record(&FileReport::Unsupported);
    assert_eq!(run.total, 0);
    assert!(run.failed);
    assert_eq!(run.exit_code(), 1);
}

#[test]
fn totals_add_up_over_files() {
    let mut run = RunOutcome::new();
    let g = CheckFile::check_go("b.go", "// TODO a\n// TODO b\n", "b.go:1:1: bad\n  here\n", &vec![]);
    assert_eq!(g.total_errors(), 3);
    run.record(&FileReport::Go(g));
    let t = CheckFile::check_ts("a.js", "console.log(1)\n", "", "", &vec![]);
    assert_eq!(t.total_errors(), 1);
    run.record(&FileReport::Web(t));
    assert_eq!(run.total, 4);
    assert!(!run.failed);
    assert_eq!(run.exit_code(), 1);
}
