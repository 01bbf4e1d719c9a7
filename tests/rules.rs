use lint_master::check_file::{present_groups, CheckFile};
use lint_master::constants::LintResult;

fn texts(r: &LintResult) -> Vec<&str> {
    r.result.iter().map(|s| s.as_str()).collect()
}

#[test]
fn todo_reports_comment_lines_with_index() {
    let text = "// TODO fix this\nconst x = 1;\n  // TODO later IGNORE\n   // TODO two\nlet t = \"TODO\";";
    let r = CheckFile::match_todo(text);
    assert_eq!(r.errors, 2);
    assert_eq!(texts(&r), vec!["line 0 has TODO // TODO fix this", "line 3 has TODO // TODO two"]);
}

#[test]
fn todo_none_when_all_ignored() {
    let r = CheckFile::match_todo("// TODO a IGNORE\nfn main() {}\n// plain comment\n");
    assert_eq!(r.errors, 0);
    assert!(r.result.is_empty());
    let e = CheckFile::match_todo("");
    assert_eq!(e.errors, 0);
    assert!(e.result.is_empty());
}

#[test]
fn todo_crlf_line_endings() {
    let r = CheckFile::match_todo("x\r\n// TODO y\r\n");
    assert_eq!(texts(&r), vec!["line 1 has TODO // TODO y"]);
}

#[test]
fn console_log_excess_gives_one_finding() {
    let r = CheckFile::match_console_log("console.log(1)\nconsole.log(2)\n  console.log(3)\n");
    assert_eq!(r.errors, 3);
    assert_eq!(texts(&r), vec!["file has 3 console.log"]);
}

#[test]
fn console_log_necessary_marks_offset() {
    let r = CheckFile::match_console_log("// NECESSARY\nconsole.log(1)\nconsole.log(2)\n");
    assert_eq!(r.errors, 1);
    assert_eq!(texts(&r), vec!["file has 1 console.log"]);
    let z = CheckFile::match_console_log("// NECESSARY\n// NECESSARY\nconsole.log(1)\n");
    assert_eq!(z.errors, 0);
    assert!(z.result.is_empty());
}

#[test]
fn a_rel_missing_rel() {
    let text = "<a href=\"/x\">x</a>\n<a href=\"/y\" rel=\"noopener\">y</a>";
    let r = CheckFile::match_a_rel(text);
    assert_eq!(r.errors, 1);
    assert_eq!(texts(&r), vec!["a tag need set <rel> value: href=\"/x\">"]);
    let again = CheckFile::match_a_rel(text);
    assert_eq!(texts(&again), texts(&r));
}

#[test]
fn a_rel_findings_from_given_matches() {
    let ms = vec!["href=\"a\">".to_string(), "href=\"b\" rel=\"x\">".to_string()];
    let r = CheckFile::a_rel_findings(&ms);
    assert_eq!(texts(&r), vec!["a tag need set <rel> value: href=\"a\">"]);
}

#[test]
fn image_alt_missing_alt() {
    let text = "<Image src=\"a.png\" />\n<Image src=\"b.png\" alt=\"b\" />";
    let r = CheckFile::match_image_alt(text);
    assert_eq!(r.errors, 1);
    assert_eq!(texts(&r), vec!["img tag need set <alt> value: <Image src=\"a.png\" />"]);
    let again = CheckFile::match_image_alt(text);
    assert_eq!(texts(&again), texts(&r));
    let g = CheckFile::image_alt_findings(&vec!["<Image />".to_string()]);
    assert_eq!(texts(&g), vec!["img tag need set <alt> value: <Image />"]);
}

#[test]
fn svg_attributes_in_tsx() {
    let text = "<path fill-rule=\"evenodd\" clip-rule=\"evenodd\" />";
    let r = CheckFile::match_svg_attribute(text, "icon.tsx");
    assert_eq!(r.errors, 2);
    assert_eq!(
        texts(&r),
        vec!["need replace fill-rule to fillRule", "need replace clip-rule to clipRule"]
    );
}

#[test]
fn svg_attributes_ignored_outside_tsx() {
    let text = "<path fill-rule=\"evenodd\" clip-rule=\"evenodd\" />";
    let r = CheckFile::match_svg_attribute(text, "icon.ts");
    assert_eq!(r.errors, 0);
    assert!(r.result.is_empty());
    let j = CheckFile::match_svg_attribute(text, "icon.jsx");
    assert!(j.result.is_empty());
}

#[test]
fn svg_listed_twice_reported_twice() {
    let r = CheckFile::match_svg_attribute("shape-rendering", "a.tsx");
    assert_eq!(
        texts(&r),
        vec!["need replace shape-rendering to shapeRendering", "need replace shape-rendering to shapeRendering"]
    );
}

#[test]
fn tsx_color_deduplicated() {
    let theme = "primary: '#FF00FF',\nalias: '#FF00FF',\nother: '#123456',\n";
    let r = CheckFile::match_tsx_color("const x = \"#FF00FF\";", theme);
    assert_eq!(r.errors, 1);
    assert_eq!(texts(&r), vec!["Color #FF00FF need replace theme.ts definition"]);
}

#[test]
fn tsx_color_skipped_with_xmlns() {
    let r = CheckFile::match_tsx_color("<svg xmlns=\"http://www.w3.org/2000/svg\" fill=\"#FF00FF\">", "#FF00FF");
    assert_eq!(r.errors, 0);
    assert!(r.result.is_empty());
}

#[test]
fn tsx_color_case_must_match() {
    let r = CheckFile::match_tsx_color("const x = \"#ff00ff\";", "#FF00FF");
    assert!(r.result.is_empty());
}

#[test]
fn color_findings_from_given_colors() {
    let cands = vec!["#AAAAAA".to_string(), "#BBBBBB".to_string()];
    let theme = vec!["#BBBBBB".to_string(), "#CCCCCC".to_string(), "#BBBBBB".to_string(), "#AAAAAA".to_string()];
    let r = CheckFile::color_findings(&cands, &theme);
    assert_eq!(
        texts(&r),
        vec![
            "Color #BBBBBB need replace theme.ts definition",
            "Color #AAAAAA need replace theme.ts definition"
        ]
    );
}

#[test]
fn lint_ts_keeps_error_lines() {
    let out = "\n/src/a.ts\n  1:10  error  'x' is defined but never used  no-unused-vars\n  2:1  warning  Unexpected console statement  no-console\n\n1 problem\n";
    let r = CheckFile::lint_ts(out);
    assert_eq!(r.errors, 1);
    assert_eq!(texts(&r), vec!["1:10  error  'x' is defined but never used  no-unused-vars"]);
    let none = CheckFile::lint_ts("");
    assert!(none.result.is_empty());
}

#[test]
fn lint_go_blocks() {
    let out = "main.go:3:2: undefined: x\n\tfmt.Println(x)\n";
    let r = CheckFile::lint_go(out);
    assert_eq!(r.errors, 1);
    assert_eq!(texts(&r), vec!["3:2: undefined: x\n\t"]);
    let none = CheckFile::lint_go("");
    assert_eq!(none.errors, 0);
}

#[test]
fn present_groups_keeps_present() {
    let gs = vec![Some("a".to_string()), None, Some("b".to_string())];
    let r = present_groups(&gs);
    assert_eq!(texts(&r), vec!["a", "b"]);
}

#[test]
fn git_added_paths() {
    let status = "A  src/a.ts\n M b.ts\nAM c.go\n?? d.ts\n";
    let r = CheckFile::git_add_files(status);
    assert_eq!(r, vec!["src/a.ts".to_string(), "c.go".to_string()]);
}

#[test]
fn file_lines_over_limit_when_staged() {
    let long = "x\n".repeat(501);
    let staged = vec!["a.ts".to_string()];
    let r = CheckFile::check_file_lines("a.ts", &staged, &long);
    assert_eq!(r.errors, 1);
    assert_eq!(texts(&r), vec!["File cannot be larger than 500 lines"]);
    let at_limit = "x\n".repeat(500);
    assert!(CheckFile::check_file_lines("a.ts", &staged, &at_limit).result.is_empty());
}

#[test]
fn file_lines_never_when_not_staged() {
    let long = "x\n".repeat(2000);
    let staged = vec!["b.ts".to_string()];
    let r = CheckFile::check_file_lines("a.ts", &staged, &long);
    assert_eq!(r.errors, 0);
    assert!(r.result.is_empty());
}

#[test]
fn tag_findings_need_tag_shape() {
    let ms = vec!["href=\"a\"".to_string(), "src=\"b\">".to_string(), "href=\"c\">".to_string()];
    let r = CheckFile::a_rel_findings(&ms);
    assert_eq!(texts(&r), vec!["a tag need set <rel> value: href=\"c\">"]);
    let imgs = vec!["<Img src=\"a\">".to_string(), "<Image src=\"b\">".to_string()];
    let g = CheckFile::image_alt_findings(&imgs);
    assert_eq!(texts(&g), vec!["img tag need set <alt> value: <Image src=\"b\">"]);
}
