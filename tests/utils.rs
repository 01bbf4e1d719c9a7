use lint_master::utils::{
    convert_to_camel_case, get_extension, get_file_name, overflow_text, status_emoji,
    supported_extension,
};
use lint_master::Config;

#[test]
fn overflow_short_text_one_line() {
    assert_eq!(overflow_text("hello   world"), vec!["hello world".to_string()]);
    assert!(overflow_text("   ").is_empty());
}

#[test]
fn overflow_wraps_at_fifty_bytes() {
    let text = vec!["abcdefghi"; 10].join(" ");
    let five = vec!["abcdefghi"; 5].join(" ");
    assert_eq!(overflow_text(&text), vec![five.clone(), five]);
}

#[test]
fn overflow_long_first_word() {
    let word = "a".repeat(60);
    assert_eq!(overflow_text(&word), vec![String::new(), word.clone()]);
}

#[test]
fn status_marks() {
    assert_eq!(status_emoji(0), "✅ ");
    assert_eq!(status_emoji(3), "🔴 ");
}

#[test]
fn file_names() {
    assert_eq!(get_file_name("src/app/a.tsx"), "a.tsx");
    assert_eq!(get_file_name("b.go"), "b.go");
    assert_eq!(get_file_name(".."), "..");
}

#[test]
fn extensions() {
    assert_eq!(get_extension("src/a.TSX"), Ok(Some("tsx".to_string())));
    assert_eq!(get_extension("b.go"), Ok(Some("go".to_string())));
    assert_eq!(get_extension("c.md"), Ok(None));
    assert_eq!(get_extension("Makefile"), Err("file path has no extension"));
    assert_eq!(supported_extension("Js"), Some("js".to_string()));
    assert_eq!(supported_extension("rs"), None);
}

#[test]
fn camel_case() {
    assert_eq!(convert_to_camel_case("fill-rule"), "fillRule");
    assert_eq!(convert_to_camel_case("color-interpolation-filters"), "colorInterpolationFilters");
    assert_eq!(convert_to_camel_case("a--b-"), "aB");
    assert_eq!(convert_to_camel_case("plain"), "plain");
}

#[test]
fn config_needs_a_file() {
    let args = vec!["lint".to_string()];
    assert!(matches!(Config::build(&args), Err("Not enough arguments")));
    let args = vec!["lint".to_string(), "a.ts".to_string(), "b.go".to_string()];
    let c = Config::build(&args).ok().unwrap();
    assert_eq!(c.file_paths, vec!["a.ts".to_string(), "b.go".to_string()]);
}
