//! The fixed markers, patterns and limits that the rules use, and the
//! result that every rule returns.
use vstd::prelude::*;
use crate::text::strs;

verus! {

/// Marks a comment line as a TODO.
pub const TODO_SEARCH: &'static str = "TODO";

/// Exempts a TODO comment line.
pub const TODO_IGNORE_SEARCH: &'static str = "IGNORE";

/// Begins a line comment.
pub const COMMENT_MARK: &'static str = "//";

/// A console logging call.
pub const CONSOLE_LOG: &'static str = "console.log";

/// Marks, in a comment line, one console logging call as necessary.
pub const NECESSARY_CONSOLE_LOGGING: &'static str = "NECESSARY";

/// The most lines that a newly added file may have.
pub const FILE_LINE: usize = 500;

/// A line of the web linter's output that reports an error.
pub const RE_LINT_TS: &'static str = r"^\s*\d+:\d+\s+error.*";

/// A `line:col: message` block of the Go linter's output, with its indented continuation lines.
pub const RE_LINT_GO: &'static str = r".*?:(\d+:\d+:\s.*?(?:\n\s+.*?)+)";

/// A six-digit hexadecimal color literal.
pub const RE_MATCH_COLOR: &'static str = r"#[0-9a-fA-F]{6}";

/// An anchor's `href` attribute up to the end of its tag.
pub const RE_A_HREF: &'static str = r#"href=[^>]*>"#;

/// An opening `Image` tag.
pub const RE_IMAGE_TAG: &'static str = r#"<Image[^>]*>"#;

/// Marks markup of a foreign SVG, whose colors are left alone.
pub const RE_XMLNS: &'static str = "xmlns";

/// The file that defines the theme colors.
pub const RE_TSX_THEME_FILE: &'static str = "apps/identity-hub/config/theme.ts";

/// SVG and CSS attribute names that a `.tsx` file should write in camelCase.
pub const SVG_ATTRIBUTE_NAMES: [&'static str; 35] = [
    "fill-rule",
    "clip-rule",
    "fill-opacity",
    "stroke-opacity",
    "stop-color",
    "stop-opacity",
    "clip-path",
    "font-size",
    "font-weight",
    "text-anchor",
    "alignment-baseline",
    "baseline-shift",
    "word-spacing",
    "letter-spacing",
    "text-decoration",
    "font-style",
    "font-variant",
    "line-height",
    "writing-mode",
    "shape-rendering",
    "image-rendering",
    "color-interpolation",
    "color-interpolation-filters",
    "shape-rendering",
    "color-rendering",
    "flood-color",
    "flood-opacity",
    "lighting-color",
    "text-rendering",
    "stroke-dasharray",
    "stroke-dashoffset",
    "stroke-linecap",
    "stroke-linejoin",
    "stroke-miterlimit",
    "transform-origin",
];

/// The outcome of one rule on one file: an error count and the findings.
pub struct LintResult {
    pub errors: usize,
    pub result: Vec<String>,
}

impl LintResult {
    /// The findings, as character sequences.
    pub open spec fn findings(&self) -> Seq<Seq<char>> {
        strs(self.result@)
    }

    /// The count equals the number of findings (true of every rule but the console-log count).
    pub open spec fn counts_findings(&self) -> bool {
        self.errors == self.result@.len()
    }
}

} // verus!
