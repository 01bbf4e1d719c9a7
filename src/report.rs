//! Classification of files by language, the per-language rule sets, and the
//! run-wide error total and exit status.
use vstd::prelude::*;
use crate::check_file::{
    a_rel_msgs, console_errors, console_msgs, image_alt_msgs, line_check_msgs, kept_trimmed, lint_ts_hits, somes, svg_msgs, svg_names,
    svg_present, todo_msgs, tsx_color_msgs, CheckFile,
};
use crate::constants::{LintResult, RE_A_HREF, RE_IMAGE_TAG, RE_LINT_GO};
use crate::pattern::{found, found_groups};
use crate::text::{chars_of, finishes_with, lines_of, strs};
use crate::utils::{ascii_lower, extension_part, lower_seq, path_extension};

verus! {

/// The rule set that a file gets, by its extension.
#[derive(Clone, Copy, Debug, PartialEq, Eq, Structural)]
pub enum Language {
    WebLang,
    GoLang,
    Unsupported,
}

/// A path without an extension, which no rule set can be chosen for.
#[derive(Clone, Copy, Debug, PartialEq, Eq, Structural)]
pub struct ClassificationError {}

/// The language of a lower-case extension.
pub open spec fn language_of(e: Seq<char>) -> Language {
    if e == seq!['j', 's'] || e == seq!['t', 's'] || e == seq!['t', 's', 'x'] {
        Language::WebLang
    } else if e == seq!['g', 'o'] {
        Language::GoLang
    } else {
        Language::Unsupported
    }
}

/// The language of an extension, in any letter case: `js`, `ts` and `tsx`
/// are web files, `go` is Go, anything else is unsupported.
pub fn language_of_extension(ext: &str) -> (r: Language)
    ensures
        r == language_of(lower_seq(ext@)),
{
    let v = chars_of(ext);
    let n = v.len();
    let mut w: Vec<char> = Vec::new();
    let mut i: usize = 0;
    while i < n
        invariant
            i <= n == v@.len(),
            v@ == ext@,
            w@ == lower_seq(v@.take(i as int)),
        decreases n - i,
    {
        let c = v[i];
        let d = if 'A' <= c && c <= 'Z' {
            ((c as u8) + 32) as char
        } else {
            c
        };
        w.push(d);
        i = i + 1;
        assert(lower_seq(v@.take(i as int)) =~= lower_seq(v@.take(i - 1)).push(ascii_lower(c)));
    }
    assert(v@.take(n as int) =~= v@);
    if w.len() == 2 {
        assert(w@ == seq![w@[0], w@[1]]);
    }
    if w.len() == 3 {
        assert(w@ == seq![w@[0], w@[1], w@[2]]);
    }
    if (w.len() == 2 && ((w[0] == 'j' && w[1] == 's') || (w[0] == 't' && w[1] == 's'))) || (w.len()
        == 3 && w[0] == 't' && w[1] == 's' && w[2] == 'x') {
        Language::WebLang
    } else if w.len() == 2 && w[0] == 'g' && w[1] == 'o' {
        Language::GoLang
    } else {
        Language::Unsupported
    }
}

/// The language of the file at `file_path`, by its extension; an error
/// where the path has no extension.
pub fn classify(file_path: &str) -> (r: Result<Language, ClassificationError>)
    ensures
        match path_extension(file_path@) {
            Some(e) => r == Ok::<Language, ClassificationError>(language_of(lower_seq(e))),
            None => r is Err,
        },
{
    match extension_part(file_path) {
        Some(e) => Ok(language_of_extension(e.as_str())),
        None => Err(ClassificationError {  }),
    }
}

/// The results of the web rule set on one file.
pub struct TsTable {
    pub lint_check: LintResult,
    pub svg_check: LintResult,
    pub todo_check: LintResult,
    pub color_check: LintResult,
    pub image_alt_check: LintResult,
    pub a_rel_check: LintResult,
    pub file_line_check: LintResult,
    pub console_log_check: LintResult,
}

/// The results of the Go rule set on one file.
pub struct GoTable {
    pub lint_check: LintResult,
    pub todo_check: LintResult,
    pub file_line_check: LintResult,
}

/// `n`, or the largest `u64` where it is more.
pub open spec fn cap(n: int) -> int {
    if n > u64::MAX {
        u64::MAX as int
    } else {
        n
    }
}

impl TsTable {
    /// The sum of the rules' error counts.
    pub open spec fn error_sum(&self) -> int {
        self.lint_check.errors + self.svg_check.errors + self.todo_check.errors
            + self.color_check.errors + self.image_alt_check.errors + self.a_rel_check.errors
            + self.file_line_check.errors + self.console_log_check.errors
    }

    /// The sum of the rules' error counts, capped at the largest `u64`.
    pub fn total_errors(&self) -> (r: u64)
        ensures
            r == cap(self.error_sum()),
    {
        let t = add_capped(self.lint_check.errors as u64, self.svg_check.errors as u64);
        let t = add_capped(t, self.todo_check.errors as u64);
        let t = add_capped(t, self.color_check.errors as u64);
        let t = add_capped(t, self.image_alt_check.errors as u64);
        let t = add_capped(t, self.a_rel_check.errors as u64);
        let t = add_capped(t, self.file_line_check.errors as u64);
        add_capped(t, self.console_log_check.errors as u64)
    }
}

impl GoTable {
    /// The sum of the rules' error counts.
    pub open spec fn error_sum(&self) -> int {
        self.lint_check.errors + self.todo_check.errors + self.file_line_check.errors
    }

    /// The sum of the rules' error counts, capped at the largest `u64`.
    pub fn total_errors(&self) -> (r: u64)
        ensures
            r == cap(self.error_sum()),
    {
        let a = add_capped(self.lint_check.errors as u64, self.todo_check.errors as u64);
        add_capped(a, self.file_line_check.errors as u64)
    }
}

/// `a + b`, or the largest `u64` where the sum is more.
fn add_capped(a: u64, b: u64) -> (r: u64)
    ensures
        r == cap(a + b),
{
    if a > u64::MAX - b {
        u64::MAX
    } else {
        a + b
    }
}

/// What one file gave: the results of its rule set, or that its language
/// is unsupported.
pub enum FileReport {
    Web(TsTable),
    Go(GoTable),
    Unsupported,
}

impl FileReport {
    /// The errors that the report counts.
    pub open spec fn error_sum(&self) -> int {
        match self {
            FileReport::Web(t) => t.error_sum(),
            FileReport::Go(t) => t.error_sum(),
            FileReport::Unsupported => 0,
        }
    }

    /// The errors that the report counts, capped at the largest `u64`.
    pub fn total_errors(&self) -> (r: u64)
        ensures
            r == cap(self.error_sum()),
    {
        match self {
            FileReport::Web(t) => t.total_errors(),
            FileReport::Go(t) => t.total_errors(),
            FileReport::Unsupported => 0,
        }
    }
}

/// The run so far: the errors of all files processed, capped at the
/// largest `u64`, and whether a file was of an unsupported language.
pub struct RunOutcome {
    pub total: u64,
    pub failed: bool,
}

impl RunOutcome {
    /// A run that has processed no file.
    pub fn new() -> (r: RunOutcome)
        ensures
            r.total == 0,
            !r.failed,
    {
        RunOutcome { total: 0, failed: false }
    }

    /// Takes one file's report into the run: its errors into the total, and
    /// an unsupported language as a failure.
    pub fn record(&mut self, report: &FileReport)
        ensures
            final(self).total == cap(old(self).total + report.error_sum()),
            final(self).failed == (old(self).failed || report is Unsupported),
    {
        let n = report.total_errors();
        self.total = add_capped(self.total, n);
        if let FileReport::Unsupported = report {
            self.failed = true;
        }
    }

    /// The exit status: 1 where any error was counted or a file was
    /// unsupported, else 0.
    pub fn exit_code(&self) -> (r: i32)
        ensures
            r == (if self.total > 0 || self.failed {
                1i32
            } else {
                0i32
            }),
    {
        if self.total > 0 || self.failed {
            1
        } else {
            0
        }
    }
}

impl CheckFile {
    /// Runs the web rule set on one file: its path, its text, the theme
    /// file's text, the web linter's output on it, and the newly added paths.
    pub fn check_ts(
        file_path: &str,
        contents: &str,
        theme: &str,
        lint_output: &str,
        staged: &Vec<String>,
    ) -> (r: TsTable)
        ensures
            r.lint_check.findings() == kept_trimmed(
                lines_of(lint_output@),
                lint_ts_hits(lines_of(lint_output@)),
            ),
            r.svg_check.findings() == if finishes_with(file_path@, ".tsx"@) {
                svg_msgs(svg_names(), svg_present(contents@))
            } else {
                Seq::<Seq<char>>::empty()
            },
            r.todo_check.findings() == todo_msgs(lines_of(contents@)),
            r.color_check.findings() == tsx_color_msgs(contents@, theme@),
            r.image_alt_check.findings() == image_alt_msgs(found(RE_IMAGE_TAG@, contents@)),
            r.a_rel_check.findings() == a_rel_msgs(found(RE_A_HREF@, contents@)),
            r.file_line_check.findings() == line_check_msgs(file_path@, strs(staged@), contents@),
            r.console_log_check.errors == console_errors(contents@),
            r.console_log_check.findings() == console_msgs(contents@),
            r.lint_check.counts_findings() && r.svg_check.counts_findings()
                && r.todo_check.counts_findings() && r.color_check.counts_findings()
                && r.image_alt_check.counts_findings() && r.a_rel_check.counts_findings()
                && r.file_line_check.counts_findings(),
    {
        let color_check = Self::match_tsx_color(contents, theme);
        let lint_check = Self::lint_ts(lint_output);
        let svg_check = Self::match_svg_attribute(contents, file_path);
        let todo_check = Self::match_todo(contents);
        let image_alt_check = Self::match_image_alt(contents);
        let a_rel_check = Self::match_a_rel(contents);
        let file_line_check = Self::check_file_lines(file_path, staged, contents);
        let console_log_check = Self::match_console_log(contents);
        TsTable {
            lint_check,
            svg_check,
            todo_check,
            color_check,
            image_alt_check,
            a_rel_check,
            file_line_check,
            console_log_check,
        }
    }

    /// Runs the Go rule set on one file: its path, its text, the Go linter's
    /// output on it, and the newly added paths.
    pub fn check_go(file_path: &str, contents: &str, lint_output: &str, staged: &Vec<String>) -> (r:
        GoTable)
        ensures
            r.lint_check.findings() == somes(found_groups(RE_LINT_GO@, lint_output@)),
            r.todo_check.findings() == todo_msgs(lines_of(contents@)),
            r.file_line_check.findings() == line_check_msgs(file_path@, strs(staged@), contents@),
            r.lint_check.counts_findings() && r.todo_check.counts_findings()
                && r.file_line_check.counts_findings(),
    {
        let lint_check = Self::lint_go(lint_output);
        let todo_check = Self::match_todo(contents);
        let file_line_check = Self::check_file_lines(file_path, staged, contents);
        GoTable { lint_check, todo_check, file_line_check }
    }
}

} // verus!
