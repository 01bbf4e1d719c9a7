//! The rules run on one file's text, and what each of them reports.
use vstd::prelude::*;
use crate::constants::{
    LintResult, COMMENT_MARK, CONSOLE_LOG, FILE_LINE, NECESSARY_CONSOLE_LOGGING, RE_A_HREF,
    RE_IMAGE_TAG, RE_LINT_GO, RE_LINT_TS, RE_MATCH_COLOR, RE_XMLNS, SVG_ATTRIBUTE_NAMES,
    TODO_IGNORE_SEARCH, TODO_SEARCH,
};
use crate::pattern::{find_groups, find_matches, found, found_groups, has_match, opt_strs};
use crate::text::{
    append_chars, append_dec, append_str, begins_with, begins_with_exec, char_rows, chars_of,
    contains, dec, finishes_with, has_sub, lines_of, lines_vec, occurs_at_exec, string_of,
    string_of_all, strs, trim_chars, trim_of, trim_start_chars, trim_start_of,
};
use crate::utils::{camel_of, convert_to_camel_case};

verus! {

/// A trimmed line that the TODO finder reports: a comment with the TODO
/// marker and without the exemption marker.
pub open spec fn todo_line(l: Seq<char>) -> bool {
    begins_with(l, COMMENT_MARK@) && has_sub(l, TODO_SEARCH@) && !has_sub(l, TODO_IGNORE_SEARCH@)
}

/// The finding for the TODO line `l` at 0-based index `i`.
pub open spec fn todo_msg(i: nat, l: Seq<char>) -> Seq<char> {
    "line "@ + dec(i) + " has TODO "@ + l
}

/// The TODO finder's findings over the lines `ls`, in line order.
pub open spec fn todo_msgs(ls: Seq<Seq<char>>) -> Seq<Seq<char>>
    decreases ls.len(),
{
    if ls.len() == 0 {
        seq![]
    } else {
        let prev = todo_msgs(ls.drop_last());
        let l = trim_start_of(ls.last());
        if todo_line(l) {
            prev.push(todo_msg((ls.len() - 1) as nat, l))
        } else {
            prev
        }
    }
}

/// Lines that mark one console logging call as necessary.
pub open spec fn necessary_count(ls: Seq<Seq<char>>) -> nat
    decreases ls.len(),
{
    if ls.len() == 0 {
        0
    } else {
        let l = trim_start_of(ls.last());
        necessary_count(ls.drop_last()) + if begins_with(l, COMMENT_MARK@) && has_sub(
            l,
            NECESSARY_CONSOLE_LOGGING@,
        ) {
            1nat
        } else {
            0nat
        }
    }
}

/// Lines that hold a console logging call.
pub open spec fn console_count(ls: Seq<Seq<char>>) -> nat
    decreases ls.len(),
{
    if ls.len() == 0 {
        0
    } else {
        console_count(ls.drop_last()) + if has_sub(trim_start_of(ls.last()), CONSOLE_LOG@) {
            1nat
        } else {
            0nat
        }
    }
}

/// Console logging calls beyond those marked necessary, as a signed difference.
pub open spec fn console_excess(contents: Seq<char>) -> int {
    console_count(lines_of(contents)) - necessary_count(lines_of(contents))
}

/// The console-log count's error count: the excess where it is positive, else zero.
pub open spec fn console_errors(contents: Seq<char>) -> int {
    if console_excess(contents) > 0 {
        console_excess(contents)
    } else {
        0
    }
}

/// The console-log count's findings: one where the excess is positive, else none.
pub open spec fn console_msgs(contents: Seq<char>) -> Seq<Seq<char>> {
    if console_excess(contents) > 0 {
        seq![console_msg(console_excess(contents) as nat)]
    } else {
        Seq::<Seq<char>>::empty()
    }
}

/// The single finding of the console-log count.
pub open spec fn console_msg(n: nat) -> Seq<char> {
    "file has "@ + dec(n) + " console.log"@
}

proof fn lemma_counts_bounded(ls: Seq<Seq<char>>)
    ensures
        necessary_count(ls) <= ls.len(),
        console_count(ls) <= ls.len(),
    decreases ls.len(),
{
    if ls.len() > 0 {
        lemma_counts_bounded(ls.drop_last());
    }
}

/// No TODO finding comes from text in which every comment line with the
/// TODO marker also holds the exemption marker.
pub proof fn lemma_no_todo_lines(contents: Seq<char>)
    requires
        forall|i: int|
            0 <= i < lines_of(contents).len() ==> !todo_line(
                #[trigger] trim_start_of(lines_of(contents)[i]),
            ),
    ensures
        todo_msgs(lines_of(contents)) == Seq::<Seq<char>>::empty(),
{
    lemma_todo_none(lines_of(contents));
}

proof fn lemma_todo_none(ls: Seq<Seq<char>>)
    requires
        forall|i: int| 0 <= i < ls.len() ==> !todo_line(#[trigger] trim_start_of(ls[i])),
    ensures
        todo_msgs(ls) == Seq::<Seq<char>>::empty(),
    decreases ls.len(),
{
    if ls.len() > 0 {
        let p = ls.drop_last();
        assert forall|i: int| 0 <= i < p.len() implies !todo_line(#[trigger] trim_start_of(p[i])) by {
            assert(p[i] == ls[i]);
        }
        lemma_todo_none(p);
        assert(!todo_line(trim_start_of(ls[ls.len() - 1])));
    }
}

/// A matched tag text that begins with `opening`, ends with `>` and lacks `attr`.
pub open spec fn lacks_attr(m: Seq<char>, opening: Seq<char>, attr: Seq<char>) -> bool {
    begins_with(m, opening) && finishes_with(m, ">"@) && !has_sub(m, attr)
}

/// One finding, `head` followed by the match, for each match that has the
/// tag's shape and lacks `attr`.
pub open spec fn missing_attr_msgs(
    ms: Seq<Seq<char>>,
    opening: Seq<char>,
    attr: Seq<char>,
    head: Seq<char>,
) -> Seq<Seq<char>>
    decreases ms.len(),
{
    if ms.len() == 0 {
        seq![]
    } else {
        let prev = missing_attr_msgs(ms.drop_last(), opening, attr, head);
        if lacks_attr(ms.last(), opening, attr) {
            prev.push(head + ms.last())
        } else {
            prev
        }
    }
}

/// The anchor findings for the matched texts `ms`: one for each that begins
/// with `href=`, ends with `>` and lacks `rel=`.
pub open spec fn a_rel_msgs(ms: Seq<Seq<char>>) -> Seq<Seq<char>> {
    missing_attr_msgs(ms, "href="@, "rel="@, "a tag need set <rel> value: "@)
}

/// The image findings for the matched texts `ms`: one for each that begins
/// with `<Image`, ends with `>` and lacks `alt=`.
pub open spec fn image_alt_msgs(ms: Seq<Seq<char>>) -> Seq<Seq<char>> {
    missing_attr_msgs(ms, "<Image"@, "alt="@, "img tag need set <alt> value: "@)
}

/// The attribute names that a `.tsx` file should write in camelCase.
pub open spec fn svg_names() -> Seq<Seq<char>> {
    SVG_ATTRIBUTE_NAMES@.map_values(|n: &str| n@)
}

/// The finding for the kebab-case attribute name `n`.
pub open spec fn svg_msg(n: Seq<char>) -> Seq<char> {
    "need replace "@ + n + " to "@ + camel_of(n)
}

/// One finding for each name in `names` whose flag in `present` is set, in order.
pub open spec fn svg_msgs(names: Seq<Seq<char>>, present: Seq<bool>) -> Seq<Seq<char>>
    decreases present.len(),
{
    if present.len() == 0 {
        seq![]
    } else {
        let prev = svg_msgs(names, present.drop_last());
        if present.last() {
            prev.push(svg_msg(names[present.len() - 1]))
        } else {
            prev
        }
    }
}

/// For each attribute name, whether it matches in `contents`.
pub open spec fn svg_present(contents: Seq<char>) -> Seq<bool> {
    svg_names().map_values(|n: Seq<char>| found(n, contents).len() > 0)
}

/// The finding for a color literal that the theme defines.
pub open spec fn color_msg(c: Seq<char>) -> Seq<char> {
    "Color "@ + c + " need replace theme.ts definition"@
}

/// The color literals of the theme's lines, line by line.
pub open spec fn theme_colors(ls: Seq<Seq<char>>) -> Seq<Seq<char>>
    decreases ls.len(),
{
    if ls.len() == 0 {
        seq![]
    } else {
        theme_colors(ls.drop_last()) + found(RE_MATCH_COLOR@, ls.last())
    }
}

/// A finding for each theme color `tcs` that is among the candidates `cands`.
pub open spec fn flagged(cands: Seq<Seq<char>>, tcs: Seq<Seq<char>>) -> Seq<Seq<char>>
    decreases tcs.len(),
{
    if tcs.len() == 0 {
        seq![]
    } else {
        let prev = flagged(cands, tcs.drop_last());
        if cands.contains(tcs.last()) {
            prev.push(color_msg(tcs.last()))
        } else {
            prev
        }
    }
}

/// `s` with each element after its first occurrence left out.
pub open spec fn dedup(s: Seq<Seq<char>>) -> Seq<Seq<char>>
    decreases s.len(),
{
    if s.len() == 0 {
        seq![]
    } else {
        let d = dedup(s.drop_last());
        if d.contains(s.last()) {
            d
        } else {
            d.push(s.last())
        }
    }
}

/// The theme-color findings, once each.
pub open spec fn color_msgs(cands: Seq<Seq<char>>, tcs: Seq<Seq<char>>) -> Seq<Seq<char>> {
    dedup(flagged(cands, tcs))
}

/// The theme-color findings for a file's text and the theme file's text.
pub open spec fn tsx_color_msgs(contents: Seq<char>, theme: Seq<char>) -> Seq<Seq<char>> {
    if found(RE_XMLNS@, contents).len() > 0 {
        seq![]
    } else {
        color_msgs(found(RE_MATCH_COLOR@, contents), theme_colors(lines_of(theme)))
    }
}

/// The trimmed lines of `ls` whose flag in `hits` is set, in order.
pub open spec fn kept_trimmed(ls: Seq<Seq<char>>, hits: Seq<bool>) -> Seq<Seq<char>>
    decreases hits.len(),
{
    if hits.len() == 0 {
        seq![]
    } else {
        let prev = kept_trimmed(ls, hits.drop_last());
        if hits.last() {
            prev.push(trim_of(ls[hits.len() - 1]))
        } else {
            prev
        }
    }
}

/// For each line of the web linter's output, whether it reports an error.
pub open spec fn lint_ts_hits(ls: Seq<Seq<char>>) -> Seq<bool> {
    ls.map_values(|l: Seq<char>| found(RE_LINT_TS@, l).len() > 0)
}

/// The groups of `gs` that are present, in order.
pub open spec fn somes(gs: Seq<Option<Seq<char>>>) -> Seq<Seq<char>>
    decreases gs.len(),
{
    if gs.len() == 0 {
        seq![]
    } else {
        let prev = somes(gs.drop_last());
        match gs.last() {
            Some(g) => prev.push(g),
            None => prev,
        }
    }
}

/// The finding of the line-count policy.
pub open spec fn line_limit_msg() -> Seq<char> {
    "File cannot be larger than "@ + dec(FILE_LINE as nat) + " lines"@
}

/// The line-count policy's findings: one where the path is among the newly
/// added paths `staged` and the text has more than `FILE_LINE` lines.
pub open spec fn line_check_msgs(path: Seq<char>, staged: Seq<Seq<char>>, contents: Seq<char>) -> Seq<
    Seq<char>,
> {
    if staged.contains(path) && lines_of(contents).len() > FILE_LINE {
        seq![line_limit_msg()]
    } else {
        Seq::<Seq<char>>::empty()
    }
}

/// The path that a status line records as newly added, if it is one.
pub open spec fn added_path(l: Seq<char>) -> Option<Seq<char>> {
    if l.len() >= 3 && l[0] == 'A' {
        Some(l.subrange(3, l.len() as int))
    } else {
        None
    }
}

/// The paths that the status lines `ls` record as newly added, in order.
pub open spec fn added_paths(ls: Seq<Seq<char>>) -> Seq<Seq<char>>
    decreases ls.len(),
{
    if ls.len() == 0 {
        seq![]
    } else {
        let prev = added_paths(ls.drop_last());
        match added_path(ls.last()) {
            Some(p) => prev.push(p),
            None => prev,
        }
    }
}

/// The index of the match that the `i`-th finding of `missing_attr_msgs` quotes.
pub open spec fn quoted_index(ms: Seq<Seq<char>>, opening: Seq<char>, attr: Seq<char>, i: int) -> int
    decreases ms.len(),
{
    if ms.len() == 0 {
        0
    } else if i < missing_attr_msgs(ms.drop_last(), opening, attr, seq![]).len() {
        quoted_index(ms.drop_last(), opening, attr, i)
    } else {
        ms.len() - 1
    }
}

proof fn lemma_msgs_len_head(ms: Seq<Seq<char>>, opening: Seq<char>, attr: Seq<char>, head: Seq<char>)
    ensures
        missing_attr_msgs(ms, opening, attr, head).len() == missing_attr_msgs(
            ms,
            opening,
            attr,
            seq![],
        ).len(),
    decreases ms.len(),
{
    if ms.len() > 0 {
        lemma_msgs_len_head(ms.drop_last(), opening, attr, head);
    }
}

/// Each finding of `missing_attr_msgs` is `head` followed by one of the
/// matches, which has the tag's shape and lacks `attr`.
pub proof fn lemma_missing_attr_quotes(
    ms: Seq<Seq<char>>,
    opening: Seq<char>,
    attr: Seq<char>,
    head: Seq<char>,
)
    ensures
        forall|i: int|
            0 <= i < missing_attr_msgs(ms, opening, attr, head).len() ==> {
                let j = #[trigger] quoted_index(ms, opening, attr, i);
                &&& 0 <= j < ms.len()
                &&& missing_attr_msgs(ms, opening, attr, head)[i] == head + ms[j]
                &&& lacks_attr(ms[j], opening, attr)
            },
    decreases ms.len(),
{
    if ms.len() > 0 {
        let p = ms.drop_last();
        lemma_missing_attr_quotes(p, opening, attr, head);
        lemma_msgs_len_head(p, opening, attr, head);
        let r = missing_attr_msgs(ms, opening, attr, head);
        let q = missing_attr_msgs(p, opening, attr, head);
        assert forall|i: int| 0 <= i < r.len() implies {
            let j = #[trigger] quoted_index(ms, opening, attr, i);
            &&& 0 <= j < ms.len()
            &&& r[i] == head + ms[j]
            &&& lacks_attr(ms[j], opening, attr)
        } by {
            if i < q.len() {
                let j = quoted_index(p, opening, attr, i);
                assert(quoted_index(ms, opening, attr, i) == j);
                assert(r[i] == q[i]);
                assert(ms[j] == p[j]);
            } else {
                assert(quoted_index(ms, opening, attr, i) == ms.len() - 1);
                assert(r[i] == head + ms[ms.len() - 1]);
            }
        }
    }
}

/// The anchor and image checks depend on the text alone: two runs on equal
/// texts give equal findings.
pub proof fn lemma_tag_checks_repeatable(a: Seq<char>, b: Seq<char>)
    requires
        a == b,
    ensures
        a_rel_msgs(found(RE_A_HREF@, a)) == a_rel_msgs(found(RE_A_HREF@, b)),
        image_alt_msgs(found(RE_IMAGE_TAG@, a)) == image_alt_msgs(found(RE_IMAGE_TAG@, b)),
{
}

/// Every element of `s` is in `dedup(s)`, every element of `dedup(s)` is in
/// `s`, and no element stands twice in `dedup(s)`.
pub proof fn lemma_dedup(s: Seq<Seq<char>>)
    ensures
        forall|x: Seq<char>| s.contains(x) <==> #[trigger] dedup(s).contains(x),
        forall|i: int, j: int|
            0 <= i < j < dedup(s).len() ==> #[trigger] dedup(s)[i] != #[trigger] dedup(s)[j],
    decreases s.len(),
{
    if s.len() > 0 {
        let p = s.drop_last();
        lemma_dedup(p);
        let d = dedup(p);
        let e = dedup(s);
        assert forall|x: Seq<char>| s.contains(x) implies #[trigger] e.contains(x) by {
            let k = choose|k: int| 0 <= k < s.len() && s[k] == x;
            if k < p.len() {
                assert(p[k] == x);
                assert(d.contains(x));
                let m = choose|m: int| 0 <= m < d.len() && d[m] == x;
                assert(e[m] == x);
            } else if d.contains(x) {
                let m = choose|m: int| 0 <= m < d.len() && d[m] == x;
                assert(e[m] == x);
            } else {
                assert(e[e.len() - 1] == x);
            }
        }
        assert forall|x: Seq<char>| #[trigger] e.contains(x) implies s.contains(x) by {
            let k = choose|k: int| 0 <= k < e.len() && e[k] == x;
            if k < d.len() {
                assert(d[k] == x);
                assert(d.contains(x));
                let m = choose|m: int| 0 <= m < p.len() && p[m] == x;
                assert(s[m] == x);
            } else {
                assert(s[s.len() - 1] == x);
            }
        }
        assert forall|i: int, j: int| 0 <= i < j < e.len() implies #[trigger] e[i] != #[trigger] e[j] by {
            if j >= d.len() {
                assert(e[i] == d[i]);
                assert(!d.contains(s.last()));
            }
        }
    }
}

/// Whatever the theme file repeats, each theme-color finding stands once,
/// and a color of the file's text that the theme holds is reported.
pub proof fn lemma_color_findings_once(contents: Seq<char>, theme: Seq<char>, c: Seq<char>)
    requires
        found(RE_XMLNS@, contents).len() == 0,
        found(RE_MATCH_COLOR@, contents).contains(c),
        theme_colors(lines_of(theme)).contains(c),
    ensures
        tsx_color_msgs(contents, theme).contains(color_msg(c)),
        forall|i: int, j: int|
            0 <= i < j < tsx_color_msgs(contents, theme).len() ==> #[trigger] tsx_color_msgs(
                contents,
                theme,
            )[i] != #[trigger] tsx_color_msgs(contents, theme)[j],
{
    let cands = found(RE_MATCH_COLOR@, contents);
    let tcs = theme_colors(lines_of(theme));
    lemma_flagged_has(cands, tcs, c);
    lemma_dedup(flagged(cands, tcs));
}

proof fn lemma_flagged_has(cands: Seq<Seq<char>>, tcs: Seq<Seq<char>>, c: Seq<char>)
    requires
        cands.contains(c),
        tcs.contains(c),
    ensures
        flagged(cands, tcs).contains(color_msg(c)),
    decreases tcs.len(),
{
    let p = tcs.drop_last();
    if tcs.last() == c {
        assert(flagged(cands, tcs).last() == color_msg(c));
    } else {
        let k = choose|k: int| 0 <= k < tcs.len() && tcs[k] == c;
        assert(p[k] == c);
        lemma_flagged_has(cands, p, c);
        let q = flagged(cands, p);
        let m = choose|m: int| 0 <= m < q.len() && q[m] == color_msg(c);
        assert(flagged(cands, tcs)[m] == color_msg(c));
    }
}

/// The trimmed lines of `lines` whose flag in `hits` is set.
pub fn kept_lines(lines: &Vec<Vec<char>>, hits: &Vec<bool>) -> (r: LintResult)
    requires
        lines@.len() == hits@.len(),
    ensures
        r.findings() == kept_trimmed(char_rows(lines@), hits@),
        r.counts_findings(),
{
    let mut result: Vec<String> = Vec::new();
    let mut i: usize = 0;
    while i < hits.len()
        invariant
            i <= hits@.len(),
            lines@.len() == hits@.len(),
            strs(result@) == kept_trimmed(char_rows(lines@), hits@.take(i as int)),
        decreases hits@.len() - i,
    {
        assert(hits@.take(i + 1).drop_last() =~= hits@.take(i as int));
        if hits[i] {
            let t = trim_chars(&lines[i]);
            result.push(string_of_all(&t));
        }
        assert(strs(result@) =~= kept_trimmed(char_rows(lines@), hits@.take(i + 1)));
        i = i + 1;
    }
    assert(hits@.take(hits@.len() as int) =~= hits@);
    LintResult { errors: result.len(), result }
}

/// The groups that are present, in order.
pub fn present_groups(groups: &Vec<Option<String>>) -> (r: LintResult)
    ensures
        r.findings() == somes(opt_strs(groups@)),
        r.counts_findings(),
{
    let mut result: Vec<String> = Vec::new();
    let mut i: usize = 0;
    while i < groups.len()
        invariant
            i <= groups@.len(),
            strs(result@) == somes(opt_strs(groups@).take(i as int)),
        decreases groups@.len() - i,
    {
        assert(opt_strs(groups@).take(i + 1).drop_last() =~= opt_strs(groups@).take(i as int));
        match &groups[i] {
            Some(g) => {
                result.push(g.clone());
            },
            None => {},
        }
        assert(strs(result@) =~= somes(opt_strs(groups@).take(i + 1)));
        i = i + 1;
    }
    assert(opt_strs(groups@).take(groups@.len() as int) =~= opt_strs(groups@));
    LintResult { errors: result.len(), result }
}

/// Whether `x` is among the strings of `v`.
fn has_string(v: &Vec<String>, x: &String) -> (r: bool)
    ensures
        r == strs(v@).contains(x@),
{
    let mut i: usize = 0;
    while i < v.len()
        invariant
            i <= v@.len(),
            forall|k: int| 0 <= k < i ==> strs(v@)[k] != x@,
        decreases v@.len() - i,
    {
        if v[i] == *x {
            assert(strs(v@)[i as int] == x@);
            return true;
        }
        i = i + 1;
    }
    false
}

/// Whether `s` ends with `p`.
fn ends_with_exec(s: &Vec<char>, p: &Vec<char>) -> (r: bool)
    ensures
        r == finishes_with(s@, p@),
{
    if p.len() > s.len() {
        false
    } else {
        occurs_at_exec(s, p, s.len() - p.len())
    }
}

/// One finding, `head` followed by the match, for each match that begins
/// with `opening`, ends with `>` and lacks `attr`.
fn missing_attr(matches: &Vec<String>, opening: &str, attr: &str, head: &str) -> (r: LintResult)
    ensures
        r.findings() == missing_attr_msgs(strs(matches@), opening@, attr@, head@),
        r.counts_findings(),
{
    let o = chars_of(opening);
    let close = chars_of(">");
    let a = chars_of(attr);
    let mut result: Vec<String> = Vec::new();
    let mut i: usize = 0;
    while i < matches.len()
        invariant
            i <= matches@.len(),
            o@ == opening@,
            close@ == ">"@,
            a@ == attr@,
            strs(result@) == missing_attr_msgs(strs(matches@).take(i as int), opening@, attr@, head@),
        decreases matches@.len() - i,
    {
        assert(strs(matches@).take(i + 1).drop_last() =~= strs(matches@).take(i as int));
        let m = chars_of(matches[i].as_str());
        if begins_with_exec(&m, &o) && ends_with_exec(&m, &close) && !contains(&m, &a) {
            let mut f = String::new();
            append_str(&mut f, head);
            append_chars(&mut f, &m);
            result.push(f);
        }
        assert(strs(result@) =~= missing_attr_msgs(
            strs(matches@).take(i + 1),
            opening@,
            attr@,
            head@,
        ));
        i = i + 1;
    }
    assert(strs(matches@).take(matches@.len() as int) =~= strs(matches@));
    LintResult { errors: result.len(), result }
}

/// The rules of the linter, each a function of a file's text (and path).
pub struct CheckFile {}

impl CheckFile {
    /// Reports each comment line that holds the TODO marker and not the
    /// exemption marker, with its 0-based index and its text from the
    /// comment marker on.
    pub fn match_todo(contents: &str) -> (r: LintResult)
        ensures
            r.findings() == todo_msgs(lines_of(contents@)),
            r.counts_findings(),
    {
        let text = chars_of(contents);
        let lines = lines_vec(&text);
        let comment = chars_of(COMMENT_MARK);
        let todo = chars_of(TODO_SEARCH);
        let ignore = chars_of(TODO_IGNORE_SEARCH);
        let mut result: Vec<String> = Vec::new();
        let mut i: usize = 0;
        while i < lines.len()
            invariant
                i <= lines@.len(),
                char_rows(lines@) == lines_of(contents@),
                comment@ == COMMENT_MARK@,
                todo@ == TODO_SEARCH@,
                ignore@ == TODO_IGNORE_SEARCH@,
                strs(result@) == todo_msgs(char_rows(lines@).take(i as int)),
            decreases lines@.len() - i,
        {
            let ghost ls = char_rows(lines@).take(i + 1);
            assert(ls.drop_last() =~= char_rows(lines@).take(i as int));
            assert(ls.last() == lines@[i as int]@);
            let line = trim_start_chars(&lines[i]);
            if begins_with_exec(&line, &comment) && contains(&line, &todo) && !contains(
                &line,
                &ignore,
            ) {
                let mut m = String::new();
                append_str(&mut m, "line ");
                append_dec(&mut m, i);
                append_str(&mut m, " has TODO ");
                append_chars(&mut m, &line);
                result.push(m);
            }
            assert(strs(result@) =~= todo_msgs(ls));
            i = i + 1;
        }
        assert(char_rows(lines@).take(lines@.len() as int) =~= char_rows(lines@));
        LintResult { errors: result.len(), result }
    }

    /// Counts console logging calls beyond those that comment lines mark as
    /// necessary; a positive excess is the error count and gives one finding.
    pub fn match_console_log(contents: &str) -> (r: LintResult)
        ensures
            r.errors == console_errors(contents@),
            r.findings() == console_msgs(contents@),
    {
        let text = chars_of(contents);
        let lines = lines_vec(&text);
        let comment = chars_of(COMMENT_MARK);
        let necessary = chars_of(NECESSARY_CONSOLE_LOGGING);
        let console = chars_of(CONSOLE_LOG);
        let mut match_necessary: usize = 0;
        let mut match_console: usize = 0;
        let mut i: usize = 0;
        while i < lines.len()
            invariant
                i <= lines@.len(),
                char_rows(lines@) == lines_of(contents@),
                comment@ == COMMENT_MARK@,
                necessary@ == NECESSARY_CONSOLE_LOGGING@,
                console@ == CONSOLE_LOG@,
                match_necessary == necessary_count(char_rows(lines@).take(i as int)),
                match_console == console_count(char_rows(lines@).take(i as int)),
            decreases lines@.len() - i,
        {
            let ghost ls = char_rows(lines@).take(i + 1);
            assert(ls.drop_last() =~= char_rows(lines@).take(i as int));
            assert(ls.last() == lines@[i as int]@);
            proof {
                lemma_counts_bounded(ls.drop_last());
            }
            let line = trim_start_chars(&lines[i]);
            if begins_with_exec(&line, &comment) && contains(&line, &necessary) {
                match_necessary = match_necessary + 1;
            }
            if contains(&line, &console) {
                match_console = match_console + 1;
            }
            i = i + 1;
        }
        assert(char_rows(lines@).take(lines@.len() as int) =~= char_rows(lines@));
        let mut result: Vec<String> = Vec::new();
        if match_console > match_necessary {
            let difference = match_console - match_necessary;
            let mut m = String::new();
            append_str(&mut m, "file has ");
            append_dec(&mut m, difference);
            append_str(&mut m, " console.log");
            result.push(m);
            assert(strs(result@) =~= seq![console_msg(difference as nat)]);
            LintResult { errors: difference, result }
        } else {
            assert(strs(result@) =~= Seq::<Seq<char>>::empty());
            LintResult { errors: 0, result }
        }
    }
    /// The anchor findings for the matched `href=...>` texts.
    pub fn a_rel_findings(matches: &Vec<String>) -> (r: LintResult)
        ensures
            r.findings() == a_rel_msgs(strs(matches@)),
            r.counts_findings(),
    {
        missing_attr(matches, "href=", "rel=", "a tag need set <rel> value: ")
    }

    /// The image findings for the matched `<Image ...>` texts.
    pub fn image_alt_findings(matches: &Vec<String>) -> (r: LintResult)
        ensures
            r.findings() == image_alt_msgs(strs(matches@)),
            r.counts_findings(),
    {
        missing_attr(matches, "<Image", "alt=", "img tag need set <alt> value: ")
    }

    /// Reports each `href=` up to the next `>` that holds no `rel=`, quoting it;
    /// each quote is a part of the text with that shape.
    pub fn match_a_rel(contents: &str) -> (r: LintResult)
        ensures
            r.findings() == a_rel_msgs(found(RE_A_HREF@, contents@)),
            r.counts_findings(),
            forall|i: int|
                0 <= i < r.findings().len() ==> {
                    let m = found(RE_A_HREF@, contents@)[#[trigger] quoted_index(
                        found(RE_A_HREF@, contents@),
                        "href="@,
                        "rel="@,
                        i,
                    )];
                    &&& r.findings()[i] == "a tag need set <rel> value: "@ + m
                    &&& has_sub(contents@, m)
                    &&& lacks_attr(m, "href="@, "rel="@)
                },
    {
        let matches = find_matches(RE_A_HREF, contents);
        let r = Self::a_rel_findings(&matches);
        proof {
            let ms = strs(matches@);
            lemma_missing_attr_quotes(ms, "href="@, "rel="@, "a tag need set <rel> value: "@);
            assert forall|i: int| 0 <= i < r.findings().len() implies {
                let m = ms[#[trigger] quoted_index(ms, "href="@, "rel="@, i)];
                &&& r.findings()[i] == "a tag need set <rel> value: "@ + m
                &&& has_sub(contents@, m)
                &&& lacks_attr(m, "href="@, "rel="@)
            } by {
                let j = quoted_index(ms, "href="@, "rel="@, i);
                assert(has_sub(contents@, matches@[j]@));
            }
        }
        r
    }

    /// Reports each opening `<Image` tag that holds no `alt=`, quoting it;
    /// each quote is a part of the text with that shape.
    pub fn match_image_alt(contents: &str) -> (r: LintResult)
        ensures
            r.findings() == image_alt_msgs(found(RE_IMAGE_TAG@, contents@)),
            r.counts_findings(),
            forall|i: int|
                0 <= i < r.findings().len() ==> {
                    let m = found(RE_IMAGE_TAG@, contents@)[#[trigger] quoted_index(
                        found(RE_IMAGE_TAG@, contents@),
                        "<Image"@,
                        "alt="@,
                        i,
                    )];
                    &&& r.findings()[i] == "img tag need set <alt> value: "@ + m
                    &&& has_sub(contents@, m)
                    &&& lacks_attr(m, "<Image"@, "alt="@)
                },
    {
        let matches = find_matches(RE_IMAGE_TAG, contents);
        let r = Self::image_alt_findings(&matches);
        proof {
            let ms = strs(matches@);
            lemma_missing_attr_quotes(ms, "<Image"@, "alt="@, "img tag need set <alt> value: "@);
            assert forall|i: int| 0 <= i < r.findings().len() implies {
                let m = ms[#[trigger] quoted_index(ms, "<Image"@, "alt="@, i)];
                &&& r.findings()[i] == "img tag need set <alt> value: "@ + m
                &&& has_sub(contents@, m)
                &&& lacks_attr(m, "<Image"@, "alt="@)
            } by {
                let j = quoted_index(ms, "<Image"@, "alt="@, i);
                assert(has_sub(contents@, matches@[j]@));
            }
        }
        r
    }

    /// One finding for each attribute name whose flag in `present` is set,
    /// naming its camelCase form.
    pub fn svg_attribute_findings(present: &Vec<bool>) -> (r: LintResult)
        requires
            present@.len() == SVG_ATTRIBUTE_NAMES@.len(),
        ensures
            r.findings() == svg_msgs(svg_names(), present@),
            r.counts_findings(),
    {
        let mut result: Vec<String> = Vec::new();
        let mut i: usize = 0;
        while i < present.len()
            invariant
                i <= present@.len(),
                present@.len() == SVG_ATTRIBUTE_NAMES@.len(),
                strs(result@) == svg_msgs(svg_names(), present@.take(i as int)),
            decreases present@.len() - i,
        {
            assert(present@.take(i + 1).drop_last() =~= present@.take(i as int));
            if present[i] {
                let name = SVG_ATTRIBUTE_NAMES[i];
                let mut f = String::new();
                append_str(&mut f, "need replace ");
                append_str(&mut f, name);
                append_str(&mut f, " to ");
                let camel = convert_to_camel_case(name);
                append_str(&mut f, camel.as_str());
                result.push(f);
                assert(svg_names()[i as int] == name@);
            }
            assert(strs(result@) =~= svg_msgs(svg_names(), present@.take(i + 1)));
            i = i + 1;
        }
        assert(present@.take(present@.len() as int) =~= present@);
        LintResult { errors: result.len(), result }
    }

    /// In a `.tsx` file, reports each listed attribute name that matches in
    /// the text; in any other file, nothing.
    pub fn match_svg_attribute(contents: &str, file_path: &str) -> (r: LintResult)
        ensures
            r.findings() == if finishes_with(file_path@, ".tsx"@) {
                svg_msgs(svg_names(), svg_present(contents@))
            } else {
                Seq::<Seq<char>>::empty()
            },
            r.counts_findings(),
            !finishes_with(file_path@, ".tsx"@) ==> r.result@.len() == 0,
    {
        let path = chars_of(file_path);
        let tsx = chars_of(".tsx");
        if !ends_with_exec(&path, &tsx) {
            let result: Vec<String> = Vec::new();
            assert(strs(result@) =~= Seq::<Seq<char>>::empty());
            return LintResult { errors: 0, result };
        }
        let mut present: Vec<bool> = Vec::new();
        let mut i: usize = 0;
        while i < SVG_ATTRIBUTE_NAMES.len()
            invariant
                i <= SVG_ATTRIBUTE_NAMES@.len(),
                present@.len() == i,
                forall|k: int|
                    0 <= k < i ==> present@[k] == (found(SVG_ATTRIBUTE_NAMES@[k]@, contents@).len()
                        > 0),
            decreases SVG_ATTRIBUTE_NAMES@.len() - i,
        {
            present.push(has_match(SVG_ATTRIBUTE_NAMES[i], contents));
            i = i + 1;
        }
        assert(present@ =~= svg_present(contents@));
        Self::svg_attribute_findings(&present)
    }

    /// The findings, once each, for the theme colors `theme_colors` that are
    /// among the colors `candidates` of the file's text.
    pub fn color_findings(candidates: &Vec<String>, theme_colors: &Vec<String>) -> (r: LintResult)
        ensures
            r.findings() == color_msgs(strs(candidates@), strs(theme_colors@)),
            r.counts_findings(),
    {
        let mut all: Vec<String> = Vec::new();
        let mut i: usize = 0;
        while i < theme_colors.len()
            invariant
                i <= theme_colors@.len(),
                strs(all@) == flagged(strs(candidates@), strs(theme_colors@).take(i as int)),
            decreases theme_colors@.len() - i,
        {
            assert(strs(theme_colors@).take(i + 1).drop_last() =~= strs(theme_colors@).take(
                i as int,
            ));
            let c = &theme_colors[i];
            if has_string(candidates, c) {
                let mut f = String::new();
                append_str(&mut f, "Color ");
                append_str(&mut f, c.as_str());
                append_str(&mut f, " need replace theme.ts definition");
                all.push(f);
            }
            assert(strs(all@) =~= flagged(strs(candidates@), strs(theme_colors@).take(i + 1)));
            i = i + 1;
        }
        assert(strs(theme_colors@).take(theme_colors@.len() as int) =~= strs(theme_colors@));
        let mut result: Vec<String> = Vec::new();
        let mut j: usize = 0;
        while j < all.len()
            invariant
                j <= all@.len(),
                strs(result@) == dedup(strs(all@).take(j as int)),
            decreases all@.len() - j,
        {
            assert(strs(all@).take(j + 1).drop_last() =~= strs(all@).take(j as int));
            if !has_string(&result, &all[j]) {
                result.push(all[j].clone());
            }
            assert(strs(result@) =~= dedup(strs(all@).take(j + 1)));
            j = j + 1;
        }
        assert(strs(all@).take(all@.len() as int) =~= strs(all@));
        LintResult { errors: result.len(), result }
    }

    /// Reports, once each, the color literals of the theme file's lines that
    /// also stand in the file's text; nothing where the text matches `xmlns`.
    pub fn match_tsx_color(contents: &str, theme: &str) -> (r: LintResult)
        ensures
            r.findings() == tsx_color_msgs(contents@, theme@),
            r.counts_findings(),
            found(RE_XMLNS@, contents@).len() > 0 ==> r.result@.len() == 0,
    {
        if has_match(RE_XMLNS, contents) {
            let result: Vec<String> = Vec::new();
            assert(strs(result@) =~= Seq::<Seq<char>>::empty());
            return LintResult { errors: 0, result };
        }
        let candidates = find_matches(RE_MATCH_COLOR, contents);
        let theme_chars = chars_of(theme);
        let lines = lines_vec(&theme_chars);
        let mut colors: Vec<String> = Vec::new();
        let mut i: usize = 0;
        while i < lines.len()
            invariant
                i <= lines@.len(),
                char_rows(lines@) == lines_of(theme@),
                strs(colors@) == theme_colors(char_rows(lines@).take(i as int)),
            decreases lines@.len() - i,
        {
            let ghost ls = char_rows(lines@).take(i + 1);
            assert(ls.drop_last() =~= char_rows(lines@).take(i as int));
            let line = string_of_all(&lines[i]);
            let mut m = find_matches(RE_MATCH_COLOR, line.as_str());
            colors.append(&mut m);
            assert(strs(colors@) =~= theme_colors(ls));
            i = i + 1;
        }
        assert(char_rows(lines@).take(lines@.len() as int) =~= char_rows(lines@));
        Self::color_findings(&candidates, &colors)
    }

    /// Keeps, trimmed, each line of the web linter's output that reports an error.
    pub fn lint_ts(stdout: &str) -> (r: LintResult)
        ensures
            r.findings() == kept_trimmed(lines_of(stdout@), lint_ts_hits(lines_of(stdout@))),
            r.counts_findings(),
    {
        let text = chars_of(stdout);
        let lines = lines_vec(&text);
        let mut hits: Vec<bool> = Vec::new();
        let mut i: usize = 0;
        while i < lines.len()
            invariant
                i <= lines@.len(),
                hits@.len() == i,
                char_rows(lines@) == lines_of(stdout@),
                forall|k: int|
                    0 <= k < i ==> hits@[k] == (found(RE_LINT_TS@, lines@[k]@).len() > 0),
            decreases lines@.len() - i,
        {
            let line = string_of_all(&lines[i]);
            hits.push(has_match(RE_LINT_TS, line.as_str()));
            i = i + 1;
        }
        assert(hits@ =~= lint_ts_hits(lines_of(stdout@)));
        kept_lines(&lines, &hits)
    }

    /// The `line:col: message` blocks of the Go linter's output, each with
    /// its indented continuation lines.
    pub fn lint_go(stdout: &str) -> (r: LintResult)
        ensures
            r.findings() == somes(found_groups(RE_LINT_GO@, stdout@)),
            r.counts_findings(),
    {
        let groups = find_groups(RE_LINT_GO, stdout);
        present_groups(&groups)
    }

    /// The paths that version-control status lines record as newly added:
    /// each line that begins with `A`, from its fourth character on.
    pub fn git_add_files(status: &str) -> (r: Vec<String>)
        ensures
            strs(r@) == added_paths(lines_of(status@)),
    {
        let text = chars_of(status);
        let lines = lines_vec(&text);
        let mut result: Vec<String> = Vec::new();
        let mut i: usize = 0;
        while i < lines.len()
            invariant
                i <= lines@.len(),
                char_rows(lines@) == lines_of(status@),
                strs(result@) == added_paths(char_rows(lines@).take(i as int)),
            decreases lines@.len() - i,
        {
            let ghost ls = char_rows(lines@).take(i + 1);
            assert(ls.drop_last() =~= char_rows(lines@).take(i as int));
            let l = &lines[i];
            if l.len() >= 3 && l[0] == 'A' {
                result.push(string_of(l, 3, l.len()));
            }
            assert(strs(result@) =~= added_paths(ls));
            i = i + 1;
        }
        assert(char_rows(lines@).take(lines@.len() as int) =~= char_rows(lines@));
        result
    }

    /// Reports a file of more than `FILE_LINE` lines, but only where its path
    /// is among the newly added paths `diff_add_files`.
    pub fn check_file_lines(file_path: &str, diff_add_files: &Vec<String>, contents: &str) -> (r:
        LintResult)
        ensures
            r.findings() == line_check_msgs(file_path@, strs(diff_add_files@), contents@),
            r.counts_findings(),
            !strs(diff_add_files@).contains(file_path@) ==> r.result@.len() == 0,
    {
        let text = chars_of(contents);
        let lines = lines_vec(&text);
        assert(lines@.len() == char_rows(lines@).len());
        let path_chars = chars_of(file_path);
        let path = string_of_all(&path_chars);
        let mut result: Vec<String> = Vec::new();
        if has_string(diff_add_files, &path) && lines.len() > FILE_LINE {
            let mut f = String::new();
            append_str(&mut f, "File cannot be larger than ");
            append_dec(&mut f, FILE_LINE);
            append_str(&mut f, " lines");
            result.push(f);
            assert(strs(result@) =~= seq![line_limit_msg()]);
        } else {
            assert(strs(result@) =~= Seq::<Seq<char>>::empty());
        }
        LintResult { errors: result.len(), result }
    }
}

} // verus!
