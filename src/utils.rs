//! Small helpers: word wrapping of findings, status marks, path parts and
//! the kebab-case to camelCase rewrite.
use vstd::prelude::*;
use crate::text::{char_rows, chars_of, is_ws, is_ws_exec, push_char, string_of_all, strs};

verus! {

/// The widest a wrapped line may grow, in bytes.
pub const MAX_WIDTH: usize = 50;

/// Bytes of `c` in UTF-8.
pub open spec fn char_bytes(c: char) -> nat {
    if (c as u32) < 0x80 {
        1
    } else if (c as u32) < 0x800 {
        2
    } else if (c as u32) < 0x10000 {
        3
    } else {
        4
    }
}

/// Bytes of `s` in UTF-8 (what `str::len` gives).
pub open spec fn bytes_len(s: Seq<char>) -> nat
    decreases s.len(),
{
    if s.len() == 0 {
        0
    } else {
        bytes_len(s.drop_last()) + char_bytes(s.last())
    }
}

/// The words found so far in `s`, and the word still open.
pub open spec fn word_acc(s: Seq<char>) -> (Seq<Seq<char>>, Seq<char>)
    decreases s.len(),
{
    if s.len() == 0 {
        (seq![], seq![])
    } else {
        let (done, cur) = word_acc(s.drop_last());
        if is_ws(s.last()) {
            if cur.len() > 0 {
                (done.push(cur), seq![])
            } else {
                (done, seq![])
            }
        } else {
            (done, cur.push(s.last()))
        }
    }
}

/// The maximal runs of non-whitespace in `s` (what `str::split_whitespace` yields).
pub open spec fn words_of(s: Seq<char>) -> Seq<Seq<char>> {
    let (done, cur) = word_acc(s);
    if cur.len() > 0 {
        done.push(cur)
    } else {
        done
    }
}

/// One step of greedy wrapping: the line in progress is closed when the
/// word and a separating space would take it past the width.
pub open spec fn wrap_step(st: (Seq<Seq<char>>, Seq<char>), w: Seq<char>) -> (
    Seq<Seq<char>>,
    Seq<char>,
) {
    let (lines, cur) = st;
    let (lines2, cur2) = if bytes_len(cur) + bytes_len(w) + 1 > MAX_WIDTH {
        (lines.push(cur), seq![])
    } else {
        (lines, cur)
    };
    let cur3 = if cur2.len() > 0 {
        cur2.push(' ')
    } else {
        cur2
    };
    (lines2, cur3 + w)
}

/// Greedy wrapping of the words `ws`: closed lines and the line in progress.
pub open spec fn wrap_acc(ws: Seq<Seq<char>>) -> (Seq<Seq<char>>, Seq<char>)
    decreases ws.len(),
{
    if ws.len() == 0 {
        (seq![], seq![])
    } else {
        wrap_step(wrap_acc(ws.drop_last()), ws.last())
    }
}

/// The lines that `overflow_text` makes of `s`.
pub open spec fn wrapped(s: Seq<char>) -> Seq<Seq<char>> {
    let (lines, cur) = wrap_acc(words_of(s));
    if cur.len() > 0 {
        lines.push(cur)
    } else {
        lines
    }
}

/// `c` with an ASCII lower-case letter made upper-case.
pub open spec fn ascii_upper(c: char) -> char {
    if 'a' <= c && c <= 'z' {
        ((c as u32) - 32) as char
    } else {
        c
    }
}

/// `c` with an ASCII upper-case letter made lower-case.
pub open spec fn ascii_lower(c: char) -> char {
    if 'A' <= c && c <= 'Z' {
        ((c as u32) + 32) as char
    } else {
        c
    }
}

/// `s` with its ASCII letters made lower-case.
pub open spec fn lower_seq(s: Seq<char>) -> Seq<char> {
    s.map_values(|c: char| ascii_lower(c))
}

/// The camelCase text built so far from `s`, and whether a hyphen waits.
pub open spec fn camel_acc(s: Seq<char>) -> (Seq<char>, bool)
    decreases s.len(),
{
    if s.len() == 0 {
        (seq![], false)
    } else {
        let (r, up) = camel_acc(s.drop_last());
        let c = s.last();
        if c == '-' {
            (r, true)
        } else if up {
            (r.push(ascii_upper(c)), false)
        } else {
            (r.push(c), false)
        }
    }
}

/// `s` with hyphens removed and each character that followed one upper-cased.
pub open spec fn camel_of(s: Seq<char>) -> Seq<char> {
    camel_acc(s).0
}

/// The file extensions that have a rule set.
pub open spec fn supported_ext(e: Seq<char>) -> bool {
    e == seq!['j', 's'] || e == seq!['t', 's'] || e == seq!['t', 's', 'x'] || e == seq!['g', 'o']
}

/// What `std::path::Path::file_name` gives for a path.
pub uninterp spec fn path_file_name(p: Seq<char>) -> Option<Seq<char>>;

/// What `std::path::Path::extension` gives for a path.
pub uninterp spec fn path_extension(p: Seq<char>) -> Option<Seq<char>>;

/// Relies on `std::path::Path::file_name`: the final component of the path, if it has one.
#[verifier::external_body]
fn file_name_part(p: &str) -> (r: Option<String>)
    ensures
        match r {
            Some(n) => path_file_name(p@) == Some(n@),
            None => path_file_name(p@) is None,
        },
{
    std::path::Path::new(p).file_name().and_then(|n| n.to_str()).map(|n| n.to_string())
}

/// Relies on `std::path::Path::extension`: the final component's text after its last dot.
#[verifier::external_body]
pub(crate) fn extension_part(p: &str) -> (r: Option<String>)
    ensures
        match r {
            Some(e) => path_extension(p@) == Some(e@),
            None => path_extension(p@) is None,
        },
{
    std::path::Path::new(p).extension().and_then(|e| e.to_str()).map(|e| e.to_string())
}

/// Bytes of `s` in UTF-8, or `MAX_WIDTH` where it is more.
fn bytes_len_capped(s: &Vec<char>) -> (r: usize)
    ensures
        r as int == if bytes_len(s@) < MAX_WIDTH {
            bytes_len(s@) as int
        } else {
            MAX_WIDTH as int
        },
{
    let mut n: usize = 0;
    let mut i: usize = 0;
    while i < s.len()
        invariant
            i <= s@.len(),
            n <= MAX_WIDTH,
            n as int == if bytes_len(s@.take(i as int)) < MAX_WIDTH {
                bytes_len(s@.take(i as int)) as int
            } else {
                MAX_WIDTH as int
            },
        decreases s@.len() - i,
    {
        let c = s[i];
        let b: usize = if (c as u32) < 0x80 {
            1
        } else if (c as u32) < 0x800 {
            2
        } else if (c as u32) < 0x10000 {
            3
        } else {
            4
        };
        assert(s@.take(i + 1).drop_last() =~= s@.take(i as int));
        n = if n + b > MAX_WIDTH {
            MAX_WIDTH
        } else {
            n + b
        };
        i = i + 1;
    }
    assert(s@.take(s@.len() as int) =~= s@);
    n
}

/// Splits `s` into its words.
fn words_vec(s: &Vec<char>) -> (r: Vec<Vec<char>>)
    ensures
        char_rows(r@) == words_of(s@),
{
    let mut done: Vec<Vec<char>> = Vec::new();
    let mut cur: Vec<char> = Vec::new();
    let mut i: usize = 0;
    while i < s.len()
        invariant
            i <= s@.len(),
            (char_rows(done@), cur@) == word_acc(s@.take(i as int)),
        decreases s@.len() - i,
    {
        let c = s[i];
        assert(s@.take(i + 1).drop_last() =~= s@.take(i as int));
        if is_ws_exec(c) {
            if cur.len() > 0 {
                done.push(cur);
            }
            cur = Vec::new();
        } else {
            cur.push(c);
        }
        assert(char_rows(done@) =~= word_acc(s@.take(i + 1)).0);
        i = i + 1;
    }
    assert(s@.take(s@.len() as int) =~= s@);
    if cur.len() > 0 {
        done.push(cur);
        assert(char_rows(done@) =~= words_of(s@));
    }
    done
}

/// Appends the characters of `w` to `v`.
fn extend_chars(v: &mut Vec<char>, w: &Vec<char>)
    ensures
        final(v)@ == old(v)@ + w@,
{
    let mut i: usize = 0;
    while i < w.len()
        invariant
            i <= w@.len(),
            v@ == old(v)@ + w@.take(i as int),
        decreases w@.len() - i,
    {
        v.push(w[i]);
        i = i + 1;
        assert(w@.take(i as int) =~= w@.take(i - 1).push(w@[i - 1]));
    }
    assert(w@.take(w@.len() as int) =~= w@);
}

proof fn lemma_wrap_capped(a: nat, b: nat)
    ensures
        (a + b + 1 > MAX_WIDTH) == ((if a < MAX_WIDTH {
            a
        } else {
            MAX_WIDTH as nat
        }) + (if b < MAX_WIDTH {
            b
        } else {
            MAX_WIDTH as nat
        }) + 1 > MAX_WIDTH),
{
}

/// Wraps `long_text` into lines of at most `MAX_WIDTH` bytes, breaking only
/// between words (a single longer word stands on a line of its own).
pub fn overflow_text(long_text: &str) -> (r: Vec<String>)
    ensures
        strs(r@) == wrapped(long_text@),
{
    let chars = chars_of(long_text);
    let words = words_vec(&chars);
    let mut lines: Vec<String> = Vec::new();
    let mut cur: Vec<char> = Vec::new();
    let mut i: usize = 0;
    while i < words.len()
        invariant
            i <= words@.len(),
            char_rows(words@) == words_of(long_text@),
            (strs(lines@), cur@) == wrap_acc(char_rows(words@).take(i as int)),
        decreases words@.len() - i,
    {
        let w = &words[i];
        let ghost ws = char_rows(words@).take(i + 1);
        assert(ws.drop_last() =~= char_rows(words@).take(i as int));
        assert(ws.last() == w@);
        let cn = bytes_len_capped(&cur);
        let wn = bytes_len_capped(w);
        proof {
            lemma_wrap_capped(bytes_len(cur@), bytes_len(w@));
        }
        if cn + wn + 1 > MAX_WIDTH {
            let line = string_of_all(&cur);
            lines.push(line);
            cur = Vec::new();
        }
        if cur.len() > 0 {
            cur.push(' ');
        }
        extend_chars(&mut cur, w);
        assert(strs(lines@) =~= wrap_acc(ws).0);
        i = i + 1;
    }
    assert(char_rows(words@).take(words@.len() as int) =~= char_rows(words@));
    if cur.len() > 0 {
        let line = string_of_all(&cur);
        lines.push(line);
        assert(strs(lines@) =~= wrapped(long_text@));
    }
    lines
}

/// The status mark shown beside a count: red where it is positive, a check mark where it is zero.
pub fn status_emoji(flag: usize) -> (r: &'static str)
    ensures
        flag > 0 ==> r == "🔴 ",
        flag == 0 ==> r == "✅ ",
{
    if flag > 0 {
        "🔴 "
    } else {
        "✅ "
    }
}

/// The final component of `file_path`, or the whole path where it has none.
pub fn get_file_name(file_path: &str) -> (r: String)
    ensures
        r@ == match path_file_name(file_path@) {
            Some(n) => n,
            None => file_path@,
        },
{
    match file_name_part(file_path) {
        Some(n) => n,
        None => {
            let v = chars_of(file_path);
            string_of_all(&v)
        },
    }
}

/// `ext` lower-cased where it names a supported language (`js`, `ts`, `tsx`, `go`),
/// in any letter case.
pub fn supported_extension(ext: &str) -> (r: Option<String>)
    ensures
        r matches Some(e) ==> e@ == lower_seq(ext@),
        r is Some <==> supported_ext(lower_seq(ext@)),
{
    let v = chars_of(ext);
    let mut low = String::new();
    let mut lv: Vec<char> = Vec::new();
    let mut i: usize = 0;
    while i < v.len()
        invariant
            i <= v@.len(),
            v@ == ext@,
            low@ == lv@,
            lv@ == lower_seq(v@.take(i as int)),
        decreases v@.len() - i,
    {
        let c = v[i];
        let d = if 'A' <= c && c <= 'Z' {
            ((c as u8) + 32) as char
        } else {
            c
        };
        push_char(&mut low, d);
        lv.push(d);
        i = i + 1;
        assert(lower_seq(v@.take(i as int)) =~= lower_seq(v@.take(i - 1)).push(ascii_lower(c)));
    }
    assert(v@.take(v@.len() as int) =~= v@);
    let ok = if lv.len() == 2 {
        (lv[0] == 'j' && lv[1] == 's') || (lv[0] == 't' && lv[1] == 's') || (lv[0] == 'g' && lv[1]
            == 'o')
    } else if lv.len() == 3 {
        lv[0] == 't' && lv[1] == 's' && lv[2] == 'x'
    } else {
        false
    };
    assert(ok == supported_ext(lv@)) by {
        if lv@.len() == 2 {
            assert(lv@ == seq![lv@[0], lv@[1]]);
        }
        if lv@.len() == 3 {
            assert(lv@ == seq![lv@[0], lv@[1], lv@[2]]);
        }
    }
    if ok {
        Some(low)
    } else {
        None
    }
}

/// The supported extension of `file_path`, lower-cased; `None` where it has
/// another one; an error where the path has no extension.
pub fn get_extension(file_path: &str) -> (r: Result<Option<String>, &'static str>)
    ensures
        match path_extension(file_path@) {
            Some(e) => r matches Ok(o) && (o is Some <==> supported_ext(lower_seq(e))) && (
            o matches Some(x) ==> x@ == lower_seq(e)),
            None => r == Err::<Option<String>, &'static str>("file path has no extension"),
        },
{
    match extension_part(file_path) {
        Some(e) => Ok(supported_extension(&e)),
        None => Err("file path has no extension"),
    }
}

/// `contents` with each hyphen removed and the character after it upper-cased
/// (`fill-rule` becomes `fillRule`).
pub fn convert_to_camel_case(contents: &str) -> (r: String)
    ensures
        r@ == camel_of(contents@),
{
    let v = chars_of(contents);
    let mut result = String::new();
    let mut should_capitalize_next = false;
    let mut i: usize = 0;
    while i < v.len()
        invariant
            i <= v@.len(),
            v@ == contents@,
            (result@, should_capitalize_next) == camel_acc(v@.take(i as int)),
        decreases v@.len() - i,
    {
        let c = v[i];
        assert(v@.take(i + 1).drop_last() =~= v@.take(i as int));
        if c == '-' {
            should_capitalize_next = true;
        } else {
            if should_capitalize_next {
                let u = if 'a' <= c && c <= 'z' {
                    ((c as u8) - 32) as char
                } else {
                    c
                };
                push_char(&mut result, u);
                should_capitalize_next = false;
            } else {
                push_char(&mut result, c);
            }
        }
        i = i + 1;
    }
    assert(v@.take(v@.len() as int) =~= v@);
    result
}

} // verus!
