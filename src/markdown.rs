//! Turning a generated documentation page into readable markdown: the page
//! is stripped of its head and scripts, converted, cut down to the part after
//! the crate header, and cleaned of links, tags and escapes.

use crate::session::is_space;
use crate::text::{ends_with_text, replace_char, replace_char_text, str_eq, string_views};
use vstd::prelude::*;
use vstd::string::StrSliceExecFns;

verus! {

/// What `regex::Regex::replace` gives for `pattern` on `text` with the
/// replacement `replacement`; `text` itself when `pattern` is not a valid
/// expression.
pub uninterp spec fn regex_replaced_first(pattern: Seq<char>, replacement: Seq<char>, text: Seq<char>) -> Seq<char>;

/// What `regex::Regex::replace_all` gives for `pattern` on `text` with the
/// replacement `replacement`; `text` itself when `pattern` is not a valid
/// expression.
pub uninterp spec fn regex_replaced_all(pattern: Seq<char>, replacement: Seq<char>, text: Seq<char>) -> Seq<char>;

/// What `html2md::parse_html` gives for `html`.
pub uninterp spec fn markdown_of_html(html: Seq<char>) -> Seq<char>;

/// What `serde_json` reads from `line` under `key`: none unless the line is
/// JSON with that key; then the text of a string value, or none for another value.
pub uninterp spec fn json_field(line: Seq<char>, key: Seq<char>) -> Option<Option<Seq<char>>>;

/// Relies on `regex::Regex::new` and `Regex::replace`: the first match of
/// `pattern` in `text` replaced by `replacement` (where `${1}` stands for the
/// first capture group).
#[verifier::external_body]
fn replace_first(pattern: &str, replacement: &str, text: &str) -> (r: String)
    ensures
        r@ == regex_replaced_first(pattern@, replacement@, text@),
{
    match regex::Regex::new(pattern) {
        Ok(re) => re.replace(text, replacement).to_string(),
        Err(_) => text.to_string(),
    }
}

/// Relies on `regex::Regex::new` and `Regex::replace_all`: every match of
/// `pattern` in `text` replaced by `replacement` (where `${1}` stands for the
/// first capture group).
#[verifier::external_body]
fn replace_all(pattern: &str, replacement: &str, text: &str) -> (r: String)
    ensures
        r@ == regex_replaced_all(pattern@, replacement@, text@),
{
    match regex::Regex::new(pattern) {
        Ok(re) => re.replace_all(text, replacement).to_string(),
        Err(_) => text.to_string(),
    }
}

/// Relies on `html2md::parse_html`: the markdown form of an HTML text.
#[verifier::external_body]
fn html_to_markdown(html: &str) -> (r: String)
    ensures
        r@ == markdown_of_html(html@),
{
    html2md::parse_html(html)
}

/// Relies on `serde_json::from_str` into a `Value`, `Value::get` and
/// `Value::as_str`: the string under `key` of the JSON object in `line`.
#[verifier::external_body]
fn json_string_field(line: &str, key: &str) -> (r: Option<Option<String>>)
    ensures
        r matches Some(Some(s)) ==> json_field(line@, key@) == Some(Some(s@)),
        r == Some(None::<String>) ==> json_field(line@, key@) == Some(None::<Seq<char>>),
        r is None ==> json_field(line@, key@) is None,
{
    let value: serde_json::Value = serde_json::from_str(line).ok()?;
    value.get(key).map(|v| v.as_str().map(|s| s.to_string()))
}

/// The pieces of `s` between line feeds (one piece for a text without any).
pub open spec fn split_feeds(s: Seq<char>) -> Seq<Seq<char>>
    decreases s.len(),
{
    if s.len() == 0 {
        seq![Seq::empty()]
    } else {
        let p = split_feeds(s.drop_last());
        if s.last() == '\n' {
            p.push(Seq::empty())
        } else {
            p.update(p.len() - 1, p.last().push(s.last()))
        }
    }
}

/// A line without its trailing carriage return.
pub open spec fn strip_cr(l: Seq<char>) -> Seq<char> {
    if l.len() > 0 && l.last() == '\r' {
        l.drop_last()
    } else {
        l
    }
}

/// The lines of a text, as `str::lines` gives them: split at line feeds,
/// a carriage return dropped before each line feed, and no final empty line.
pub open spec fn lines_of(s: Seq<char>) -> Seq<Seq<char>> {
    let p = split_feeds(s);
    let ended = p.drop_last().map_values(|l: Seq<char>| strip_cr(l));
    if s.len() == 0 || s.last() == '\n' {
        ended
    } else {
        ended.push(p.last())
    }
}

proof fn lemma_split_feeds_nonempty(s: Seq<char>)
    ensures
        split_feeds(s).len() >= 1,
    decreases s.len(),
{
    if s.len() > 0 {
        lemma_split_feeds_nonempty(s.drop_last());
    }
}

/// The lines of a text.
pub fn split_lines(s: &str) -> (r: Vec<String>)
    ensures
        string_views(r@) == lines_of(s@),
{
    let n = s.unicode_len();
    let mut done: Vec<String> = Vec::new();
    let mut current = String::new();
    let mut i: usize = 0;
    while i < n
        invariant
            n == s@.len(),
            i <= n,
            string_views(done@).push(current@) == split_feeds(s@.subrange(0, i as int)),
        decreases n - i,
    {
        let c = s.get_char(i);
        proof {
            let t = s@.subrange(0, i + 1);
            assert(t.drop_last() =~= s@.subrange(0, i as int));
            assert(t.last() == c);
        }
        if c == '\n' {
            let ghost before = done@;
            let finished = current;
            done.push(finished);
            current = String::new();
            proof {
                assert(string_views(done@) =~= string_views(before).push(finished@));
                assert(string_views(done@).push(current@) =~= split_feeds(s@.subrange(0, i + 1)));
            }
        } else {
            let ghost before = current@;
            current.append(s.substring_char(i, i + 1));
            proof {
                assert(s@.subrange(i as int, i + 1) =~= seq![c]);
                assert(current@ =~= before.push(c));
                let p = split_feeds(s@.subrange(0, i as int));
                assert(p.last() == before);
                assert(p.len() - 1 == done@.len());
                assert(string_views(done@).push(current@) =~= p.update(p.len() - 1, p.last().push(c)));
            }
        }
        i = i + 1;
    }
    proof {
        assert(s@.subrange(0, n as int) =~= s@);
        lemma_split_feeds_nonempty(s@);
        assert(string_views(done@) =~= split_feeds(s@).drop_last());
    }
    let ghost kept = string_views(done@);
    let mut out: Vec<String> = Vec::new();
    let mut j: usize = 0;
    while j < done.len()
        invariant
            j <= done@.len(),
            kept == string_views(done@),
            string_views(out@) == kept.subrange(0, j as int).map_values(|l: Seq<char>| strip_cr(l)),
        decreases done.len() - j,
    {
        let line = &done[j];
        let m = line.as_str().unicode_len();
        let stripped = if ends_with_text(line.as_str(), "\r") {
            proof {
                reveal_strlit("\r");
                assert(line@.subrange(line@.len() - 1, line@.len() as int) =~= seq![line@.last()]);
                assert(seq![line@.last()][0] == "\r"@[0]);
            }
            String::from_str(line.as_str().substring_char(0, m - 1))
        } else {
            proof {
                reveal_strlit("\r");
                if line@.len() > 0 && line@.last() == '\r' {
                    assert(line@.subrange(line@.len() - 1, line@.len() as int) =~= "\r"@);
                }
            }
            line.clone()
        };
        let ghost before = out@;
        out.push(stripped);
        proof {
            assert(string_views(out@) =~= string_views(before).push(strip_cr(kept[j as int])));
            assert(string_views(out@) =~= kept.subrange(0, j + 1).map_values(|l: Seq<char>| strip_cr(l)));
        }
        j = j + 1;
    }
    proof {
        assert(kept.subrange(0, done@.len() as int) =~= kept);
    }
    let ends_open = n > 0 && s.get_char(n - 1) != '\n';
    if ends_open {
        let ghost before = out@;
        let last = current;
        out.push(last);
        proof {
            assert(string_views(out@) =~= string_views(before).push(last@));
        }
    }
    out
}

/// Lines joined with line feeds.
pub open spec fn join_feeds(v: Seq<Seq<char>>) -> Seq<char>
    decreases v.len(),
{
    if v.len() == 0 {
        Seq::empty()
    } else if v.len() == 1 {
        v[0]
    } else {
        join_feeds(v.drop_last()) + "\n"@ + v.last()
    }
}

/// Joins lines with line feeds.
pub fn join_lines(v: &Vec<String>) -> (r: String)
    ensures
        r@ == join_feeds(string_views(v@)),
{
    let ghost views = string_views(v@);
    let mut out = String::new();
    let mut i: usize = 0;
    while i < v.len()
        invariant
            i <= v@.len(),
            views == string_views(v@),
            out@ == join_feeds(views.subrange(0, i as int)),
        decreases v.len() - i,
    {
        if i > 0 {
            out.append("\n");
        }
        out.append(v[i].as_str());
        proof {
            let p = views.subrange(0, i + 1);
            assert(p.drop_last() =~= views.subrange(0, i as int));
            if i == 0 {
                assert(join_feeds(views.subrange(0, 0)) =~= Seq::<char>::empty());
                assert(out@ =~= p[0]);
            }
        }
        i = i + 1;
    }
    proof {
        assert(views.subrange(0, v@.len() as int) =~= views);
    }
    out
}

/// Whether `s` starts with `prefix`.
pub fn starts_with_text(s: &str, prefix: &str) -> (r: bool)
    ensures
        r == (prefix@.len() <= s@.len() && s@.subrange(0, prefix@.len() as int) == prefix@),
{
    let n = s.unicode_len();
    let m = prefix.unicode_len();
    if m > n {
        return false;
    }
    str_eq(s.substring_char(0, m), prefix)
}

/// `sub` occurs in `s`.
pub open spec fn contains_text(s: Seq<char>, sub: Seq<char>) -> bool {
    exists|i: int| 0 <= i && i + sub.len() <= s.len() && #[trigger] s.subrange(i, i + sub.len()) == sub
}

/// Whether `sub` occurs in `s`.
pub fn find_text(s: &str, sub: &str) -> (r: bool)
    ensures
        r == contains_text(s@, sub@),
{
    let n = s.unicode_len();
    let m = sub.unicode_len();
    if m == 0 {
        proof {
            assert(s@.subrange(0, 0 + sub@.len() as int) =~= sub@);
        }
        return true;
    }
    if m > n {
        proof {
            assert forall|i: int| 0 <= i && i + sub@.len() <= s@.len() implies #[trigger] s@.subrange(i, i + sub@.len()) != sub@ by {}
        }
        return false;
    }
    let mut i: usize = 0;
    while i <= n - m
        invariant
            n == s@.len(),
            m == sub@.len(),
            1 <= m <= n,
            i <= n - m + 1,
            forall|k: int| 0 <= k < i ==> #[trigger] s@.subrange(k, k + m) != sub@,
        decreases n - m + 1 - i,
    {
        if str_eq(s.substring_char(i, i + m), sub) {
            proof {
                assert(s@.subrange(i as int, i + sub@.len()) == sub@);
            }
            return true;
        }
        i = i + 1;
    }
    proof {
        assert forall|k: int| 0 <= k && k + sub@.len() <= s@.len() implies #[trigger] s@.subrange(k, k + sub@.len()) != sub@ by {
            assert(k < i);
        }
    }
    false
}

/// A line kept as is when it is a comment, else without backslashes.
pub open spec fn unescaped_line(l: Seq<char>) -> Seq<char> {
    if 2 <= l.len() && l.subrange(0, 2) == "//"@ {
        l
    } else {
        replace_char(l, '\\', Seq::empty())
    }
}

/// Removes every backslash, except on lines that start with `//`; lines are
/// rejoined with line feeds.
pub fn remove_backslashes(input: &str) -> (r: String)
    ensures
        r@ == join_feeds(lines_of(input@).map_values(|l: Seq<char>| unescaped_line(l))),
{
    let lines = split_lines(input);
    let ghost views = string_views(lines@);
    let mut out: Vec<String> = Vec::new();
    let mut i: usize = 0;
    while i < lines.len()
        invariant
            i <= lines@.len(),
            views == string_views(lines@),
            string_views(out@) == views.subrange(0, i as int).map_values(|l: Seq<char>| unescaped_line(l)),
        decreases lines.len() - i,
    {
        let line = lines[i].as_str();
        proof {
            reveal_strlit("//");
            assert(line@ == views[i as int]);
        }
        let cleaned = if starts_with_text(line, "//") {
            String::from_str(line)
        } else {
            replace_char_text(line, '\\', "")
        };
        proof {
            reveal_strlit("");
            assert(""@ =~= Seq::<char>::empty());
        }
        let ghost before = out@;
        out.push(cleaned);
        proof {
            assert(string_views(out@) =~= string_views(before).push(unescaped_line(views[i as int])));
            assert(string_views(out@) =~= views.subrange(0, i + 1).map_values(|l: Seq<char>| unescaped_line(l)));
        }
        i = i + 1;
    }
    proof {
        assert(views.subrange(0, lines@.len() as int) =~= views);
    }
    join_lines(&out)
}


/// A line that holds nothing but white space.
pub open spec fn is_blank_line(l: Seq<char>) -> bool {
    forall|i: int| 0 <= i < l.len() ==> is_space(#[trigger] l[i])
}

/// The lines that are not blank, in order.
pub open spec fn nonblank(v: Seq<Seq<char>>) -> Seq<Seq<char>>
    decreases v.len(),
{
    if v.len() == 0 {
        Seq::empty()
    } else if is_blank_line(v.last()) {
        nonblank(v.drop_last())
    } else {
        nonblank(v.drop_last()).push(v.last())
    }
}

pub open spec fn docs_marker() -> Seq<char> {
    "Docs.rs"@
}

pub open spec fn frame_marker() -> Seq<char> {
    "<iframe src=\"/-/storage-change-detection.html\" width=\"0\" height=\"0\" style=\"display: none\">"@
}

/// The first line at or after `i` that holds the crate header marker (true)
/// or the page frame marker (false); the header marker wins on one line.
pub open spec fn first_marker(f: Seq<Seq<char>>, i: int) -> Option<(int, bool)>
    decreases f.len() - i,
{
    if i < 0 || i >= f.len() {
        None
    } else if contains_text(f[i], docs_marker()) {
        Some((i, true))
    } else if contains_text(f[i], frame_marker()) {
        Some((i, false))
    } else {
        first_marker(f, i + 1)
    }
}

/// The crate name and version that a JSON line names; empty unless it has both keys.
pub open spec fn package_id(line: Seq<char>) -> (Seq<char>, Seq<char>) {
    match (json_field(line, "name"@), json_field(line, "version"@)) {
        (Some(n), Some(v)) => (
            match n {
                Some(t) => t,
                None => Seq::empty(),
            },
            match v {
                Some(t) => t,
                None => Seq::empty(),
            },
        ),
        _ => (Seq::empty(), Seq::empty()),
    }
}

/// A line that shows the crate's name as a link and its version.
pub open spec fn is_header_line(l: Seq<char>, name: Seq<char>, version: Seq<char>) -> bool {
    contains_text(l, "["@ + name + "]("@) && contains_text(l, " "@ + version)
}

/// The position after the first header line at or after `j`, or the end.
pub open spec fn header_end(f: Seq<Seq<char>>, j: int, name: Seq<char>, version: Seq<char>) -> int
    decreases f.len() - j,
{
    if j < 0 || j >= f.len() {
        f.len() as int
    } else if is_header_line(f[j], name, version) {
        j + 1
    } else {
        header_end(f, j + 1, name, version)
    }
}

/// The lines from `j` on, unless at most one is left: then the lines read so far.
pub open spec fn rest_or_read(f: Seq<Seq<char>>, j: int, read: Seq<Seq<char>>) -> Seq<char> {
    if f.len() - j <= 1 {
        join_feeds(read)
    } else {
        join_feeds(f.subrange(j, f.len() as int))
    }
}

/// The part of a converted page after its crate header, over its non-blank lines `f`.
pub open spec fn after_package_lines(f: Seq<Seq<char>>) -> Seq<char> {
    match first_marker(f, 0) {
        None => join_feeds(f),
        Some((i, false)) => join_feeds(f.subrange(i + 1, f.len() as int)),
        Some((i, true)) => {
            let has_id = i + 1 < f.len();
            let id = if has_id {
                package_id(f[i + 1])
            } else {
                (Seq::empty(), Seq::empty())
            };
            let j0 = if has_id {
                i + 2
            } else {
                i + 1
            };
            let read = f.subrange(0, i + 1);
            if id.0.len() > 0 && id.1.len() > 0 {
                let j = header_end(f, j0, id.0, id.1);
                rest_or_read(f, j, read + f.subrange(j0, j))
            } else {
                rest_or_read(f, j0, read)
            }
        },
    }
}

fn nonblank_lines(input: &str) -> (r: Vec<String>)
    ensures
        string_views(r@) == nonblank(lines_of(input@)),
{
    let lines = split_lines(input);
    let ghost views = string_views(lines@);
    let mut out: Vec<String> = Vec::new();
    let mut i: usize = 0;
    while i < lines.len()
        invariant
            i <= lines@.len(),
            views == string_views(lines@),
            string_views(out@) == nonblank(views.subrange(0, i as int)),
        decreases lines.len() - i,
    {
        proof {
            assert(views.subrange(0, i + 1).drop_last() =~= views.subrange(0, i as int));
            assert(lines@[i as int]@ == views[i as int]);
        }
        if !crate::context::is_blank(lines[i].as_str()) {
            let ghost before = out@;
            out.push(lines[i].clone());
            proof {
                assert(string_views(out@) =~= string_views(before).push(views[i as int]));
            }
        }
        i = i + 1;
    }
    proof {
        assert(views.subrange(0, lines@.len() as int) =~= views);
    }
    out
}

fn copy_range(f: &Vec<String>, from: usize, to: usize, out: &mut Vec<String>)
    requires
        from <= to <= f@.len(),
    ensures
        string_views(final(out)@) == string_views(old(out)@) + string_views(f@).subrange(from as int, to as int),
{
    let mut k: usize = from;
    while k < to
        invariant
            from <= k <= to,
            to <= f@.len(),
            string_views(out@) == string_views(old(out)@) + string_views(f@).subrange(from as int, k as int),
        decreases to - k,
    {
        let ghost before = out@;
        out.push(f[k].clone());
        proof {
            assert(string_views(out@) =~= string_views(before).push(f@[k as int]@));
            assert(string_views(out@) =~= string_views(old(out)@) + string_views(f@).subrange(from as int, k + 1));
        }
        k = k + 1;
    }
}

fn rest_or_read_text(f: &Vec<String>, j: usize, read: &Vec<String>) -> (r: String)
    requires
        j <= f@.len(),
    ensures
        r@ == rest_or_read(string_views(f@), j as int, string_views(read@)),
{
    if f.len() - j <= 1 {
        join_lines(read)
    } else {
        let mut rest: Vec<String> = Vec::new();
        copy_range(f, j, f.len(), &mut rest);
        proof {
            assert(string_views(rest@) =~= string_views(f@).subrange(j as int, f@.len() as int));
        }
        join_lines(&rest)
    }
}

/// The text of a converted page after the crate header that follows the
/// `Docs.rs` line (or after the page frame marker), over its non-blank lines.
pub fn extract_lines_after_package(input: &str) -> (r: String)
    ensures
        r@ == after_package_lines(nonblank(lines_of(input@))),
{
    let f = nonblank_lines(input);
    let ghost fv = string_views(f@);
    let n = f.len();
    let mut i: usize = 0;
    let mut found: Option<(usize, bool)> = None;
    while i < n && found.is_none()
        invariant
            n == f@.len(),
            i <= n,
            fv == string_views(f@),
            found is None ==> first_marker(fv, 0) == first_marker(fv, i as int),
            found matches Some((k, d)) ==> k < n && first_marker(fv, 0) == Some((k as int, d)),
        decreases n - i + (if found is None { 1int } else { 0int }),
    {
        proof {
            assert(f@[i as int]@ == fv[i as int]);
        }
        if find_text(f[i].as_str(), "Docs.rs") {
            found = Some((i, true));
        } else if find_text(
            f[i].as_str(),
            "<iframe src=\"/-/storage-change-detection.html\" width=\"0\" height=\"0\" style=\"display: none\">",
        ) {
            found = Some((i, false));
        } else {
            i = i + 1;
        }
    }
    proof {
        if found is None {
            assert(first_marker(fv, n as int) is None);
        }
    }
    match found {
        None => {
            proof {
                assert(fv =~= string_views(f@));
            }
            join_lines(&f)
        },
        Some((i, false)) => {
            let mut rest: Vec<String> = Vec::new();
            copy_range(&f, i + 1, n, &mut rest);
            proof {
                assert(string_views(rest@) =~= fv.subrange(i + 1, n as int));
            }
            join_lines(&rest)
        },
        Some((i, true)) => {
            let has_id = i + 1 < n;
            let mut name = String::new();
            let mut version = String::new();
            if has_id {
                let line = f[i + 1].as_str();
                match (json_string_field(line, "name"), json_string_field(line, "version")) {
                    (Some(nv), Some(vv)) => {
                        name = match nv {
                            Some(t) => t,
                            None => String::new(),
                        };
                        version = match vv {
                            Some(t) => t,
                            None => String::new(),
                        };
                    },
                    _ => {},
                }
            }
            proof {
                if has_id {
                    assert(f@[i + 1]@ == fv[i + 1]);
                }
                let id = if has_id {
                    package_id(fv[i + 1])
                } else {
                    (Seq::<char>::empty(), Seq::<char>::empty())
                };
                assert(name@ == id.0 && version@ == id.1);
            }
            let j0: usize = if has_id {
                i + 2
            } else {
                i + 1
            };
            let mut read: Vec<String> = Vec::new();
            copy_range(&f, 0, i + 1, &mut read);
            proof {
                assert(string_views(read@) =~= fv.subrange(0, i + 1));
            }
            if name.as_str().unicode_len() > 0 && version.as_str().unicode_len() > 0 {
                let mut link = String::from_str("[");
                link.append(name.as_str());
                link.append("](");
                let mut tail = String::from_str(" ");
                tail.append(version.as_str());
                let mut j: usize = j0;
                let mut end: usize = n;
                let mut matched = false;
                while j < n && !matched
                    invariant
                        n == f@.len(),
                        j0 <= j <= n,
                        fv == string_views(f@),
                        link@ == "["@ + name@ + "]("@,
                        tail@ == " "@ + version@,
                        !matched ==> end == n && header_end(fv, j0 as int, name@, version@) == header_end(fv, j as int, name@, version@),
                        matched ==> j0 < end <= n && header_end(fv, j0 as int, name@, version@) == end,
                    decreases n - j + (if matched { 0int } else { 1int }),
                {
                    proof {
                        assert(f@[j as int]@ == fv[j as int]);
                    }
                    if find_text(f[j].as_str(), link.as_str()) && find_text(f[j].as_str(), tail.as_str()) {
                        end = j + 1;
                        matched = true;
                    } else {
                        j = j + 1;
                    }
                }
                proof {
                    if !matched {
                        assert(header_end(fv, j as int, name@, version@) == n);
                    }
                }
                copy_range(&f, j0, end, &mut read);
                rest_or_read_text(&f, end, &read)
            } else {
                rest_or_read_text(&f, j0, &read)
            }
        },
    }
}

/// The text without `details`, `summary` and `a` tags.
pub open spec fn tags_removed(text: Seq<char>) -> Seq<char> {
    let a = regex_replaced_all("<details[^>]*>"@, ""@, text);
    let b = regex_replaced_all("<summary[^>]*>"@, ""@, a);
    let c = regex_replaced_all("<a[^>]*>"@, ""@, b);
    regex_replaced_all("</?details>|</?summary>|</?a>"@, ""@, c)
}

/// The text without `details`, `summary` and `a` tags.
pub fn remove_tags(input: &str) -> (r: String)
    ensures
        r@ == tags_removed(input@),
{
    let a = replace_all("<details[^>]*>", "", input);
    let b = replace_all("<summary[^>]*>", "", a.as_str());
    let c = replace_all("<a[^>]*>", "", b.as_str());
    replace_all("</?details>|</?summary>|</?a>", "", c.as_str())
}

/// The text with each markdown link replaced by its label.
pub open spec fn links_unwrapped(text: Seq<char>) -> Seq<char> {
    regex_replaced_all("\\[([^\\[\\]]+)\\]\\(([^)]+)\\)"@, "${1}"@, text)
}

/// The text with each markdown link replaced by its label.
pub fn remove_markdown_links(input: &str) -> (r: String)
    ensures
        r@ == links_unwrapped(input@),
{
    replace_all("\\[([^\\[\\]]+)\\]\\(([^)]+)\\)", "${1}", input)
}

/// The readable text of a generated documentation page.
pub open spec fn page_markdown(html: Seq<char>) -> Seq<char> {
    let without_head = regex_replaced_first("<head>.*?</head>"@, ""@, html);
    let without_scripts = regex_replaced_first("<script[^>]*>.*?</script>"@, ""@, without_head);
    let md = markdown_of_html(without_scripts);
    let body = after_package_lines(nonblank(lines_of(md)));
    join_feeds(lines_of(tags_removed(links_unwrapped(body))).map_values(|l: Seq<char>| unescaped_line(l)))
}

/// The readable text of a generated documentation page: without head and
/// scripts, converted to markdown, cut to the part after the crate header,
/// with links reduced to their labels, tags removed and backslashes dropped.
pub fn extract_md(html: &str) -> (r: String)
    ensures
        r@ == page_markdown(html@),
{
    let without_head = replace_first("<head>.*?</head>", "", html);
    let without_scripts = replace_first("<script[^>]*>.*?</script>", "", without_head.as_str());
    let md = html_to_markdown(without_scripts.as_str());
    let body = extract_lines_after_package(md.as_str());
    let unlinked = remove_markdown_links(body.as_str());
    let untagged = remove_tags(unlinked.as_str());
    remove_backslashes(untagged.as_str())
}

} // verus!
