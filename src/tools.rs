//! The decisions behind the tool operations offered to the calling agent:
//! reading the line argument, finding a symbol in a file's symbol list,
//! cutting a window of lines out of a file, and rendering hover text.

use crate::text::string_views;
use vstd::prelude::*;

verus! {

/// A zero-based line and character in a text document.
#[derive(Debug, Clone, Copy, PartialEq, Eq)]
pub struct Position {
    pub line: u32,
    pub character: u32,
}

/// A hover fragment: plain markdown, or a code block in a named language.
#[derive(Debug, Clone)]
pub enum MarkedString {
    String(String),
    LanguageString { language: String, value: String },
}

/// The contents of a hover answer.
#[derive(Debug, Clone)]
pub enum HoverContents {
    Scalar(MarkedString),
    Array(Vec<MarkedString>),
    Markup(String),
}

/// The best fuzzy match of `query` among `choices`, as `fuzzt` ranks them.
pub uninterp spec fn best_fuzzy_match(query: Seq<char>, choices: Seq<Seq<char>>) -> Option<Seq<char>>;

/// Relies on `fuzzt::get_top_n` with its default cutoff, processor and
/// scorer, asking for one match: the best-scoring choice at or above the
/// cutoff (ties going to the smallest text), or none. Whatever it returns is
/// one of the choices.
#[verifier::external_body]
fn top_match(query: &str, choices: &Vec<String>) -> (r: Option<String>)
    ensures
        r matches Some(m) ==> string_views(choices@).contains(m@) && best_fuzzy_match(
            query@,
            string_views(choices@),
        ) == Some(m@),
        r is None ==> best_fuzzy_match(query@, string_views(choices@)) is None,
{
    let refs: Vec<&str> = choices.iter().map(|c| c.as_str()).collect();
    fuzzt::get_top_n(query, &refs, None, Some(1), None, None).first().map(|m| m.to_string())
}

pub open spec fn marked_text(m: MarkedString) -> Seq<char> {
    match m {
        MarkedString::String(s) => s@,
        MarkedString::LanguageString { language, value } => "```"@ + language@ + "```\n"@
            + value@,
    }
}

/// Hover fragments, one per line.
pub open spec fn marked_lines(v: Seq<MarkedString>) -> Seq<char>
    decreases v.len(),
{
    if v.len() == 0 {
        Seq::empty()
    } else if v.len() == 1 {
        marked_text(v[0])
    } else {
        marked_lines(v.drop_last()) + "\n"@ + marked_text(v.last())
    }
}

pub open spec fn hover_contents_text(h: HoverContents) -> Seq<char> {
    match h {
        HoverContents::Scalar(m) => marked_text(m),
        HoverContents::Array(v) => marked_lines(v@),
        HoverContents::Markup(s) => s@,
    }
}

/// A hover fragment as markdown.
pub fn format_marked_string(m: &MarkedString) -> (r: String)
    ensures
        r@ == marked_text(*m),
{
    match m {
        MarkedString::String(s) => s.clone(),
        MarkedString::LanguageString { language, value } => {
            let mut out = String::from_str("```");
            out.append(language.as_str());
            out.append("```\n");
            out.append(value.as_str());
            out
        },
    }
}

/// The text of a hover answer: fragments one per line.
pub fn hover_text(h: &HoverContents) -> (r: String)
    ensures
        r@ == hover_contents_text(*h),
{
    match h {
        HoverContents::Scalar(m) => format_marked_string(m),
        HoverContents::Array(v) => {
            let mut out = String::new();
            let mut i: usize = 0;
            while i < v.len()
                invariant
                    i <= v@.len(),
                    out@ == marked_lines(v@.subrange(0, i as int)),
                decreases v.len() - i,
            {
                if i > 0 {
                    out.append("\n");
                }
                out.append(format_marked_string(&v[i]).as_str());
                proof {
                    let p = v@.subrange(0, i + 1);
                    assert(p.drop_last() =~= v@.subrange(0, i as int));
                    if i == 0 {
                        assert(marked_lines(v@.subrange(0, 0)) =~= Seq::<char>::empty());
                        assert(out@ =~= marked_text(p[0]));
                    }
                }
                i = i + 1;
            }
            proof {
                assert(v@.subrange(0, v@.len() as int) =~= v@);
            }
            out
        },
        HoverContents::Markup(s) => s.clone(),
    }
}

/// The zero-based line for a one-based line argument.
pub fn line_from_argument(number: Option<u64>) -> (r: Result<u64, String>)
    ensures
        number is None ==> (r matches Err(e) && e@ == "Line is required"@),
        number == Some(0u64) ==> (r matches Err(e) && e@
            == "Line number must be greater than 0 as line numbers are 1 based"@),
        (number matches Some(n) && n > 0) ==> r == Ok::<u64, String>((number->0 - 1) as u64),
{
    match number {
        None => Err(String::from_str("Line is required")),
        Some(n) => {
            if n == 0 {
                Err(String::from_str("Line number must be greater than 0 as line numbers are 1 based"))
            } else {
                Ok(n - 1)
            }
        },
    }
}

/// The low 32 bits of a line number.
pub open spec fn low_bits(line: u64) -> u32 {
    #[verifier::truncate] (line as u32)
}

/// `i` is the first symbol that starts on `line`.
pub open spec fn is_first_on_line(starts: Seq<Position>, line: u32, i: int) -> bool {
    &&& 0 <= i < starts.len()
    &&& starts[i].line == line
    &&& forall|j: int| 0 <= j < i ==> starts[j].line != line
}

/// The start of the first symbol of a file that begins on `line` (its low 32
/// bits); the start positions are those of the file's symbols, none when the
/// engine listed no symbols.
pub fn find_symbol_position_in_file(
    starts: Option<&Vec<Position>>,
    relative_file: &str,
    symbol: &str,
    line: u64,
) -> (r: Result<Position, String>)
    ensures
        starts is None ==> (r matches Err(e) && e@ == "No symbols found"@),
        starts matches Some(s) ==> (r is Ok <==> exists|i: int| #[trigger] is_first_on_line(s@, low_bits(line), i)),
        starts matches Some(s) ==> (r matches Ok(p) ==> exists|i: int| #[trigger] is_first_on_line(s@, low_bits(line), i)
            && s@[i] == p),
        starts is Some ==> (r matches Err(e) ==> e@ == "Symbol "@ + symbol@ + " not found in file "@
            + relative_file@),
{
    let s = match starts {
        None => return Err(String::from_str("No symbols found")),
        Some(s) => s,
    };
    let target = #[verifier::truncate] (line as u32);
    let mut i: usize = 0;
    while i < s.len()
        invariant
            starts == Some(s),
            i <= s@.len(),
            target == low_bits(line),
            forall|j: int| 0 <= j < i ==> s@[j].line != target,
        decreases s.len() - i,
    {
        if s[i].line == target {
            let p = Position { line: s[i].line, character: s[i].character };
            proof {
                assert(is_first_on_line(s@, low_bits(line), i as int));
                assert(starts->0@ == s@);
                assert(is_first_on_line(starts->0@, low_bits(line), i as int));
            }
            return Ok(p);
        }
        i = i + 1;
    }
    let mut e = String::from_str("Symbol ");
    e.append(symbol);
    e.append(" not found in file ");
    e.append(relative_file);
    Err(e)
}

/// Lines joined with line breaks.
pub open spec fn joined_lines(v: Seq<Seq<char>>) -> Seq<char>
    decreases v.len(),
{
    if v.len() == 0 {
        Seq::empty()
    } else if v.len() == 1 {
        v[0]
    } else {
        joined_lines(v.drop_last()) + "\n"@ + v.last()
    }
}

/// The window of lines asked for: from `start_line - prefix` (at least 0) to
/// `end_line + suffix` (saturating), the end then limited to the line count.
/// It is given only when it is non-empty and its end is a line of the file.
pub open spec fn line_window(n: int, start_line: u32, end_line: u32, prefix: u8, suffix: u8) -> Option<(int, int)> {
    let start = if start_line >= prefix {
        start_line - prefix
    } else {
        0
    };
    let end0 = if end_line + suffix > u32::MAX {
        u32::MAX as int
    } else {
        end_line + suffix
    };
    let end = if end0 > n {
        n
    } else {
        end0
    };
    if start > end || end >= n {
        None
    } else {
        Some((start, end))
    }
}

/// The lines of a file between `start_line - prefix` and `end_line + suffix`
/// (both included, zero-based), joined with line breaks; none when that
/// window does not lie within the file.
pub fn get_file_lines(lines: &Vec<String>, start_line: u32, end_line: u32, prefix: u8, suffix: u8) -> (r: Option<String>)
    requires
        lines@.len() <= u32::MAX,
    ensures
        r is None <==> line_window(lines@.len() as int, start_line, end_line, prefix, suffix) is None,
        r matches Some(text) ==> ({
            let (a, b) = line_window(lines@.len() as int, start_line, end_line, prefix, suffix)->0;
            text@ == joined_lines(string_views(lines@).subrange(a, b + 1))
        }),
{
    let n = lines.len() as u32;
    let start = start_line.saturating_sub(prefix as u32);
    let mut end = end_line.saturating_add(suffix as u32);
    if end > n {
        end = n;
    }
    if start > end || end >= n {
        return None;
    }
    let ghost views = string_views(lines@);
    let mut out = String::new();
    let mut i: usize = start as usize;
    while i <= end as usize
        invariant
            start <= i <= end + 1,
            end < lines@.len(),
            lines@.len() <= u32::MAX,
            views == string_views(lines@),
            out@ == joined_lines(views.subrange(start as int, i as int)),
        decreases end + 1 - i,
    {
        if i > start as usize {
            out.append("\n");
        }
        out.append(lines[i].as_str());
        proof {
            let p = views.subrange(start as int, i + 1);
            assert(p.drop_last() =~= views.subrange(start as int, i as int));
            if i == start {
                assert(joined_lines(views.subrange(start as int, i as int)) =~= Seq::<char>::empty());
                assert(out@ =~= p[0]);
            }
        }
        i = i + 1;
    }
    Some(out)
}

/// `v` without repeated elements, keeping first occurrences in order.
pub open spec fn first_occurrences(v: Seq<Seq<char>>) -> Seq<Seq<char>>
    decreases v.len(),
{
    if v.len() == 0 {
        Seq::empty()
    } else {
        let rest = first_occurrences(v.drop_last());
        if rest.contains(v.last()) {
            rest
        } else {
            rest.push(v.last())
        }
    }
}

/// The given locations without repeats, first occurrences kept in order.
pub fn unique_locations(urls: &Vec<String>) -> (r: Vec<String>)
    ensures
        string_views(r@) == first_occurrences(string_views(urls@)),
{
    let ghost views = string_views(urls@);
    let mut out: Vec<String> = Vec::new();
    let mut i: usize = 0;
    while i < urls.len()
        invariant
            i <= urls@.len(),
            views == string_views(urls@),
            string_views(out@) == first_occurrences(views.subrange(0, i as int)),
        decreases urls.len() - i,
    {
        let mut seen = false;
        let mut j: usize = 0;
        while j < out.len()
            invariant
                i < urls@.len(),
                j <= out@.len(),
                seen == exists|k: int| 0 <= k < j && out@[k]@ == urls@[i as int]@,
            decreases out.len() - j,
        {
            if out[j].eq(&urls[i]) {
                seen = true;
            }
            j = j + 1;
        }
        proof {
            let p = views.subrange(0, i + 1);
            assert(p.drop_last() =~= views.subrange(0, i as int));
            assert(p.last() == urls@[i as int]@);
            if seen {
                let k = choose|k: int| 0 <= k < out@.len() && out@[k]@ == urls@[i as int]@;
                assert(string_views(out@)[k] == p.last());
            } else {
                assert forall|k: int| 0 <= k < string_views(out@).len() implies string_views(out@)[k] != p.last() by {
                    assert(out@[k]@ != urls@[i as int]@);
                }
            }
        }
        if !seen {
            let u = urls[i].clone();
            let ghost before = out@;
            out.push(u);
            proof {
                assert(string_views(out@) =~= string_views(before).push(u@));
            }
        }
        i = i + 1;
    }
    proof {
        assert(views.subrange(0, urls@.len() as int) =~= views);
    }
    out
}

/// `i` is the last symbol named `name`.
pub open spec fn is_last_named(symbols: Seq<(String, Position)>, name: Seq<char>, i: int) -> bool {
    &&& 0 <= i < symbols.len()
    &&& symbols[i].0@ == name
    &&& forall|j: int| i < j < symbols.len() ==> symbols[j].0@ != name
}

/// The start of the last symbol named `matched`, the name chosen by the fuzzy
/// matcher; an error when there is no match.
pub fn position_of_match(matched: Option<String>, symbols: &Vec<(String, Position)>) -> (r: Result<Position, String>)
    ensures
        r is Ok <==> (matched matches Some(m) && exists|i: int| #[trigger] is_last_named(symbols@, m@, i)),
        r matches Ok(p) ==> exists|i: int| #[trigger] is_last_named(symbols@, matched->0@, i) && symbols@[i].1 == p,
        r matches Err(e) ==> e@ == "No match for symbol found"@,
{
    let m = match matched {
        None => return Err(String::from_str("No match for symbol found")),
        Some(m) => m,
    };
    let ghost name = m@;
    proof {
        assert(matched->0@ == name);
    }
    let mut i: usize = symbols.len();
    while i > 0
        invariant
            matched == Some(m),
            i <= symbols@.len(),
            name == m@,
            forall|j: int| i <= j < symbols@.len() ==> symbols@[j].0@ != m@,
        decreases i,
    {
        i = i - 1;
        if symbols[i].0.eq(&m) {
            let p = Position { line: symbols[i].1.line, character: symbols[i].1.character };
            proof {
                assert(is_last_named(symbols@, m@, i as int));
                assert(is_last_named(symbols@, matched->0@, i as int));
                assert(symbols@[i as int].1 == p);
            }
            return Ok(p);
        }
    }
    Err(String::from_str("No match for symbol found"))
}

/// The names of the symbols, in order.
pub open spec fn symbol_name_views(symbols: Seq<(String, Position)>) -> Seq<Seq<char>> {
    symbols.map_values(|e: (String, Position)| e.0@)
}

proof fn lemma_first_occurrences_within(v: Seq<Seq<char>>, x: Seq<char>)
    requires
        first_occurrences(v).contains(x),
    ensures
        v.contains(x),
    decreases v.len(),
{
    if v.len() > 0 {
        let rest = first_occurrences(v.drop_last());
        if rest.contains(x) {
            lemma_first_occurrences_within(v.drop_last(), x);
            let k = choose|k: int| 0 <= k < v.drop_last().len() && v.drop_last()[k] == x;
            assert(v[k] == x);
        } else {
            assert(x == v.last());
            assert(v[v.len() - 1] == x);
        }
    }
}

proof fn lemma_last_named_exists(symbols: Seq<(String, Position)>, m: Seq<char>, k: int)
    requires
        0 <= k < symbols.len(),
        symbols[k].0@ == m,
    ensures
        exists|i: int| #[trigger] is_last_named(symbols, m, i),
    decreases symbols.len() - k,
{
    if exists|q: int| k < q < symbols.len() && symbols[q].0@ == m {
        let q = choose|q: int| k < q < symbols.len() && symbols[q].0@ == m;
        lemma_last_named_exists(symbols, m, q);
    } else {
        assert(is_last_named(symbols, m, k));
    }
}

/// The names of the symbols, each once, in order of first appearance.
pub fn symbol_names(symbols: &Vec<(String, Position)>) -> (r: Vec<String>)
    ensures
        string_views(r@) == first_occurrences(symbol_name_views(symbols@)),
{
    let mut all: Vec<String> = Vec::new();
    let mut i: usize = 0;
    while i < symbols.len()
        invariant
            i <= symbols@.len(),
            string_views(all@) == symbol_name_views(symbols@).subrange(0, i as int),
        decreases symbols.len() - i,
    {
        let ghost before = all@;
        let n = symbols[i].0.clone();
        all.push(n);
        proof {
            assert(string_views(all@) =~= string_views(before).push(n@));
            assert(string_views(all@) =~= symbol_name_views(symbols@).subrange(0, i + 1));
        }
        i = i + 1;
    }
    proof {
        assert(symbol_name_views(symbols@).subrange(0, symbols@.len() as int) =~= symbol_name_views(symbols@));
    }
    unique_locations(&all)
}

/// The start of the file symbol that best matches `query` by name, among
/// the symbols' names in order of first appearance; when several symbols
/// share that name, the last of them.
pub fn resolve_symbol(query: &str, symbols: &Vec<(String, Position)>) -> (r: Result<Position, String>)
    ensures
        r is Ok <==> best_fuzzy_match(query@, first_occurrences(symbol_name_views(symbols@))) is Some,
        r matches Ok(p) ==> exists|i: int| #[trigger] is_last_named(
            symbols@,
            best_fuzzy_match(query@, first_occurrences(symbol_name_views(symbols@)))->0,
            i,
        ) && symbols@[i].1 == p,
        r matches Err(e) ==> e@ == "No match for symbol found"@,
{
    let names = symbol_names(symbols);
    let matched = top_match(query, &names);
    proof {
        if matched is Some {
            let m = matched->0@;
            let v = symbol_name_views(symbols@);
            lemma_first_occurrences_within(v, m);
            let k = choose|k: int| 0 <= k < v.len() && v[k] == m;
            assert(symbols@[k].0@ == m);
            lemma_last_named_exists(symbols@, m, k);
        }
    }
    let ghost best = best_fuzzy_match(query@, first_occurrences(symbol_name_views(symbols@)));
    let r = position_of_match(matched, symbols);
    proof {
        if r is Ok {
            assert(best == Some(matched->0@));
            let i = choose|i: int| #[trigger] is_last_named(symbols@, matched->0@, i) && symbols@[i].1 == r->Ok_0;
            assert(is_last_named(symbols@, best->0, i));
        }
    }
    r
}


/// A file's text under a heading with its path, as a fenced Rust block.
pub open spec fn definition_block(path: Seq<char>, content: Seq<char>) -> Seq<char> {
    "## "@ + path + "\n``` rust\n"@ + content + "\n```"@
}

/// The definition blocks of several files, separated by line breaks.
pub open spec fn definition_listing(v: Seq<(String, String)>) -> Seq<char>
    decreases v.len(),
{
    if v.len() == 0 {
        Seq::empty()
    } else if v.len() == 1 {
        definition_block(v[0].0@, v[0].1@)
    } else {
        definition_listing(v.drop_last()) + "\n"@ + definition_block(v.last().0@, v.last().1@)
    }
}

/// A usage preview under a heading with its location.
pub open spec fn reference_block(location: Seq<char>, lines: Seq<char>) -> Seq<char> {
    "## "@ + location + "\n```\n"@ + lines + "\n```\n"@
}

pub open spec fn reference_listing(v: Seq<(String, String)>) -> Seq<char>
    decreases v.len(),
{
    if v.len() == 0 {
        Seq::empty()
    } else {
        reference_listing(v.drop_last()) + reference_block(v.last().0@, v.last().1@)
    }
}

/// The text of the files that define a symbol's type, given as (path, contents).
pub fn format_definitions(files: &Vec<(String, String)>) -> (r: String)
    ensures
        r@ == definition_listing(files@),
{
    let mut out = String::new();
    let mut i: usize = 0;
    while i < files.len()
        invariant
            i <= files@.len(),
            out@ == definition_listing(files@.subrange(0, i as int)),
        decreases files.len() - i,
    {
        if i > 0 {
            out.append("\n");
        }
        out.append("## ");
        out.append(files[i].0.as_str());
        out.append("\n``` rust\n");
        out.append(files[i].1.as_str());
        out.append("\n```");
        proof {
            let p = files@.subrange(0, i + 1);
            assert(p.drop_last() =~= files@.subrange(0, i as int));
            if i == 0 {
                assert(definition_listing(files@.subrange(0, 0)) =~= Seq::<char>::empty());
            }
            assert(out@ =~= definition_listing(p));
        }
        i = i + 1;
    }
    proof {
        assert(files@.subrange(0, files@.len() as int) =~= files@);
    }
    out
}

/// Usage previews of a symbol, given as (location, lines around the usage).
pub fn format_references(previews: &Vec<(String, String)>) -> (r: String)
    ensures
        r@ == reference_listing(previews@),
{
    let mut out = String::new();
    let mut i: usize = 0;
    while i < previews.len()
        invariant
            i <= previews@.len(),
            out@ == reference_listing(previews@.subrange(0, i as int)),
        decreases previews.len() - i,
    {
        out.append("## ");
        out.append(previews[i].0.as_str());
        out.append("\n```\n");
        out.append(previews[i].1.as_str());
        out.append("\n```\n");
        proof {
            let p = previews@.subrange(0, i + 1);
            assert(p.drop_last() =~= previews@.subrange(0, i as int));
            assert(out@ =~= reference_listing(p));
        }
        i = i + 1;
    }
    proof {
        assert(previews@.subrange(0, previews@.len() as int) =~= previews@);
    }
    out
}
} // verus!
