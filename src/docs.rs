//! The documentation index of a project: dependency names, their symbols and
//! the extracted text of each symbol's page, and the rules that decide which
//! documentation pages are indexed.

use crate::path::{is_ancestor_or_self, relative_text, relative_to_text, ProjectPath};
use crate::text::{ends_with_text, find_char, first_index_from, str_eq, string_views};
use vstd::prelude::*;
use vstd::string::StrSliceExecFns;

verus! {

/// An event of a project's documentation indexing.
#[derive(Debug, Clone)]
pub enum DocsNotification {
    Indexing { project: ProjectPath, is_indexing: bool },
}

/// An item that a generated documentation page describes.
#[derive(Debug, PartialEq)]
pub enum RustSymbol<'a> {
    Function(&'a str),
    Macro(&'a str),
    Struct(&'a str),
    Trait(&'a str),
    Type(&'a str),
    Enum(&'a str),
}

/// The word that names the kind of a symbol in page names and in text.
pub open spec fn kind_word(sym: RustSymbol) -> Seq<char> {
    match sym {
        RustSymbol::Function(_) => "fn"@,
        RustSymbol::Macro(_) => "macro"@,
        RustSymbol::Struct(_) => "struct"@,
        RustSymbol::Trait(_) => "trait"@,
        RustSymbol::Type(_) => "type"@,
        RustSymbol::Enum(_) => "enum"@,
    }
}

/// The name a symbol carries.
pub open spec fn symbol_name(sym: RustSymbol) -> Seq<char> {
    match sym {
        RustSymbol::Function(n) => n@,
        RustSymbol::Macro(n) => n@,
        RustSymbol::Struct(n) => n@,
        RustSymbol::Trait(n) => n@,
        RustSymbol::Type(n) => n@,
        RustSymbol::Enum(n) => n@,
    }
}

pub open spec fn is_kind_word(k: Seq<char>) -> bool {
    k == "fn"@ || k == "macro"@ || k == "struct"@ || k == "trait"@ || k == "type"@ || k == "enum"@
}

/// `s` without a trailing `.html`.
pub open spec fn strip_html(s: Seq<char>) -> Seq<char> {
    if 5 <= s.len() && s.subrange(s.len() - 5, s.len() as int) == ".html"@ {
        s.subrange(0, s.len() - 5)
    } else {
        s
    }
}

/// `s` without a trailing `!`.
pub open spec fn strip_bang(s: Seq<char>) -> Seq<char> {
    if 1 <= s.len() && s.last() == '!' {
        s.drop_last()
    } else {
        s
    }
}

/// The kind part of a page name: the text before its first dot.
pub open spec fn page_kind(s: Seq<char>) -> Seq<char> {
    s.subrange(0, first_index_from(s, '.', 0)->0)
}

/// The name part of a page name: the text after its first dot, without a
/// trailing `.html` and then without a trailing `!`.
pub open spec fn page_name(s: Seq<char>) -> Seq<char> {
    strip_bang(strip_html(s.subrange(first_index_from(s, '.', 0)->0 + 1, s.len() as int)))
}

/// The text of a symbol: its kind word, a space and its name, with `!` after a macro's name.
pub open spec fn symbol_text(sym: RustSymbol) -> Seq<char> {
    match sym {
        RustSymbol::Function(n) => "fn "@ + n@,
        RustSymbol::Macro(n) => "macro "@ + n@ + "!"@,
        RustSymbol::Struct(n) => "struct "@ + n@,
        RustSymbol::Trait(n) => "trait "@ + n@,
        RustSymbol::Type(n) => "type "@ + n@,
        RustSymbol::Enum(n) => "enum "@ + n@,
    }
}

impl<'a> RustSymbol<'a> {
    /// The symbol as text, such as `fn Ok` or `macro ensure!`.
    pub fn to_string(&self) -> (r: String)
        ensures
            r@ == symbol_text(*self),
    {
        match self {
            RustSymbol::Function(name) => {
                let mut out = String::from_str("fn ");
                out.append(name);
                out
            },
            RustSymbol::Macro(name) => {
                let mut out = String::from_str("macro ");
                out.append(name);
                out.append("!");
                out
            },
            RustSymbol::Struct(name) => {
                let mut out = String::from_str("struct ");
                out.append(name);
                out
            },
            RustSymbol::Trait(name) => {
                let mut out = String::from_str("trait ");
                out.append(name);
                out
            },
            RustSymbol::Type(name) => {
                let mut out = String::from_str("type ");
                out.append(name);
                out
            },
            RustSymbol::Enum(name) => {
                let mut out = String::from_str("enum ");
                out.append(name);
                out
            },
        }
    }
}

/// The symbol that a documentation page name such as `struct.Chain.html`
/// describes; none when the name has no dot or an unknown kind.
pub fn parse_rust_symbol<'a>(filename: &'a str) -> (r: Option<RustSymbol<'a>>)
    ensures
        r is Some <==> first_index_from(filename@, '.', 0) is Some && is_kind_word(
            page_kind(filename@),
        ),
        r matches Some(sym) ==> kind_word(sym) == page_kind(filename@) && symbol_name(sym)
            == page_name(filename@),
{
    let dot = match find_char(filename, '.') {
        Some(d) => d,
        None => return None,
    };
    let n = filename.unicode_len();
    let kind = filename.substring_char(0, dot);
    let mut name = filename.substring_char(dot + 1, n);
    if ends_with_text(name, ".html") {
        proof {
            reveal_strlit(".html");
        }
        let m = name.unicode_len();
        name = name.substring_char(0, m - 5);
    }
    if ends_with_text(name, "!") {
        proof {
            reveal_strlit("!");
            assert(name@.subrange(name@.len() - 1, name@.len() as int) =~= seq![name@.last()]);
            assert(name@.last() == '!') by {
                assert(seq![name@.last()] == "!"@);
                assert(seq![name@.last()][0] == "!"@[0]);
            }
        }
        let m = name.unicode_len();
        name = name.substring_char(0, m - 1);
    } else {
        proof {
            reveal_strlit("!");
            if 1 <= name@.len() && name@.last() == '!' {
                assert(name@.subrange(name@.len() - 1, name@.len() as int) =~= "!"@);
            }
        }
    }
    if str_eq(kind, "fn") {
        Some(RustSymbol::Function(name))
    } else if str_eq(kind, "macro") {
        Some(RustSymbol::Macro(name))
    } else if str_eq(kind, "struct") {
        Some(RustSymbol::Struct(name))
    } else if str_eq(kind, "trait") {
        Some(RustSymbol::Trait(name))
    } else if str_eq(kind, "type") {
        Some(RustSymbol::Type(name))
    } else if str_eq(kind, "enum") {
        Some(RustSymbol::Enum(name))
    } else {
        None
    }
}

/// The crate and the rest of a page path such as `anyhow/struct.Chain.html`:
/// the text before its first `/` and the text after it.
pub fn extract_crate_and_path<'a>(path: &'a str) -> (r: Option<(&'a str, &'a str)>)
    ensures
        r is Some <==> first_index_from(path@, '/', 0) is Some,
        r matches Some((c, rest)) ==> c@ == path@.subrange(0, first_index_from(path@, '/', 0)->0)
            && rest@ == path@.subrange(first_index_from(path@, '/', 0)->0 + 1, path@.len() as int),
{
    match find_char(path, '/') {
        None => None,
        Some(i) => {
            let n = path.unicode_len();
            Some((path.substring_char(0, i), path.substring_char(i + 1, n)))
        },
    }
}

/// The key of a documentation page in the cache: its path relative to the
/// documentation directory, as `/`-separated text.
pub fn path_to_cache_key(path: &ProjectPath, docs_dir: &ProjectPath) -> (r: Option<String>)
    ensures
        r is Some <==> is_ancestor_or_self(docs_dir@, path@),
        r matches Some(k) ==> k@ == relative_text(
            path@.subrange(docs_dir@.len() as int, path@.len() as int),
        ),
{
    match path.strip_prefix(docs_dir) {
        Some(rest) => Some(relative_to_text(&rest)),
        None => None,
    }
}


/// `i` is the first position whose key is `k`.
pub open spec fn is_first_key<T>(v: Seq<(String, T)>, k: Seq<char>, i: int) -> bool {
    &&& 0 <= i < v.len()
    &&& v[i].0@ == k
    &&& forall|j: int| 0 <= j < i ==> v[j].0@ != k
}

/// Some position holds the key `k`.
pub open spec fn has_key<T>(v: Seq<(String, T)>, k: Seq<char>) -> bool {
    exists|i: int| 0 <= i < v.len() && v[i].0@ == k
}

/// The first position whose key is `k`.
pub open spec fn first_key<T>(v: Seq<(String, T)>, k: Seq<char>) -> int {
    choose|i: int| is_first_key(v, k, i)
}

/// The value stored under the first occurrence of `k`.
pub open spec fn value_of(v: Seq<(String, String)>, k: Seq<char>) -> Seq<char> {
    v[first_key(v, k)].1@
}

/// The keys of an association list, as text.
pub open spec fn key_views<T>(v: Seq<(String, T)>) -> Seq<Seq<char>> {
    v.map_values(|e: (String, T)| e.0@)
}

/// Pairs of strings, as text.
pub open spec fn pair_views(v: Seq<(String, String)>) -> Seq<(Seq<char>, Seq<char>)> {
    v.map_values(|e: (String, String)| (e.0@, e.1@))
}

/// The requested symbols that have documentation, each with its text, in the order requested.
pub open spec fn docs_for(entries: Seq<(String, String)>, symbols: Seq<Seq<char>>) -> Seq<(Seq<char>, Seq<char>)>
    decreases symbols.len(),
{
    if symbols.len() == 0 {
        Seq::empty()
    } else {
        let rest = docs_for(entries, symbols.drop_last());
        let k = symbols.last();
        if has_key(entries, k) {
            rest.push((k, value_of(entries, k)))
        } else {
            rest
        }
    }
}

/// The markdown of the first `n` symbols of a dependency: each symbol on a
/// line, then the symbol again and its text, each on a line.
pub open spec fn markdown_text(entries: Seq<(String, String)>, n: int) -> Seq<char>
    decreases n,
{
    if n <= 0 {
        Seq::empty()
    } else {
        let k = entries[n - 1].0@;
        markdown_text(entries, n - 1) + k + "\n"@ + k + "\n"@ + value_of(entries, k) + "\n"@
    }
}

proof fn lemma_first_key<T>(v: Seq<(String, T)>, k: Seq<char>, i: int)
    requires
        is_first_key(v, k, i),
    ensures
        first_key(v, k) == i,
{
    let j = first_key(v, k);
    assert(is_first_key(v, k, j));
    if j < i {
        assert(v[j].0@ != k);
    } else if i < j {
        assert(v[i].0@ != k);
    }
}

/// The position of the first entry whose key is `k`.
fn find_key<T>(v: &Vec<(String, T)>, k: &str) -> (r: Option<usize>)
    ensures
        r matches Some(i) ==> is_first_key(v@, k@, i as int) && first_key(v@, k@) == i,
        r is None <==> !has_key(v@, k@),
{
    let mut i: usize = 0;
    while i < v.len()
        invariant
            i <= v@.len(),
            forall|j: int| 0 <= j < i ==> v@[j].0@ != k@,
        decreases v.len() - i,
    {
        if str_eq(v[i].0.as_str(), k) {
            proof {
                lemma_first_key(v@, k@, i as int);
            }
            return Some(i);
        }
        i = i + 1;
    }
    None
}

/// The cached documentation of a project: per dependency, the text of each
/// symbol's page, and the dependency version that was indexed.
#[derive(Debug, Clone)]
pub struct DocsCache {
    pub hash: String,
    pub deps: Vec<(String, Vec<(String, String)>)>,
    pub crate_versions: Vec<(String, String)>,
}

impl DocsCache {
    /// A cache that holds nothing.
    pub fn empty() -> (r: DocsCache)
        ensures
            r.hash@.len() == 0,
            r.deps@.len() == 0,
            r.crate_versions@.len() == 0,
    {
        DocsCache { hash: String::new(), deps: Vec::new(), crate_versions: Vec::new() }
    }
}

/// The documentation index of a project.
#[derive(Debug)]
pub struct DocsIndex {
    pub dependencies: Vec<(String, String)>,
    pub cache: DocsCache,
}

impl DocsIndex {
    /// An index of the given dependencies (name and version) over a cache.
    pub fn from_parts(dependencies: Vec<(String, String)>, cache: DocsCache) -> (r: DocsIndex)
        ensures
            r.dependencies == dependencies,
            r.cache == cache,
    {
        DocsIndex { dependencies, cache }
    }

    /// An index with no dependency and an empty cache.
    pub fn new_empty() -> (r: DocsIndex)
        ensures
            r.dependencies@.len() == 0,
            r.cache.deps@.len() == 0,
            r.cache.crate_versions@.len() == 0,
    {
        DocsIndex { dependencies: Vec::new(), cache: DocsCache::empty() }
    }

    /// The dependencies, as name and version.
    pub fn dependencies(&self) -> (r: &Vec<(String, String)>)
        ensures
            r@ == self.dependencies@,
    {
        &self.dependencies
    }

    /// The documented symbols of `dependency`; none when it has no cached documentation.
    pub fn symbols(&self, dependency: &str) -> (r: Option<Vec<String>>)
        ensures
            r is None <==> !has_key(self.cache.deps@, dependency@),
            r matches Some(syms) ==> string_views(syms@) == key_views(
                self.cache.deps@[first_key(self.cache.deps@, dependency@)].1@,
            ),
    {
        let i = match find_key(&self.cache.deps, dependency) {
            Some(i) => i,
            None => return None,
        };
        let entries = &self.cache.deps[i].1;
        let mut out: Vec<String> = Vec::new();
        let mut j: usize = 0;
        while j < entries.len()
            invariant
                j <= entries@.len(),
                string_views(out@) == key_views(entries@).subrange(0, j as int),
            decreases entries.len() - j,
        {
            let key = entries[j].0.clone();
            let ghost before = out@;
            out.push(key);
            proof {
                assert(out@ == before.push(key));
                assert(string_views(out@) =~= string_views(before).push(key@));
                assert(string_views(out@) =~= key_views(entries@).subrange(0, j + 1));
            }
            j = j + 1;
        }
        proof {
            assert(key_views(entries@).subrange(0, entries@.len() as int) =~= key_views(entries@));
        }
        Some(out)
    }

    /// For each of `symbols` that `dependency` documents, the symbol and its
    /// text; none when the dependency has no cached documentation.
    pub fn docs(&self, dependency: &str, symbols: &Vec<String>) -> (r: Option<Vec<(String, String)>>)
        ensures
            r is None <==> !has_key(self.cache.deps@, dependency@),
            r matches Some(d) ==> pair_views(d@) == docs_for(
                self.cache.deps@[first_key(self.cache.deps@, dependency@)].1@,
                string_views(symbols@),
            ),
    {
        let i = match find_key(&self.cache.deps, dependency) {
            Some(i) => i,
            None => return None,
        };
        let entries = &self.cache.deps[i].1;
        let ghost syms = string_views(symbols@);
        let mut out: Vec<(String, String)> = Vec::new();
        let mut j: usize = 0;
        while j < symbols.len()
            invariant
                j <= symbols@.len(),
                syms == string_views(symbols@),
                pair_views(out@) == docs_for(entries@, syms.subrange(0, j as int)),
            decreases symbols.len() - j,
        {
            proof {
                assert(syms.subrange(0, j + 1).drop_last() =~= syms.subrange(0, j as int));
            }
            match find_key(entries, symbols[j].as_str()) {
                Some(k) => {
                    out.push((symbols[j].clone(), entries[k].1.clone()));
                    proof {
                        assert(pair_views(out@) =~= docs_for(entries@, syms.subrange(0, j + 1)));
                    }
                },
                None => {},
            }
            j = j + 1;
        }
        proof {
            assert(syms.subrange(0, symbols@.len() as int) =~= syms);
        }
        Some(out)
    }

    /// The documentation of `dependency` as one text: each symbol on a line,
    /// followed by the symbol and its text, each on a line; none when the
    /// dependency has no cached documentation.
    pub fn markdown_docs(&self, dependency: &str) -> (r: Option<String>)
        ensures
            r is None <==> !has_key(self.cache.deps@, dependency@),
            r matches Some(text) ==> text@ == markdown_text(
                self.cache.deps@[first_key(self.cache.deps@, dependency@)].1@,
                self.cache.deps@[first_key(self.cache.deps@, dependency@)].1@.len() as int,
            ),
    {
        let i = match find_key(&self.cache.deps, dependency) {
            Some(i) => i,
            None => return None,
        };
        let entries = &self.cache.deps[i].1;
        let mut output = String::new();
        let mut j: usize = 0;
        while j < entries.len()
            invariant
                j <= entries@.len(),
                output@ == markdown_text(entries@, j as int),
            decreases entries.len() - j,
        {
            let symbol = &entries[j].0;
            match find_key(entries, symbol.as_str()) {
                Some(k) => {
                    output.append(symbol.as_str());
                    output.append("\n");
                    output.append(symbol.as_str());
                    output.append("\n");
                    output.append(entries[k].1.as_str());
                    output.append("\n");
                },
                None => {
                    proof {
                        assert(entries@[j as int].0@ == symbol@);
                    }
                },
            }
            j = j + 1;
        }
        Some(output)
    }
}

/// Whether a page of `crate_name` is to be indexed: the crate must be a
/// dependency, not ignored, and not already cached at the same version.
/// Gives the dependency's version when it is.
pub fn page_version<'a>(
    crate_name: &str,
    dependencies: &'a Vec<(String, String)>,
    ignore_crates: &Vec<String>,
    cache: &DocsCache,
) -> (r: Option<&'a String>)
    ensures
        r is Some <==> has_key(dependencies@, crate_name@) && !string_views(ignore_crates@).contains(crate_name@) && !(has_key(cache.crate_versions@, crate_name@)
            && value_of(cache.crate_versions@, crate_name@) == value_of(
            dependencies@,
            crate_name@,
        )),
        r matches Some(v) ==> v@ == value_of(dependencies@, crate_name@),
{
    let d = match find_key(dependencies, crate_name) {
        Some(d) => d,
        None => return None,
    };
    let version = &dependencies[d].1;
    let mut i: usize = 0;
    while i < ignore_crates.len()
        invariant
            i <= ignore_crates@.len(),
            forall|j: int| 0 <= j < i ==> ignore_crates@[j]@ != crate_name@,
        decreases ignore_crates.len() - i,
    {
        if str_eq(ignore_crates[i].as_str(), crate_name) {
            proof {
                assert(string_views(ignore_crates@)[i as int] == crate_name@);
            }
            return None;
        }
        i = i + 1;
    }
    proof {
        let names = string_views(ignore_crates@);
        if names.contains(crate_name@) {
            let j = choose|j: int| 0 <= j < names.len() && names[j] == crate_name@;
            assert(ignore_crates@[j]@ == crate_name@);
        }
    }
    match find_key(&cache.crate_versions, crate_name) {
        Some(c) => {
            if cache.crate_versions[c].1.eq(version) {
                return None;
            }
        },
        None => {},
    }
    Some(version)
}

/// `v` with the value under key `k` set to `val`: the first entry with that
/// key is replaced, or the pair is appended.
pub open spec fn upserted(v: Seq<(String, String)>, k: Seq<char>, val: Seq<char>) -> Seq<(Seq<char>, Seq<char>)> {
    if has_key(v, k) {
        pair_views(v).update(first_key(v, k), (k, val))
    } else {
        pair_views(v).push((k, val))
    }
}

/// Sets the value under key `k` to `val`.
pub fn upsert(v: &mut Vec<(String, String)>, k: String, val: String)
    ensures
        pair_views(final(v)@) == upserted(old(v)@, k@, val@),
{
    match find_key(v, k.as_str()) {
        Some(i) => {
            let ghost kv = k@;
            let ghost vv = val@;
            v.set(i, (k, val));
            proof {
                assert(pair_views(v@) =~= pair_views(old(v)@).update(i as int, (kv, vv)));
            }
        },
        None => {
            let ghost kv = k@;
            let ghost vv = val@;
            v.push((k, val));
            proof {
                assert(pair_views(v@) =~= pair_views(old(v)@).push((kv, vv)));
            }
        },
    }
}

/// The key under which a documentation page is cached: the text of the
/// symbol it describes, or the page path itself.
pub fn page_symbol(file_path: &str) -> (r: String)
    ensures
        first_index_from(file_path@, '.', 0) is Some && is_kind_word(page_kind(file_path@))
            ==> exists|sym: RustSymbol| kind_word(sym) == page_kind(file_path@) && symbol_name(sym)
            == page_name(file_path@) && r@ == #[trigger] symbol_text(sym),
        !(first_index_from(file_path@, '.', 0) is Some && is_kind_word(page_kind(file_path@)))
            ==> r@ == file_path@,
{
    match parse_rust_symbol(file_path) {
        Some(sym) => sym.to_string(),
        None => String::from_str(file_path),
    }
}

impl DocsCache {
    /// Records the text of one page of `crate_name` under `symbol`, and the
    /// crate version that was indexed.
    pub fn record_page(&mut self, crate_name: &str, symbol: String, markdown: String, version: String)
        ensures
            final(self).hash == old(self).hash,
            pair_views(final(self).crate_versions@) == upserted(old(self).crate_versions@, crate_name@, version@),
            has_key(old(self).deps@, crate_name@) ==> ({
                let i = first_key(old(self).deps@, crate_name@);
                &&& final(self).deps@.len() == old(self).deps@.len()
                &&& forall|j: int| 0 <= j < old(self).deps@.len() && j != i ==> #[trigger] final(self).deps@[j] == old(self).deps@[j]
                &&& final(self).deps@[i].0 == old(self).deps@[i].0
                &&& pair_views(final(self).deps@[i].1@) == upserted(old(self).deps@[i].1@, symbol@, markdown@)
            }),
            !has_key(old(self).deps@, crate_name@) ==> ({
                let n = old(self).deps@.len() as int;
                &&& final(self).deps@.len() == n + 1
                &&& forall|j: int| 0 <= j < n ==> #[trigger] final(self).deps@[j] == old(self).deps@[j]
                &&& final(self).deps@[n].0@ == crate_name@
                &&& pair_views(final(self).deps@[n].1@) == seq![(symbol@, markdown@)]
            }),
    {
        match find_key(&self.deps, crate_name) {
            Some(i) => {
                let (name, mut pages) = self.deps.remove(i);
                upsert(&mut pages, symbol, markdown);
                self.deps.insert(i, (name, pages));
            },
            None => {
                let mut pages: Vec<(String, String)> = Vec::new();
                let ghost sv = symbol@;
                let ghost mv = markdown@;
                pages.push((symbol, markdown));
                proof {
                    assert(pair_views(pages@) =~= seq![(sv, mv)]);
                }
                self.deps.push((String::from_str(crate_name), pages));
            },
        }
        upsert(&mut self.crate_versions, String::from_str(crate_name), version);
    }
}

impl DocsIndex {
    /// The documentation of a crate as one text; an error when no
    /// dependency is known or the crate has no cached documentation.
    pub fn crate_docs(&self, crate_name: &str) -> (r: Result<String, String>)
        ensures
            self.dependencies@.len() == 0 ==> (r matches Err(e) && e@ == no_dependencies_message()),
            self.dependencies@.len() > 0 && !has_key(self.cache.deps@, crate_name@) ==> (r matches Err(e)
                && e@ == "No docs found for crate: "@ + crate_name@),
            r matches Ok(text) ==> self.dependencies@.len() > 0 && has_key(self.cache.deps@, crate_name@)
                && text@ == markdown_text(
                self.cache.deps@[first_key(self.cache.deps@, crate_name@)].1@,
                self.cache.deps@[first_key(self.cache.deps@, crate_name@)].1@.len() as int,
            ),
            self.dependencies@.len() > 0 && has_key(self.cache.deps@, crate_name@) ==> r is Ok,
    {
        if self.dependencies.len() == 0 {
            return Err(no_dependencies());
        }
        match self.markdown_docs(crate_name) {
            Some(text) => Ok(text),
            None => {
                let mut e = String::from_str("No docs found for crate: ");
                e.append(crate_name);
                Err(e)
            },
        }
    }

    /// The text of one symbol of a crate, as a list of (symbol, text); an
    /// error when no dependency is known or the crate has no cached documentation.
    pub fn crate_symbol_docs(&self, crate_name: &str, symbol: &str) -> (r: Result<Vec<(String, String)>, String>)
        ensures
            self.dependencies@.len() == 0 ==> (r matches Err(e) && e@ == no_dependencies_message()),
            self.dependencies@.len() > 0 && !has_key(self.cache.deps@, crate_name@) ==> (r matches Err(e)
                && e@ == "No docs found for crate: "@ + crate_name@),
            r matches Ok(d) ==> self.dependencies@.len() > 0 && has_key(self.cache.deps@, crate_name@)
                && pair_views(d@) == docs_for(
                self.cache.deps@[first_key(self.cache.deps@, crate_name@)].1@,
                seq![symbol@],
            ),
            self.dependencies@.len() > 0 && has_key(self.cache.deps@, crate_name@) ==> r is Ok,
    {
        if self.dependencies.len() == 0 {
            return Err(no_dependencies());
        }
        let mut wanted: Vec<String> = Vec::new();
        wanted.push(String::from_str(symbol));
        proof {
            assert(string_views(wanted@) =~= seq![symbol@]);
        }
        match self.docs(crate_name, &wanted) {
            Some(d) => Ok(d),
            None => {
                let mut e = String::from_str("No docs found for crate: ");
                e.append(crate_name);
                Err(e)
            },
        }
    }
}

pub open spec fn no_dependencies_message() -> Seq<char> {
    "No dependencies found. Please update the docs cache first"@
}

fn no_dependencies() -> (r: String)
    ensures
        r@ == no_dependencies_message(),
{
    String::from_str("No dependencies found. Please update the docs cache first")
}
} // verus!
