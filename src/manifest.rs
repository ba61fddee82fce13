//! Reading a project's dependencies out of its parsed manifests, workspace
//! members included: names with their versions, sorted by name, each name
//! once with the version it was first given.

use crate::docs::{first_key, has_key, is_first_key};
use crate::text::str_eq;
use vstd::prelude::*;
use vstd::string::StrSliceExecFns;

verus! {

/// A parsed TOML value, as far as manifests are read here.
#[derive(Debug)]
pub enum TomlValue {
    String(String),
    Table(Vec<(String, TomlValue)>),
    Array(Vec<TomlValue>),
    Other,
}

/// The entries of a table value; none for another value.
pub open spec fn table_entries(v: TomlValue) -> Seq<(String, TomlValue)> {
    match v {
        TomlValue::Table(t) => t@,
        _ => Seq::empty(),
    }
}

/// The value under `key` in a table value.
pub open spec fn lookup(v: TomlValue, key: Seq<char>) -> Option<TomlValue> {
    if has_key(table_entries(v), key) {
        Some(table_entries(v)[first_key(table_entries(v), key)].1)
    } else {
        None
    }
}

/// The version a dependency entry gives: the entry itself when it is a
/// string, or its `version` string when it is a table.
pub open spec fn entry_version(v: TomlValue) -> Option<Seq<char>> {
    match v {
        TomlValue::String(s) => Some(s@),
        TomlValue::Table(_) => match lookup(v, "version"@) {
            Some(TomlValue::String(s)) => Some(s@),
            _ => None,
        },
        _ => None,
    }
}

/// The (name, version) pairs of a dependency table, in order; entries without a version are skipped.
pub open spec fn deps_of(entries: Seq<(String, TomlValue)>) -> Seq<(Seq<char>, Seq<char>)>
    decreases entries.len(),
{
    if entries.len() == 0 {
        Seq::empty()
    } else {
        let rest = deps_of(entries.drop_last());
        match entry_version(entries.last().1) {
            Some(ver) => rest.push((entries.last().0@, ver)),
            None => rest,
        }
    }
}

/// Pairs of strings as text.
pub open spec fn pairs_view(v: Seq<(String, String)>) -> Seq<(Seq<char>, Seq<char>)> {
    v.map_values(|e: (String, String)| (e.0@, e.1@))
}

/// The value under `key` in a table value.
pub fn get<'a>(v: &'a TomlValue, key: &str) -> (r: Option<&'a TomlValue>)
    ensures
        r matches Some(x) ==> lookup(*v, key@) == Some(*x),
        r is None ==> lookup(*v, key@) is None,
{
    match v {
        TomlValue::Table(t) => {
            let mut i: usize = 0;
            while i < t.len()
                invariant
                    *v == TomlValue::Table(*t),
                    i <= t@.len(),
                    forall|j: int| 0 <= j < i ==> t@[j].0@ != key@,
                decreases t.len() - i,
            {
                if str_eq(t[i].0.as_str(), key) {
                    proof {
                        assert(is_first_key(t@, key@, i as int));
                        let k = first_key(t@, key@);
                        assert(is_first_key(t@, key@, k));
                        if k < i {
                            assert(t@[k].0@ != key@);
                        } else if k > i {
                            assert(t@[i as int].0@ != key@);
                        }
                    }
                    return Some(&t[i].1);
                }
                i = i + 1;
            }
            None
        },
        _ => None,
    }
}

fn version_of(v: &TomlValue) -> (r: Option<String>)
    ensures
        r matches Some(s) ==> entry_version(*v) == Some(s@),
        r is None ==> entry_version(*v) is None,
{
    match v {
        TomlValue::String(s) => Some(s.clone()),
        TomlValue::Table(_) => match get(v, "version") {
            Some(TomlValue::String(s)) => Some(s.clone()),
            _ => None,
        },
        _ => None,
    }
}

/// Appends the (name, version) pairs of a dependency table.
pub fn extract_deps(table: &TomlValue, out: &mut Vec<(String, String)>)
    ensures
        pairs_view(final(out)@) == pairs_view(old(out)@) + deps_of(table_entries(*table)),
{
    match table {
        TomlValue::Table(t) => {
            let mut i: usize = 0;
            while i < t.len()
                invariant
                    *table == TomlValue::Table(*t),
                    i <= t@.len(),
                    pairs_view(out@) == pairs_view(old(out)@) + deps_of(t@.subrange(0, i as int)),
                decreases t.len() - i,
            {
                proof {
                    assert(t@.subrange(0, i + 1).drop_last() =~= t@.subrange(0, i as int));
                }
                match version_of(&t[i].1) {
                    Some(ver) => {
                        let ghost before = out@;
                        let name = t[i].0.clone();
                        let ghost entry = (name@, ver@);
                        out.push((name, ver));
                        proof {
                            assert(pairs_view(out@) =~= pairs_view(before).push(entry));
                        }
                    },
                    None => {},
                }
                i = i + 1;
            }
            proof {
                assert(t@.subrange(0, t@.len() as int) =~= t@);
            }
        },
        _ => {
            proof {
                assert(pairs_view(out@) =~= pairs_view(old(out)@) + deps_of(table_entries(*table)));
            }
        },
    }
}

/// The dependencies a manifest lists under `key` (none when it has no such table).
pub open spec fn section_deps(manifest: TomlValue, key: Seq<char>) -> Seq<(Seq<char>, Seq<char>)> {
    match lookup(manifest, key) {
        Some(t) => deps_of(table_entries(t)),
        None => Seq::empty(),
    }
}

/// The dependencies of each target configuration of a manifest, in order.
pub open spec fn target_deps(targets: Seq<(String, TomlValue)>) -> Seq<(Seq<char>, Seq<char>)>
    decreases targets.len(),
{
    if targets.len() == 0 {
        Seq::empty()
    } else {
        target_deps(targets.drop_last()) + section_deps(targets.last().1, "dependencies"@)
    }
}

/// All dependencies a package manifest lists: regular, development, then per target.
pub open spec fn package_deps(manifest: TomlValue) -> Seq<(Seq<char>, Seq<char>)> {
    section_deps(manifest, "dependencies"@) + section_deps(manifest, "dev-dependencies"@) + match lookup(
        manifest,
        "target"@,
    ) {
        Some(t) => target_deps(table_entries(t)),
        None => Seq::empty(),
    }
}

fn extract_section(manifest: &TomlValue, key: &str, out: &mut Vec<(String, String)>)
    ensures
        pairs_view(final(out)@) == pairs_view(old(out)@) + section_deps(*manifest, key@),
{
    match get(manifest, key) {
        Some(t) => extract_deps(t, out),
        None => {
            proof {
                assert(pairs_view(out@) =~= pairs_view(old(out)@) + section_deps(*manifest, key@));
            }
        },
    }
}

/// Appends all dependencies a package manifest lists.
pub fn member_dependencies(manifest: &TomlValue, out: &mut Vec<(String, String)>)
    ensures
        pairs_view(final(out)@) == pairs_view(old(out)@) + package_deps(*manifest),
{
    let ghost start = pairs_view(out@);
    extract_section(manifest, "dependencies", out);
    extract_section(manifest, "dev-dependencies", out);
    let ghost mid = pairs_view(out@);
    match get(manifest, "target") {
        Some(TomlValue::Table(targets)) => {
            let mut i: usize = 0;
            while i < targets.len()
                invariant
                    i <= targets@.len(),
                    pairs_view(out@) == mid + target_deps(targets@.subrange(0, i as int)),
                decreases targets.len() - i,
            {
                proof {
                    assert(targets@.subrange(0, i + 1).drop_last() =~= targets@.subrange(0, i as int));
                }
                extract_section(&targets[i].1, "dependencies", out);
                proof {
                    assert(pairs_view(out@) =~= mid + target_deps(targets@.subrange(0, i + 1)));
                }
                i = i + 1;
            }
            proof {
                assert(targets@.subrange(0, targets@.len() as int) =~= targets@);
                assert(pairs_view(out@) =~= start + package_deps(*manifest));
            }
        },
        _ => {
            proof {
                assert(pairs_view(out@) =~= start + package_deps(*manifest));
            }
        },
    }
}

/// The member patterns of a workspace manifest: the strings of its
/// `workspace.members` array (none when the manifest is not a workspace).
pub open spec fn member_patterns_of(manifest: TomlValue) -> Option<Seq<Seq<char>>> {
    match lookup(manifest, "workspace"@) {
        None => None,
        Some(ws) => Some(
            match lookup(ws, "members"@) {
                Some(TomlValue::Array(a)) => strings_of(a@),
                _ => Seq::empty(),
            },
        ),
    }
}

/// The string values of an array, in order.
pub open spec fn strings_of(a: Seq<TomlValue>) -> Seq<Seq<char>>
    decreases a.len(),
{
    if a.len() == 0 {
        Seq::empty()
    } else {
        match a.last() {
            TomlValue::String(s) => strings_of(a.drop_last()).push(s@),
            _ => strings_of(a.drop_last()),
        }
    }
}

/// The member patterns of a workspace manifest; none when it is not a workspace.
pub fn member_patterns(manifest: &TomlValue) -> (r: Option<Vec<String>>)
    ensures
        r is None <==> member_patterns_of(*manifest) is None,
        r matches Some(p) ==> member_patterns_of(*manifest) == Some(p@.map_values(|s: String| s@)),
{
    let ws = match get(manifest, "workspace") {
        None => return None,
        Some(ws) => ws,
    };
    let mut out: Vec<String> = Vec::new();
    match get(ws, "members") {
        Some(TomlValue::Array(a)) => {
            let mut i: usize = 0;
            while i < a.len()
                invariant
                    i <= a@.len(),
                    out@.map_values(|s: String| s@) == strings_of(a@.subrange(0, i as int)),
                decreases a.len() - i,
            {
                proof {
                    assert(a@.subrange(0, i + 1).drop_last() =~= a@.subrange(0, i as int));
                }
                match &a[i] {
                    TomlValue::String(s) => {
                        let ghost before = out@;
                        let c = s.clone();
                        out.push(c);
                        proof {
                            assert(out@.map_values(|s: String| s@) =~= before.map_values(|s: String| s@).push(c@));
                        }
                    },
                    _ => {},
                }
                i = i + 1;
            }
            proof {
                assert(a@.subrange(0, a@.len() as int) =~= a@);
            }
        },
        _ => {
            proof {
                assert(out@.map_values(|s: String| s@) =~= Seq::<Seq<char>>::empty());
            }
        },
    }
    Some(out)
}

/// `a` sorts strictly before `b`, character by character.
pub open spec fn text_less(a: Seq<char>, b: Seq<char>) -> bool
    decreases a.len(),
{
    if b.len() == 0 {
        false
    } else if a.len() == 0 {
        true
    } else if a[0] != b[0] {
        (a[0] as u32) < (b[0] as u32)
    } else {
        text_less(a.drop_first(), b.drop_first())
    }
}

/// Whether `a` sorts strictly before `b`.
pub fn less_text(a: &str, b: &str) -> (r: bool)
    ensures
        r == text_less(a@, b@),
{
    let n = a.unicode_len();
    let m = b.unicode_len();
    let mut i: usize = 0;
    proof {
        assert(a@.subrange(0, n as int) =~= a@);
        assert(b@.subrange(0, m as int) =~= b@);
    }
    while i < n && i < m && a.get_char(i) == b.get_char(i)
        invariant
            n == a@.len(),
            m == b@.len(),
            i <= n,
            i <= m,
            text_less(a@, b@) == text_less(a@.subrange(i as int, n as int), b@.subrange(i as int, m as int)),
        decreases n - i,
    {
        proof {
            assert(a@.subrange(i as int, n as int).drop_first() =~= a@.subrange(i + 1, n as int));
            assert(b@.subrange(i as int, m as int).drop_first() =~= b@.subrange(i + 1, m as int));
        }
        i = i + 1;
    }
    if i == m {
        return false;
    }
    if i == n {
        return true;
    }
    proof {
        assert(a@.subrange(i as int, n as int)[0] == a@[i as int]);
        assert(b@.subrange(i as int, m as int)[0] == b@[i as int]);
    }
    (a.get_char(i) as u32) < (b.get_char(i) as u32)
}


proof fn lemma_less_irreflexive(a: Seq<char>)
    ensures
        !text_less(a, a),
    decreases a.len(),
{
    if a.len() > 0 {
        lemma_less_irreflexive(a.drop_first());
    }
}

proof fn lemma_less_transitive(a: Seq<char>, b: Seq<char>, c: Seq<char>)
    requires
        text_less(a, b),
        text_less(b, c),
    ensures
        text_less(a, c),
    decreases a.len(),
{
    if a.len() > 0 && b.len() > 0 && c.len() > 0 && a[0] == b[0] && b[0] == c[0] {
        lemma_less_transitive(a.drop_first(), b.drop_first(), c.drop_first());
    }
}

proof fn lemma_less_total(a: Seq<char>, b: Seq<char>)
    requires
        a != b,
    ensures
        text_less(a, b) || text_less(b, a),
    decreases a.len(),
{
    if a.len() > 0 && b.len() > 0 && a[0] == b[0] {
        if a.drop_first() == b.drop_first() {
            assert(a =~= seq![a[0]] + a.drop_first());
            assert(b =~= seq![b[0]] + b.drop_first());
        }
        lemma_less_total(a.drop_first(), b.drop_first());
    } else if a.len() > 0 && b.len() > 0 {
        vstd::utf8::char_u32_cast(a[0], a[0] as u32);
        vstd::utf8::char_u32_cast(b[0], b[0] as u32);
    } else if a.len() == 0 && b.len() == 0 {
        assert(a =~= b);
    }
}

/// Sorted by name with each name once.
pub open spec fn sorted_by_name(v: Seq<(Seq<char>, Seq<char>)>) -> bool {
    forall|i: int, j: int| 0 <= i < j < v.len() ==> text_less(#[trigger] v[i].0, #[trigger] v[j].0)
}

/// Some pair of `v` has the name `k`.
pub open spec fn names(v: Seq<(Seq<char>, Seq<char>)>, k: Seq<char>) -> bool {
    exists|i: int| 0 <= i < v.len() && #[trigger] v[i].0 == k
}

/// `j` is the first pair of `v` named `k`.
pub open spec fn first_named(v: Seq<(Seq<char>, Seq<char>)>, k: Seq<char>, j: int) -> bool {
    &&& 0 <= j < v.len()
    &&& v[j].0 == k
    &&& forall|l: int| 0 <= l < j ==> v[l].0 != k
}

/// Pair `i` of `r` carries the version its name is first given in `v`.
pub open spec fn keeps_first_version(r: Seq<(Seq<char>, Seq<char>)>, v: Seq<(Seq<char>, Seq<char>)>, i: int) -> bool {
    exists|j: int| #[trigger] first_named(v, r[i].0, j) && v[j].1 == r[i].1
}

/// `r` holds the names of `v` once each, sorted, each with the version it is first given in `v`.
pub open spec fn sorted_first_versions(r: Seq<(Seq<char>, Seq<char>)>, v: Seq<(Seq<char>, Seq<char>)>) -> bool {
    &&& sorted_by_name(r)
    &&& forall|k: Seq<char>| names(r, k) <==> names(v, k)
    &&& forall|i: int| 0 <= i < r.len() ==> #[trigger] keeps_first_version(r, v, i)
}

/// The dependencies sorted by name, each name kept once with its first version.
pub fn sort_dedup_by_name(deps: &Vec<(String, String)>) -> (r: Vec<(String, String)>)
    ensures
        sorted_first_versions(pairs_view(r@), pairs_view(deps@)),
{
    let ghost v = pairs_view(deps@);
    let mut out: Vec<(String, String)> = Vec::new();
    let mut i: usize = 0;
    while i < deps.len()
        invariant
            i <= deps@.len(),
            v == pairs_view(deps@),
            sorted_first_versions(pairs_view(out@), v.subrange(0, i as int)),
        decreases deps.len() - i,
    {
        let ghost o = pairs_view(out@);
        let ghost pre = v.subrange(0, i as int);
        let ghost pre1 = v.subrange(0, i + 1);
        let ghost name = v[i as int].0;
        let name_ref = deps[i].0.as_str();
        let mut p: usize = 0;
        while p < out.len() && less_text(out[p].0.as_str(), name_ref)
            invariant
                p <= out@.len(),
                o == pairs_view(out@),
                name == name_ref@,
                forall|q: int| 0 <= q < p ==> text_less(#[trigger] o[q].0, name),
            decreases out.len() - p,
        {
            p = p + 1;
        }
        let present = p < out.len() && out[p].0.eq(&deps[i].0);
        proof {
            assert forall|k: Seq<char>| names(pre1, k) <==> names(pre, k) || k == name by {
                if names(pre1, k) {
                    let j = choose|j: int| 0 <= j < pre1.len() && #[trigger] pre1[j].0 == k;
                    if j < i {
                        assert(pre[j].0 == k);
                    }
                }
                if names(pre, k) {
                    let j = choose|j: int| 0 <= j < pre.len() && #[trigger] pre[j].0 == k;
                    assert(pre1[j].0 == k);
                }
                if k == name {
                    assert(pre1[i as int].0 == k);
                }
            }
        }
        if present {
            proof {
                assert(o[p as int].0 == name);
                assert(names(o, name));
                assert forall|x: int| 0 <= x < o.len() implies #[trigger] keeps_first_version(o, pre1, x) by {
                    assert(keeps_first_version(o, pre, x));
                    let j = choose|j: int| #[trigger] first_named(pre, o[x].0, j) && pre[j].1 == o[x].1;
                    assert(first_named(pre1, o[x].0, j));
                }
            }
        } else {
            let entry = (deps[i].0.clone(), deps[i].1.clone());
            let ghost ev = (entry.0@, entry.1@);
            out.insert(p, entry);
            proof {
                let n = pairs_view(out@);
                assert(n =~= o.insert(p as int, ev));
                assert(ev == v[i as int]);
                // the name is new
                assert forall|q: int| 0 <= q < o.len() implies #[trigger] o[q].0 != name by {
                    if q < p {
                        lemma_less_irreflexive(name);
                    } else {
                        if p < o.len() {
                            assert(o[p as int].0 != name);
                            lemma_less_total(o[p as int].0, name);
                            if q > p {
                                lemma_less_transitive(name, o[p as int].0, o[q].0);
                                lemma_less_irreflexive(name);
                            }
                        }
                    }
                }
                assert(!names(pre, name));
                // sortedness
                assert forall|x: int, y: int| 0 <= x < y < n.len() implies text_less(#[trigger] n[x].0, #[trigger] n[y].0) by {
                    if y < p {
                        assert(n[x] == o[x] && n[y] == o[y]);
                    } else if y == p {
                        assert(n[x] == o[x]);
                    } else if x < p {
                        assert(n[x] == o[x] && n[y] == o[y - 1]);
                        if x == p {
                        } else {
                            assert(text_less(o[x].0, o[y - 1].0));
                        }
                    } else if x == p {
                        assert(n[y] == o[y - 1]);
                        lemma_less_total(o[p as int].0, name);
                        if y - 1 > p {
                            lemma_less_transitive(name, o[p as int].0, o[y - 1].0);
                        }
                    } else {
                        assert(n[x] == o[x - 1] && n[y] == o[y - 1]);
                    }
                }
                assert forall|k: Seq<char>| names(n, k) <==> names(pre1, k) by {
                    if names(n, k) {
                        let j = choose|j: int| 0 <= j < n.len() && #[trigger] n[j].0 == k;
                        if j < p {
                            assert(o[j].0 == k);
                        } else if j > p {
                            assert(o[j - 1].0 == k);
                        }
                    }
                    if names(pre1, k) && k != name {
                        let j = choose|j: int| 0 <= j < o.len() && #[trigger] o[j].0 == k;
                        if j < p {
                            assert(n[j].0 == k);
                        } else {
                            assert(n[j + 1].0 == k);
                        }
                    }
                    if k == name {
                        assert(n[p as int].0 == k);
                    }
                }
                assert forall|x: int| 0 <= x < n.len() implies #[trigger] keeps_first_version(n, pre1, x) by {
                    if x == p {
                        assert forall|l: int| 0 <= l < i implies pre1[l].0 != name by {
                            assert(pre[l].0 == pre1[l].0);
                        }
                        assert(first_named(pre1, n[x].0, i as int));
                    } else {
                        let ox = if x < p { x } else { x - 1 };
                        assert(n[x] == o[ox]);
                        assert(keeps_first_version(o, pre, ox));
                        let j = choose|j: int| #[trigger] first_named(pre, o[ox].0, j) && pre[j].1 == o[ox].1;
                        assert(first_named(pre1, n[x].0, j));
                    }
                }
            }
        }
        i = i + 1;
    }
    proof {
        assert(v.subrange(0, deps@.len() as int) =~= v);
    }
    out
}

/// The dependencies a workspace manifest shares with its members.
pub open spec fn workspace_deps(manifest: TomlValue) -> Seq<(Seq<char>, Seq<char>)> {
    match lookup(manifest, "workspace"@) {
        Some(ws) => section_deps(ws, "dependencies"@),
        None => Seq::empty(),
    }
}

/// The dependencies of each member manifest, in order.
pub open spec fn members_deps(members: Seq<TomlValue>) -> Seq<(Seq<char>, Seq<char>)>
    decreases members.len(),
{
    if members.len() == 0 {
        Seq::empty()
    } else {
        members_deps(members.drop_last()) + package_deps(members.last())
    }
}

/// The dependencies of a project: those its root manifest shares as a
/// workspace, then those of each member manifest (the root manifest itself
/// for a single package), sorted by name, each name once with the version it
/// is first given.
pub fn collect_dependencies(root: &TomlValue, members: &Vec<TomlValue>) -> (r: Vec<(String, String)>)
    ensures
        sorted_first_versions(pairs_view(r@), workspace_deps(*root) + members_deps(members@)),
{
    let mut all: Vec<(String, String)> = Vec::new();
    match get(root, "workspace") {
        Some(ws) => extract_section(ws, "dependencies", &mut all),
        None => {},
    }
    proof {
        assert(pairs_view(all@) =~= workspace_deps(*root));
    }
    let ghost start = pairs_view(all@);
    let mut i: usize = 0;
    while i < members.len()
        invariant
            i <= members@.len(),
            pairs_view(all@) == start + members_deps(members@.subrange(0, i as int)),
        decreases members.len() - i,
    {
        proof {
            assert(members@.subrange(0, i + 1).drop_last() =~= members@.subrange(0, i as int));
        }
        member_dependencies(&members[i], &mut all);
        proof {
            assert(pairs_view(all@) =~= start + members_deps(members@.subrange(0, i + 1)));
        }
        i = i + 1;
    }
    proof {
        assert(members@.subrange(0, members@.len() as int) =~= members@);
    }
    sort_dedup_by_name(&all)
}
} // verus!
