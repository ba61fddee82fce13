//! Absolute filesystem paths, held as the list of their normal components
//! below the filesystem root.

use vstd::prelude::*;

verus! {

/// The components of a path as character sequences.
pub open spec fn component_views(v: Seq<String>) -> Seq<Seq<char>> {
    v.map_values(|s: String| s@)
}

/// `a` is `p` itself or one of its ancestors.
pub open spec fn is_ancestor_or_self(a: Seq<Seq<char>>, p: Seq<Seq<char>>) -> bool {
    a.len() <= p.len() && p.subrange(0, a.len() as int) == a
}

/// The text of a path: a slash before each component, or a lone slash for the root.
pub open spec fn path_text(p: Seq<Seq<char>>) -> Seq<char>
    decreases p.len(),
{
    if p.len() == 0 {
        seq!['/']
    } else {
        joined(p)
    }
}

/// Each component preceded by a slash.
pub open spec fn joined(p: Seq<Seq<char>>) -> Seq<char>
    decreases p.len(),
{
    if p.len() == 0 {
        Seq::empty()
    } else {
        joined(p.drop_last()) + seq!['/'] + p.last()
    }
}

/// Components separated by slashes, with no leading slash.
pub open spec fn relative_text(p: Seq<Seq<char>>) -> Seq<char>
    decreases p.len(),
{
    if p.len() == 0 {
        Seq::empty()
    } else if p.len() == 1 {
        p[0]
    } else {
        relative_text(p.drop_last()) + seq!['/'] + p.last()
    }
}

/// An absolute path: the filesystem root followed by `components`.
#[derive(Debug, Clone, PartialEq, Eq, Hash)]
pub struct ProjectPath {
    pub components: Vec<String>,
}

impl View for ProjectPath {
    type V = Seq<Seq<char>>;

    open spec fn view(&self) -> Seq<Seq<char>> {
        component_views(self.components@)
    }
}

/// Whether two strings hold the same characters.
pub fn same_text(a: &String, b: &String) -> (r: bool)
    ensures
        r == (a@ == b@),
{
    a.eq(b)
}

/// Whether the first `k` components of `b` are exactly `a`.
pub fn components_match_prefix(a: &Vec<String>, b: &Vec<String>, k: usize) -> (r: bool)
    requires
        k <= b.len(),
    ensures
        r == (component_views(a@) == component_views(b@).subrange(0, k as int)),
{
    if a.len() != k {
        proof {
            assert(component_views(a@).len() != component_views(b@).subrange(0, k as int).len());
        }
        return false;
    }
    let mut i: usize = 0;
    while i < k
        invariant
            a.len() == k,
            k <= b.len(),
            i <= k,
            forall|j: int| 0 <= j < i ==> a@[j]@ == b@[j]@,
        decreases k - i,
    {
        if !same_text(&a[i], &b[i]) {
            proof {
                assert(component_views(a@)[i as int] != component_views(b@).subrange(
                    0,
                    k as int,
                )[i as int]);
            }
            return false;
        }
        i = i + 1;
    }
    proof {
        assert(component_views(a@) =~= component_views(b@).subrange(0, k as int));
    }
    true
}

impl ProjectPath {
    /// The filesystem root.
    pub fn fs_root() -> (r: ProjectPath)
        ensures
            r@ == Seq::<Seq<char>>::empty(),
    {
        let r = ProjectPath { components: Vec::new() };
        proof {
            assert(r@ =~= Seq::<Seq<char>>::empty());
        }
        r
    }

    /// The path made of the given components below the filesystem root.
    pub fn from_components(components: Vec<String>) -> (r: ProjectPath)
        ensures
            r@ == component_views(components@),
    {
        ProjectPath { components }
    }

    pub fn len(&self) -> (r: usize)
        ensures
            r == self@.len(),
    {
        self.components.len()
    }

    /// Whether the two paths are equal.
    pub fn same_path(&self, other: &ProjectPath) -> (r: bool)
        ensures
            r == (self@ == other@),
    {
        let n = other.components.len();
        let r = components_match_prefix(&self.components, &other.components, n);
        proof {
            assert(component_views(other.components@).subrange(0, n as int) =~= other@);
        }
        r
    }

    /// Whether `base` is this path or one of its ancestors.
    pub fn starts_with(&self, base: &ProjectPath) -> (r: bool)
        ensures
            r == is_ancestor_or_self(base@, self@),
    {
        if base.components.len() > self.components.len() {
            return false;
        }
        components_match_prefix(&base.components, &self.components, base.components.len())
    }

    /// This path with one more component.
    pub fn join(&self, name: &str) -> (r: ProjectPath)
        ensures
            r@ == self@.push(name@),
    {
        let mut components = self.components.clone();
        proof {
            assert(component_views(components@) =~= self@);
        }
        components.push(name.to_owned());
        let r = ProjectPath { components };
        proof {
            assert(r@ =~= self@.push(name@));
        }
        r
    }

    /// The parent directory; none for the filesystem root.
    pub fn parent(&self) -> (r: Option<ProjectPath>)
        ensures
            self@.len() == 0 ==> r is None,
            self@.len() > 0 ==> (r matches Some(p) && p@ == self@.drop_last()),
    {
        if self.components.len() == 0 {
            return None;
        }
        let mut components = self.components.clone();
        proof {
            assert(component_views(components@) =~= self@);
        }
        components.pop();
        let r = ProjectPath { components };
        proof {
            assert(r@ =~= self@.drop_last());
        }
        Some(r)
    }

    /// The last component; none for the filesystem root.
    pub fn file_name(&self) -> (r: Option<&String>)
        ensures
            self@.len() == 0 ==> r is None,
            self@.len() > 0 ==> (r matches Some(n) && n@ == self@.last()),
    {
        let n = self.components.len();
        if n == 0 {
            None
        } else {
            Some(&self.components[n - 1])
        }
    }

    /// The components that follow `base`, when `base` is this path or one of its ancestors.
    pub fn strip_prefix(&self, base: &ProjectPath) -> (r: Option<Vec<String>>)
        ensures
            r is Some <==> is_ancestor_or_self(base@, self@),
            r matches Some(rest) ==> component_views(rest@) == self@.subrange(
                base@.len() as int,
                self@.len() as int,
            ),
    {
        if !self.starts_with(base) {
            return None;
        }
        let start = base.components.len();
        let mut rest: Vec<String> = Vec::new();
        let mut i: usize = start;
        while i < self.components.len()
            invariant
                start <= i <= self.components.len(),
                component_views(rest@) == self@.subrange(start as int, i as int),
            decreases self.components.len() - i,
        {
            let c = self.components[i].clone();
            let ghost before = rest@;
            rest.push(c);
            proof {
                assert(rest@ == before.push(c));
                assert(c@ == self@[i as int]);
                assert(component_views(rest@) =~= component_views(before).push(c@));
                assert(component_views(rest@) =~= self@.subrange(start as int, i + 1));
            }
            i = i + 1;
        }
        Some(rest)
    }

    /// The path as text, with `/` as separator.
    pub fn to_text(&self) -> (r: String)
        ensures
            r@ == path_text(self@),
    {
        if self.components.len() == 0 {
            let r = String::from_str("/");
            proof {
                reveal_strlit("/");
                assert(r@ =~= seq!['/']);
            }
            return r;
        }
        let mut out = String::new();
        let mut i: usize = 0;
        while i < self.components.len()
            invariant
                i <= self.components.len(),
                out@ == joined(self@.subrange(0, i as int)),
            decreases self.components.len() - i,
        {
            out.append("/");
            out.append(self.components[i].as_str());
            proof {
                reveal_strlit("/");
                let p = self@.subrange(0, i + 1);
                assert(p.drop_last() =~= self@.subrange(0, i as int));
            }
            i = i + 1;
        }
        proof {
            assert(self@.subrange(0, self@.len() as int) =~= self@);
        }
        out
    }
}

/// The components joined with `/`, with no leading slash.
pub fn relative_to_text(parts: &Vec<String>) -> (r: String)
    ensures
        r@ == relative_text(component_views(parts@)),
{
    let mut out = String::new();
    let mut i: usize = 0;
    while i < parts.len()
        invariant
            i <= parts.len(),
            out@ == relative_text(component_views(parts@).subrange(0, i as int)),
        decreases parts.len() - i,
    {
        if i > 0 {
            out.append("/");
        }
        out.append(parts[i].as_str());
        proof {
            reveal_strlit("/");
            let p = component_views(parts@).subrange(0, i + 1);
            assert(p.drop_last() =~= component_views(parts@).subrange(0, i as int));
            if i == 0 {
                assert(relative_text(component_views(parts@).subrange(0, 0)) =~= Seq::empty());
                assert(out@ =~= p[0]);
            }
        }
        i = i + 1;
    }
    proof {
        assert(component_views(parts@).subrange(0, parts@.len() as int) =~= component_views(
            parts@,
        ));
    }
    out
}

} // verus!
