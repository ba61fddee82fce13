//! The project registry: one entry per project root, each holding the
//! project's analysis session and its two indexing flags. Entries are added
//! and removed as whole units, looked up by root or by any path inside a
//! root, and summarised for observers.

use crate::docs::DocsNotification;
use crate::path::{is_ancestor_or_self, path_text, relative_text, ProjectPath};
use crate::progress::{status_text, LspNotification};
use crate::project::{Project, TransportType};
use crate::text::{decimal, push_decimal, replace_char, replace_char_text};
use crate::session::is_space;
use vstd::prelude::*;
use vstd::string::StrSliceExecFns;

verus! {

/// A path in the registry's model: the components below the filesystem root.
pub type PathView = Seq<Seq<char>>;

/// A registered project with its session and indexing flags.
#[derive(Debug)]
pub struct ProjectContext<S> {
    pub project: Project,
    pub session: S,
    pub is_indexing_lsp: bool,
    pub is_indexing_docs: bool,
}

/// A read-only summary of a registered project.
#[derive(Debug, Clone)]
pub struct ProjectDescription {
    pub root: ProjectPath,
    pub name: String,
    pub is_indexing_lsp: bool,
    pub is_indexing_docs: bool,
}

/// A stored project: its root as `/`-separated text, and its ignored dependencies.
#[derive(Debug, Clone)]
pub struct ConfigRecord {
    pub root: String,
    pub ignore_crates: Vec<String>,
}

/// An event of a tool invocation: the request or the response, as text.
#[derive(Debug, Clone)]
pub enum McpNotification {
    Request { content: String, project: ProjectPath },
    Response { content: String, project: ProjectPath },
}

/// An event published to observers of the registry.
#[derive(Debug, Clone)]
pub enum ContextNotification {
    Lsp(LspNotification),
    Docs(DocsNotification),
    Mcp(McpNotification),
    ProjectAdded(ProjectPath),
    ProjectRemoved(ProjectPath),
    ProjectDescriptions(Vec<ProjectDescription>),
}

/// Why a project could not be added.
#[derive(Debug)]
pub enum AddProjectError {
    RootMissing(ProjectPath),
    AlreadyExists,
    SessionFailed(String),
}

/// The first of the roots `path[..k]`, `path[..k-1]`, ..., `path[..0]` that is registered.
pub open spec fn owner_from(roots: Set<PathView>, path: PathView, k: int) -> Option<PathView>
    decreases k + 1,
{
    if k < 0 {
        None
    } else if roots.contains(path.subrange(0, k)) {
        Some(path.subrange(0, k))
    } else {
        owner_from(roots, path, k - 1)
    }
}

/// The registered root that owns `path`: `path` itself if registered, else its
/// nearest registered ancestor.
pub open spec fn owner(roots: Set<PathView>, path: PathView) -> Option<PathView> {
    owner_from(roots, path, path.len() as int)
}

/// No registered root lies inside another.
pub open spec fn roots_disjoint(roots: Set<PathView>) -> bool {
    forall|a: PathView, b: PathView|
        roots.contains(a) && roots.contains(b) && is_ancestor_or_self(a, b) ==> a == b
}

/// The text of the configuration that a tool client needs to reach the server.
pub open spec fn mcp_config_text(host: Seq<char>, port: int) -> Seq<char> {
    "\n{\n    \"mcpServers\": {\n        \"cursor_rust_tools\": {\n            \"url\": \"http://"@
        + host + ":"@ + decimal(port)
        + "/sse\",\n            \"env\": {\n                \"API_KEY\": \"\"\n            }\n        }\n    }\n}\n"@
}

/// The name of the configuration file kept in a directory.
pub open spec fn configuration_file_name() -> Seq<char> {
    ".cursor-rust-tools"@
}

/// The entries with the analysis-indexing flag of the one under `root` set to `v`.
pub open spec fn with_lsp_flag<S>(entries: Seq<ProjectContext<S>>, root: PathView, v: bool) -> Seq<ProjectContext<S>> {
    entries.map_values(|e: ProjectContext<S>| if e.project.root@ == root {
        ProjectContext { is_indexing_lsp: v, ..e }
    } else {
        e
    })
}

/// The entries with the documentation-indexing flag of the one under `root` set to `v`.
pub open spec fn with_docs_flag<S>(entries: Seq<ProjectContext<S>>, root: PathView, v: bool) -> Seq<ProjectContext<S>> {
    entries.map_values(|e: ProjectContext<S>| if e.project.root@ == root {
        ProjectContext { is_indexing_docs: v, ..e }
    } else {
        e
    })
}

/// The project registry. `S` is the handle of a project's analysis session.
pub struct Context<S> {
    projects: Vec<ProjectContext<S>>,
    transport: TransportType,
}

impl<S> Context<S> {
    /// The registered entries, in order of addition.
    pub closed spec fn entries(&self) -> Seq<ProjectContext<S>> {
        self.projects@
    }

    pub closed spec fn spec_transport(&self) -> TransportType {
        self.transport
    }

    /// The registered roots, in order of addition.
    pub open spec fn roots(&self) -> Seq<PathView> {
        self.entries().map_values(|e: ProjectContext<S>| e.project.root@)
    }

    /// The set of registered roots.
    pub open spec fn root_set(&self) -> Set<PathView> {
        Set::new(|r: PathView| self.roots().contains(r))
    }

    /// At most one entry per root.
    pub open spec fn wf(&self) -> bool {
        forall|i: int, j: int|
            0 <= i < self.roots().len() && 0 <= j < self.roots().len() && i != j
                ==> self.roots()[i] != self.roots()[j]
    }

    /// An empty registry serving over SSE on `localhost:port`.
    pub fn new(port: u16) -> (r: Context<S>)
        ensures
            r.wf(),
            r.entries().len() == 0,
            r.spec_transport() matches TransportType::Sse { host, port: p } && host@
                == "localhost"@ && p == port,
    {
        Self::with_transport(TransportType::Sse { host: String::from_str("localhost"), port })
    }

    /// An empty registry whose clients reach the server over `transport`.
    pub fn with_transport(transport: TransportType) -> (r: Context<S>)
        ensures
            r.wf(),
            r.entries().len() == 0,
            r.spec_transport() == transport,
    {
        Context { projects: Vec::new(), transport }
    }

    pub fn transport(&self) -> (r: &TransportType)
        ensures
            *r == self.spec_transport(),
    {
        &self.transport
    }

    /// The host and port the server listens on; `("stdio", 0)` over standard streams.
    pub fn address_information(&self) -> (r: (String, u16))
        ensures
            self.spec_transport() is Stdio ==> r.0@ == "stdio"@ && r.1 == 0,
            self.spec_transport() matches TransportType::Sse { host, port } ==> r.0@ == host@
                && r.1 == port,
    {
        match &self.transport {
            TransportType::Stdio => (String::from_str("stdio"), 0),
            TransportType::Sse { host, port } => (host.clone(), *port),
        }
    }

    /// The client configuration, with the server's host and port filled in.
    pub fn mcp_configuration(&self) -> (r: String)
        ensures
            self.spec_transport() is Stdio ==> r@ == mcp_config_text("stdio"@, 0),
            self.spec_transport() matches TransportType::Sse { host, port } ==> r@
                == mcp_config_text(host@, port as int),
    {
        let (host, port) = self.address_information();
        let mut out = String::from_str(
            "\n{\n    \"mcpServers\": {\n        \"cursor_rust_tools\": {\n            \"url\": \"http://",
        );
        out.append(host.as_str());
        out.append(":");
        push_decimal(&mut out, port as i128);
        out.append(
            "/sse\",\n            \"env\": {\n                \"API_KEY\": \"\"\n            }\n        }\n    }\n}\n",
        );
        out
    }

    /// The path of the configuration file kept in `project_root`.
    pub fn config_path(&self, project_root: &ProjectPath) -> (r: ProjectPath)
        ensures
            r@ == project_root@.push(configuration_file_name()),
    {
        project_root.join(".cursor-rust-tools")
    }

    /// The configuration file kept in `project_root`, as text.
    pub fn configuration_file(&self, project_root: &ProjectPath) -> (r: String)
        ensures
            r@ == path_text(project_root@.push(configuration_file_name())),
    {
        self.config_path(project_root).to_text()
    }

    pub fn len(&self) -> (r: usize)
        ensures
            r == self.entries().len(),
    {
        self.projects.len()
    }

    /// The position of the entry whose root is the first `k` components of `path`.
    fn index_of_prefix(&self, path: &ProjectPath, k: usize) -> (r: Option<usize>)
        requires
            k <= path@.len(),
        ensures
            r matches Some(i) ==> i < self.entries().len() && self.roots()[i as int]
                == path@.subrange(0, k as int),
            r is None ==> !self.root_set().contains(path@.subrange(0, k as int)),
    {
        let mut i: usize = 0;
        while i < self.projects.len()
            invariant
                i <= self.projects@.len(),
                k <= path@.len(),
                forall|j: int| 0 <= j < i ==> self.roots()[j] != path@.subrange(0, k as int),
            decreases self.projects.len() - i,
        {
            if crate::path::components_match_prefix(
                &self.projects[i].project.root.components,
                &path.components,
                k,
            ) {
                return Some(i);
            }
            i = i + 1;
        }
        None
    }

    /// The position of the entry registered under `root`.
    pub fn index_of(&self, root: &ProjectPath) -> (r: Option<usize>)
        ensures
            r matches Some(i) ==> i < self.entries().len() && self.roots()[i as int] == root@,
            r is None <==> !self.root_set().contains(root@),
    {
        let r = self.index_of_prefix(root, root.components.len());
        proof {
            assert(root@.subrange(0, root@.len() as int) =~= root@);
            if let Some(i) = r {
                assert(self.roots().contains(root@));
            }
        }
        r
    }

    /// The entry registered under `root`.
    pub fn get_project(&self, root: &ProjectPath) -> (r: Option<&ProjectContext<S>>)
        ensures
            r is None <==> !self.root_set().contains(root@),
            r matches Some(c) ==> c.project.root@ == root@ && self.entries().contains(*c),
    {
        match self.index_of(root) {
            Some(i) => {
                proof {
                    assert(self.entries()[i as int] == self.projects@[i as int]);
                }
                Some(&self.projects[i])
            },
            None => None,
        }
    }

    /// The entry that owns `path`: the one registered under `path` itself or
    /// under its nearest registered ancestor.
    pub fn get_project_by_path(&self, path: &ProjectPath) -> (r: Option<&ProjectContext<S>>)
        ensures
            r is None <==> owner(self.root_set(), path@) is None,
            r matches Some(c) ==> owner(self.root_set(), path@) == Some(c.project.root@)
                && self.entries().contains(*c),
    {
        let mut k: usize = path.components.len();
        loop
            invariant
                k <= path@.len(),
                owner(self.root_set(), path@) == owner_from(self.root_set(), path@, k as int),
            decreases k,
        {
            match self.index_of_prefix(path, k) {
                Some(i) => {
                    proof {
                        assert(self.roots().contains(self.roots()[i as int]));
                        assert(self.entries()[i as int] == self.projects@[i as int]);
                    }
                    return Some(&self.projects[i]);
                },
                None => {},
            }
            if k == 0 {
                proof {
                    assert(owner_from(self.root_set(), path@, -1) is None);
                }
                return None;
            }
            k = k - 1;
        }
    }

    /// Whether adding `project` can go ahead: its root must exist on disk and
    /// must not be registered yet.
    pub fn check_add(&self, project: &Project, root_exists: bool) -> (r: Result<(), AddProjectError>)
        ensures
            !root_exists ==> (r matches Err(AddProjectError::RootMissing(p)) && p@
                == project.root@),
            root_exists && self.root_set().contains(project.root@) ==> r matches Err(
                AddProjectError::AlreadyExists,
            ),
            root_exists && !self.root_set().contains(project.root@) ==> r is Ok,
    {
        if !root_exists {
            return Err(
                AddProjectError::RootMissing(
                    ProjectPath::from_components(project.root.components.clone()),
                ),
            );
        }
        if self.index_of(&project.root).is_some() {
            return Err(AddProjectError::AlreadyExists);
        }
        Ok(())
    }

    /// Adds `project` with the outcome of starting its session. Nothing
    /// changes unless the root exists, is not registered yet and the session
    /// started; then the project is added with both indexing flags clear.
    pub fn add_project(&mut self, project: Project, root_exists: bool, session: Result<S, String>) -> (r: Result<(), AddProjectError>)
        requires
            old(self).wf(),
        ensures
            final(self).wf(),
            final(self).spec_transport() == old(self).spec_transport(),
            !root_exists ==> (r matches Err(AddProjectError::RootMissing(p)) && p@
                == project.root@),
            root_exists && old(self).root_set().contains(project.root@) ==> r matches Err(
                AddProjectError::AlreadyExists,
            ),
            root_exists && !old(self).root_set().contains(project.root@) && session is Err
                ==> (r matches Err(AddProjectError::SessionFailed(e)) && e == session->Err_0),
            r is Err ==> final(self).entries() == old(self).entries(),
            r is Ok <==> root_exists && !old(self).root_set().contains(project.root@)
                && session is Ok,
            r is Ok ==> final(self).entries() == old(self).entries().push(
                ProjectContext {
                    project,
                    session: session->Ok_0,
                    is_indexing_lsp: false,
                    is_indexing_docs: false,
                },
            ),
            r is Ok ==> final(self).root_set() == old(self).root_set().insert(project.root@),
    {
        match self.check_add(&project, root_exists) {
            Err(e) => Err(e),
            Ok(()) => match session {
                Err(e) => Err(AddProjectError::SessionFailed(e)),
                Ok(s) => {
                    let ghost before = self.projects@;
                    let ghost root = project.root@;
                    self.projects.push(
                        ProjectContext {
                            project,
                            session: s,
                            is_indexing_lsp: false,
                            is_indexing_docs: false,
                        },
                    );
                    proof {
                        assert(self.roots() =~= old(self).roots().push(root));
                        let olds = old(self).roots();
                        assert forall|x: PathView| #[trigger]
                            self.root_set().contains(x) == old(self).root_set().insert(root).contains(x) by {
                            if self.roots().contains(x) {
                                let j = choose|j: int| 0 <= j < self.roots().len() && self.roots()[j] == x;
                                if j < olds.len() {
                                    assert(olds[j] == x);
                                }
                            }
                            if olds.contains(x) {
                                let j = choose|j: int| 0 <= j < olds.len() && olds[j] == x;
                                assert(self.roots()[j] == x);
                            }
                            if x == root {
                                assert(self.roots()[olds.len() as int] == x);
                            }
                        }
                        assert(self.root_set() =~= old(self).root_set().insert(root));
                        assert forall|i: int, j: int|
                            0 <= i < self.roots().len() && 0 <= j < self.roots().len() && i
                                != j implies self.roots()[i] != self.roots()[j] by {
                            if i == self.roots().len() - 1 {
                                assert(old(self).roots().contains(self.roots()[j]));
                            } else if j == self.roots().len() - 1 {
                                assert(old(self).roots().contains(self.roots()[i]));
                            }
                        }
                    }
                    Ok(())
                },
            },
        }
    }

    /// Removes the entry registered under `root` and hands it back; none, and
    /// no change, when nothing is registered there.
    pub fn remove_project(&mut self, root: &ProjectPath) -> (r: Option<ProjectContext<S>>)
        requires
            old(self).wf(),
        ensures
            final(self).wf(),
            final(self).spec_transport() == old(self).spec_transport(),
            r is Some <==> old(self).root_set().contains(root@),
            r is None ==> final(self).entries() == old(self).entries(),
            r matches Some(c) ==> c.project.root@ == root@ && exists|i: int|
                0 <= i < old(self).entries().len() && old(self).entries()[i] == c
                    && final(self).entries() == old(self).entries().remove(i),
            final(self).root_set() == old(self).root_set().remove(root@),
    {
        match self.index_of(root) {
            None => {
                proof {
                    assert(self.root_set() =~= old(self).root_set().remove(root@));
                }
                None
            },
            Some(i) => {
                let c = self.projects.remove(i);
                proof {
                    let olds = old(self).roots();
                    assert(self.roots() =~= olds.remove(i as int));
                    assert forall|x: PathView| #[trigger]
                        self.root_set().contains(x) == old(self).root_set().remove(
                            root@,
                        ).contains(x) by {
                        if self.roots().contains(x) {
                            let j = choose|j: int| 0 <= j < self.roots().len() && self.roots()[j] == x;
                            if j < i {
                                assert(olds[j] == x);
                            } else {
                                assert(olds[j + 1] == x);
                            }
                        }
                        if old(self).root_set().remove(root@).contains(x) {
                            let j = choose|j: int| 0 <= j < olds.len() && olds[j] == x;
                            assert(j != i);
                            if j < i {
                                assert(self.roots()[j] == x);
                            } else {
                                assert(self.roots()[j - 1] == x);
                            }
                        }
                    }
                    assert(self.root_set() =~= old(self).root_set().remove(root@));
                    assert(old(self).entries()[i as int] == c);
                }
                Some(c)
            },
        }
    }

    /// Sets the analysis-indexing flag of the project registered under `root`, if any.
    pub fn set_indexing_lsp(&mut self, root: &ProjectPath, value: bool)
        requires
            old(self).wf(),
        ensures
            final(self).wf(),
            final(self).spec_transport() == old(self).spec_transport(),
            final(self).roots() == old(self).roots(),
            final(self).entries() == with_lsp_flag(old(self).entries(), root@, value),
    {
        match self.index_of(root) {
            Some(i) => {
                let mut c = self.projects.remove(i);
                c.is_indexing_lsp = value;
                self.projects.insert(i, c);
                proof {
                    let olde = old(self).entries();
                    assert(self.entries().len() == olde.len());
                    assert forall|j: int| 0 <= j < olde.len() implies self.entries()[j]
                        == with_lsp_flag(olde, root@, value)[j] by {
                        assert(old(self).roots()[j] == olde[j].project.root@);
                        if j != i {
                            assert(old(self).roots()[j] != old(self).roots()[i as int]);
                        }
                    }
                    assert(self.entries() =~= with_lsp_flag(old(self).entries(), root@, value));
                    assert(self.roots() =~= old(self).roots());
                }
            },
            None => {
                proof {
                    let olde = old(self).entries();
                    assert forall|j: int| 0 <= j < olde.len() implies olde[j]
                        == with_lsp_flag(olde, root@, value)[j] by {
                        assert(old(self).roots()[j] == olde[j].project.root@);
                        if olde[j].project.root@ == root@ {
                            assert(old(self).roots().contains(root@));
                        }
                    }
                    assert(self.entries() =~= with_lsp_flag(old(self).entries(), root@, value));
                }
            },
        }
    }

    /// Sets the documentation-indexing flag of the project registered under `root`, if any.
    pub fn set_indexing_docs(&mut self, root: &ProjectPath, value: bool)
        requires
            old(self).wf(),
        ensures
            final(self).wf(),
            final(self).spec_transport() == old(self).spec_transport(),
            final(self).roots() == old(self).roots(),
            final(self).entries() == with_docs_flag(old(self).entries(), root@, value),
    {
        match self.index_of(root) {
            Some(i) => {
                let mut c = self.projects.remove(i);
                c.is_indexing_docs = value;
                self.projects.insert(i, c);
                proof {
                    let olde = old(self).entries();
                    assert(self.entries().len() == olde.len());
                    assert forall|j: int| 0 <= j < olde.len() implies self.entries()[j]
                        == with_docs_flag(olde, root@, value)[j] by {
                        assert(old(self).roots()[j] == olde[j].project.root@);
                        if j != i {
                            assert(old(self).roots()[j] != old(self).roots()[i as int]);
                        }
                    }
                    assert(self.entries() =~= with_docs_flag(old(self).entries(), root@, value));
                    assert(self.roots() =~= old(self).roots());
                }
            },
            None => {
                proof {
                    let olde = old(self).entries();
                    assert forall|j: int| 0 <= j < olde.len() implies olde[j]
                        == with_docs_flag(olde, root@, value)[j] by {
                        assert(old(self).roots()[j] == olde[j].project.root@);
                        if olde[j].project.root@ == root@ {
                            assert(old(self).roots().contains(root@));
                        }
                    }
                    assert(self.entries() =~= with_docs_flag(old(self).entries(), root@, value));
                }
            },
        }
    }

    /// A summary of every registered project, in order of addition.
    pub fn project_descriptions(&self) -> (r: Vec<ProjectDescription>)
        ensures
            r@.len() == self.entries().len(),
            forall|i: int|
                0 <= i < r@.len() ==> describes(#[trigger] r@[i], self.entries()[i]),
    {
        let mut r: Vec<ProjectDescription> = Vec::new();
        let mut i: usize = 0;
        while i < self.projects.len()
            invariant
                i <= self.projects@.len(),
                r@.len() == i,
                forall|j: int| 0 <= j < i ==> describes(#[trigger] r@[j], self.entries()[j]),
            decreases self.projects.len() - i,
        {
            let c = &self.projects[i];
            let name = match c.project.root.file_name() {
                Some(n) => n.clone(),
                None => String::new(),
            };
            r.push(
                ProjectDescription {
                    root: ProjectPath::from_components(c.project.root.components.clone()),
                    name,
                    is_indexing_lsp: c.is_indexing_lsp,
                    is_indexing_docs: c.is_indexing_docs,
                },
            );
            proof {
                assert(self.entries()[i as int] == self.projects@[i as int]);
                assert(describes(r@[i as int], self.entries()[i as int]));
            }
            i = i + 1;
        }
        r
    }

    /// The registered roots, in order of addition.
    pub fn project_roots(&self) -> (r: Vec<ProjectPath>)
        ensures
            r@.len() == self.entries().len(),
            forall|i: int| 0 <= i < r@.len() ==> (#[trigger] r@[i])@ == self.roots()[i],
    {
        let mut r: Vec<ProjectPath> = Vec::new();
        let mut i: usize = 0;
        while i < self.projects.len()
            invariant
                i <= self.projects@.len(),
                r@.len() == i,
                forall|j: int| 0 <= j < i ==> (#[trigger] r@[j])@ == self.roots()[j],
            decreases self.projects.len() - i,
        {
            r.push(ProjectPath::from_components(self.projects[i].project.root.components.clone()));
            i = i + 1;
        }
        r
    }

    /// The records to store for the registered projects: each root as text
    /// with `/` separators, and its ignored dependencies.
    pub fn config_records(&self) -> (r: Vec<ConfigRecord>)
        ensures
            r@.len() == self.entries().len(),
            forall|i: int|
                0 <= i < r@.len() ==> (#[trigger] r@[i]).root@ == replace_char(
                    path_text(self.roots()[i]),
                    '\\',
                    "/"@,
                ) && r@[i].ignore_crates@ == self.entries()[i].project.ignore_crates@,
    {
        let mut r: Vec<ConfigRecord> = Vec::new();
        let mut i: usize = 0;
        while i < self.projects.len()
            invariant
                i <= self.projects@.len(),
                r@.len() == i,
                forall|j: int|
                    0 <= j < i ==> (#[trigger] r@[j]).root@ == replace_char(
                        path_text(self.roots()[j]),
                        '\\',
                        "/"@,
                    ) && r@[j].ignore_crates@ == self.entries()[j].project.ignore_crates@,
            decreases self.projects.len() - i,
        {
            let c = &self.projects[i];
            let text = c.project.root.to_text();
            let root = replace_char_text(text.as_str(), '\\', "/");
            r.push(ConfigRecord { root, ignore_crates: c.project.ignore_crates.clone() });
            proof {
                assert(self.entries()[i as int] == self.projects@[i as int]);
            }
            i = i + 1;
        }
        r
    }

    /// Flips the documentation-indexing flag of the project under `root`;
    /// an error when no project is registered there.
    pub fn force_index_docs(&mut self, root: &ProjectPath) -> (r: Result<(), String>)
        requires
            old(self).wf(),
        ensures
            final(self).wf(),
            final(self).spec_transport() == old(self).spec_transport(),
            r is Ok <==> old(self).root_set().contains(root@),
            r matches Err(e) ==> e@ == "Project not found"@,
            r is Err ==> final(self).entries() == old(self).entries(),
            r is Ok ==> exists|i: int|
                0 <= i < old(self).entries().len() && old(self).roots()[i] == root@
                    && final(self).entries() == with_docs_flag(
                    old(self).entries(),
                    root@,
                    !old(self).entries()[i].is_indexing_docs,
                ),
    {
        match self.index_of(root) {
            None => Err(String::from_str("Project not found")),
            Some(i) => {
                let current = self.projects[i].is_indexing_docs;
                proof {
                    assert(self.entries()[i as int] == self.projects@[i as int]);
                }
                self.set_indexing_docs(root, !current);
                Ok(())
            },
        }
    }

    /// The pause or resume command for the indexing of the project under
    /// `root`; an error when no project is registered there.
    pub fn toggle_indexing_pause(&self, root: &ProjectPath, should_pause: bool) -> (r: Result<LspNotification, String>)
        ensures
            r is Ok <==> self.root_set().contains(root@),
            r matches Err(e) ==> e@ == "Project not found"@,
            r matches Ok(n) ==> (n matches LspNotification::IndexingPauseResume { project, should_pause: s }
                && project@ == root@ && s == should_pause),
    {
        match self.index_of(root) {
            None => Err(String::from_str("Project not found")),
            Some(_) => Ok(
                LspNotification::IndexingPauseResume {
                    project: ProjectPath::from_components(root.components.clone()),
                    should_pause,
                },
            ),
        }
    }

    /// Takes in an event of an analysis session: indexing events set the
    /// project's analysis flag and are passed on; pause and resume commands
    /// are not passed on.
    pub fn handle_lsp(&mut self, n: LspNotification) -> (r: Option<ContextNotification>)
        requires
            old(self).wf(),
        ensures
            final(self).wf(),
            final(self).spec_transport() == old(self).spec_transport(),
            n is IndexingPauseResume ==> r is None && final(self).entries() == old(self).entries(),
            n matches LspNotification::IndexingProgress(p) ==> r == Some(ContextNotification::Lsp(n))
                && final(self).entries() == with_lsp_flag(old(self).entries(), p.project@, p.is_indexing),
            n matches LspNotification::Indexing { project, is_indexing } ==> r == Some(ContextNotification::Lsp(n))
                && final(self).entries() == with_lsp_flag(old(self).entries(), project@, is_indexing),
    {
        match &n {
            LspNotification::IndexingProgress(p) => {
                self.set_indexing_lsp(&p.project, p.is_indexing);
            },
            LspNotification::Indexing { project, is_indexing } => {
                self.set_indexing_lsp(project, *is_indexing);
            },
            LspNotification::IndexingPauseResume { .. } => {
                return None;
            },
        }
        Some(ContextNotification::Lsp(n))
    }

    /// Takes in an event of a documentation index: it sets the project's
    /// documentation flag and is passed on.
    pub fn handle_docs(&mut self, n: DocsNotification) -> (r: ContextNotification)
        requires
            old(self).wf(),
        ensures
            final(self).wf(),
            final(self).spec_transport() == old(self).spec_transport(),
            r == ContextNotification::Docs(n),
            n matches DocsNotification::Indexing { project, is_indexing } ==> final(self).entries()
                == with_docs_flag(old(self).entries(), project@, is_indexing),
    {
        match &n {
            DocsNotification::Indexing { project, is_indexing } => {
                self.set_indexing_docs(project, *is_indexing);
            },
        }
        ContextNotification::Docs(n)
    }

    /// The project that owns `file`, and the path of `file` relative to its
    /// root; an error naming the file when no registered root contains it.
    pub fn project_for_file(&self, file: &ProjectPath) -> (r: Result<(&ProjectContext<S>, String), String>)
        ensures
            r is Err <==> owner(self.root_set(), file@) is None,
            r matches Err(e) ==> e@ == "No project found for file "@ + path_text(file@),
            r matches Ok((c, rel)) ==> owner(self.root_set(), file@) == Some(c.project.root@)
                && self.entries().contains(*c) && rel@ == relative_text(
                file@.subrange(c.project.root@.len() as int, file@.len() as int),
            ),
    {
        match self.get_project_by_path(file) {
            None => {
                let mut e = String::from_str("No project found for file ");
                e.append(file.to_text().as_str());
                Err(e)
            },
            Some(c) => {
                proof {
                    lemma_owner_is_ancestor(self.root_set(), file@, file@.len() as int);
                }
                match c.project.relative_path(file) {
                    Ok(rel) => Ok((c, rel)),
                    Err(e) => Err(e),
                }
            },
        }
    }
}


/// A summary describes an entry: same root, the root's last component as
/// name (empty for the filesystem root), and the same flags.
pub open spec fn describes<S>(d: ProjectDescription, c: ProjectContext<S>) -> bool {
    &&& d.root@ == c.project.root@
    &&& d.name@ == (if c.project.root@.len() == 0 {
        Seq::<char>::empty()
    } else {
        c.project.root@.last()
    })
    &&& d.is_indexing_lsp == c.is_indexing_lsp
    &&& d.is_indexing_docs == c.is_indexing_docs
}

/// What `owner_from` finds is registered and is a prefix of `path` no longer than `k`.
pub proof fn lemma_owner_is_ancestor(roots: Set<PathView>, path: PathView, k: int)
    requires
        k <= path.len(),
    ensures
        owner_from(roots, path, k) matches Some(r) ==> roots.contains(r) && is_ancestor_or_self(r, path)
            && r.len() <= k,
    decreases k + 1,
{
    if k >= 0 && !roots.contains(path.subrange(0, k)) {
        lemma_owner_is_ancestor(roots, path, k - 1);
    }
}

/// Any registered prefix of `path` no longer than `k` is found, and what is
/// found is at least as long.
proof fn lemma_owner_finds(roots: Set<PathView>, path: PathView, k: int, j: int)
    requires
        0 <= j <= k <= path.len(),
        roots.contains(path.subrange(0, j)),
    ensures
        owner_from(roots, path, k) matches Some(r) && r.len() >= j,
    decreases k + 1,
{
    if !roots.contains(path.subrange(0, k)) {
        lemma_owner_finds(roots, path, k - 1, j);
    }
}

/// Looking up any path inside a registered root finds that root, when no
/// registered root lies inside another.
pub proof fn lemma_lookup_finds_enclosing_root<S>(ctx: &Context<S>, root: PathView, path: PathView)
    requires
        ctx.wf(),
        roots_disjoint(ctx.root_set()),
        ctx.root_set().contains(root),
        is_ancestor_or_self(root, path),
    ensures
        owner(ctx.root_set(), path) == Some(root),
{
    let roots = ctx.root_set();
    assert(path.subrange(0, root.len() as int) == root);
    lemma_owner_finds(roots, path, path.len() as int, root.len() as int);
    lemma_owner_is_ancestor(roots, path, path.len() as int);
    let found = owner(roots, path)->0;
    assert(found.subrange(0, root.len() as int) =~= path.subrange(0, root.len() as int));
    assert(is_ancestor_or_self(root, found));
}

/// Looking up a path that lies outside every registered root finds nothing.
pub proof fn lemma_lookup_outside_roots<S>(ctx: &Context<S>, path: PathView)
    requires
        ctx.wf(),
        forall|r: PathView| ctx.root_set().contains(r) ==> !is_ancestor_or_self(r, path),
    ensures
        owner(ctx.root_set(), path) is None,
{
    lemma_owner_is_ancestor(ctx.root_set(), path, path.len() as int);
}

/// The registered roots after a run of successful additions (`true`) and
/// removals (`false`), starting from `start`.
pub open spec fn replay(start: Set<PathView>, ops: Seq<(bool, PathView)>) -> Set<PathView>
    decreases ops.len(),
{
    if ops.len() == 0 {
        start
    } else {
        let prev = replay(start, ops.drop_last());
        if ops.last().0 {
            prev.insert(ops.last().1)
        } else {
            prev.remove(ops.last().1)
        }
    }
}

/// The roots added by `ops` and not removed after their last addition.
pub open spec fn live_roots(ops: Seq<(bool, PathView)>) -> Set<PathView> {
    Set::new(
        |r: PathView|
            exists|i: int|
                0 <= i < ops.len() && #[trigger] ops[i] == (true, r) && forall|j: int|
                    i < j < ops.len() ==> #[trigger] ops[j] != (false, r),
    )
}

/// Through any run of additions and removals on an empty registry, the
/// registered roots are exactly those added and not removed since.
pub proof fn lemma_registry_tracks_operations(ops: Seq<(bool, PathView)>)
    ensures
        replay(Set::empty(), ops) == live_roots(ops),
    decreases ops.len(),
{
    if ops.len() == 0 {
        assert(live_roots(ops) =~= Set::empty());
    } else {
        let prefix = ops.drop_last();
        lemma_registry_tracks_operations(prefix);
        let n = ops.len() - 1;
        let (add, x) = ops.last();
        assert forall|r: PathView| #[trigger] live_roots(ops).contains(r) == replay(Set::empty(), ops).contains(r) by {
            if r == x {
                if add {
                    assert(ops[n] == (true, r));
                    assert(live_roots(ops).contains(r));
                } else {
                    if live_roots(ops).contains(r) {
                        let i = choose|i: int|
                            0 <= i < ops.len() && #[trigger] ops[i] == (true, r) && forall|j: int|
                                i < j < ops.len() ==> #[trigger] ops[j] != (false, r);
                        assert(i != n);
                        assert(ops[n] == (false, r));
                    }
                }
            } else {
                if live_roots(ops).contains(r) {
                    let i = choose|i: int|
                        0 <= i < ops.len() && #[trigger] ops[i] == (true, r) && forall|j: int|
                            i < j < ops.len() ==> #[trigger] ops[j] != (false, r);
                    assert(i != n);
                    assert(prefix[i] == (true, r));
                    assert forall|j: int| i < j < prefix.len() implies #[trigger] prefix[j] != (false, r) by {
                        assert(ops[j] == prefix[j]);
                    }
                    assert(live_roots(prefix).contains(r));
                }
                if live_roots(prefix).contains(r) {
                    let i = choose|i: int|
                        0 <= i < prefix.len() && #[trigger] prefix[i] == (true, r) && forall|j: int|
                            i < j < prefix.len() ==> #[trigger] prefix[j] != (false, r);
                    assert(ops[i] == (true, r));
                    assert forall|j: int| i < j < ops.len() implies #[trigger] ops[j] != (false, r) by {
                        if j < n {
                            assert(ops[j] == prefix[j]);
                        }
                    }
                    assert(live_roots(ops).contains(r));
                }
            }
        }
        assert(live_roots(ops) =~= replay(Set::empty(), ops));
    }
}


pub open spec fn started_or_finished(b: bool) -> Seq<char> {
    if b {
        "Started"@
    } else {
        "Finished"@
    }
}

/// A path in double quotes.
pub open spec fn quoted_path(p: PathView) -> Seq<char> {
    "\""@ + path_text(p) + "\""@
}

/// The human-readable text of a notification at time `now`.
pub open spec fn notification_text(n: ContextNotification, now: int) -> Seq<char> {
    match n {
        ContextNotification::Lsp(LspNotification::Indexing { is_indexing, .. }) => "LSP Indexing: "@
            + started_or_finished(is_indexing),
        ContextNotification::Lsp(LspNotification::IndexingProgress(p)) => "LSP Indexing: "@
            + status_text(p, now),
        ContextNotification::Lsp(LspNotification::IndexingPauseResume { should_pause, .. }) => "LSP Indexing: "@
            + (if should_pause {
            "Paused"@
        } else {
            "Resumed"@
        }),
        ContextNotification::Docs(DocsNotification::Indexing { is_indexing, .. }) => "Docs Indexing: "@
            + started_or_finished(is_indexing),
        ContextNotification::Mcp(McpNotification::Request { content, .. }) => "MCP Request: "@
            + content@,
        ContextNotification::Mcp(McpNotification::Response { content, .. }) => "MCP Response: "@
            + content@,
        ContextNotification::ProjectAdded(p) => "Project Added: "@ + quoted_path(p@),
        ContextNotification::ProjectRemoved(p) => "Project Removed: "@ + quoted_path(p@),
        ContextNotification::ProjectDescriptions(_) => "Project Descriptions"@,
    }
}

/// The path a notification is routed under, as text; a fixed label for the
/// list of project summaries.
pub open spec fn routing_text(n: ContextNotification) -> Seq<char> {
    match n {
        ContextNotification::Lsp(LspNotification::Indexing { project, .. }) => path_text(project@),
        ContextNotification::Lsp(LspNotification::IndexingProgress(p)) => path_text(p.project@),
        ContextNotification::Lsp(LspNotification::IndexingPauseResume { project, .. }) => path_text(project@),
        ContextNotification::Docs(DocsNotification::Indexing { project, .. }) => path_text(project@),
        ContextNotification::Mcp(McpNotification::Request { project, .. }) => path_text(project@),
        ContextNotification::Mcp(McpNotification::Response { project, .. }) => path_text(project@),
        ContextNotification::ProjectAdded(p) => path_text(p@),
        ContextNotification::ProjectRemoved(p) => path_text(p@),
        ContextNotification::ProjectDescriptions(_) => "project_descriptions"@,
    }
}

fn quote_path(out: &mut String, p: &ProjectPath)
    ensures
        final(out)@ == old(out)@ + quoted_path(p@),
{
    out.append("\"");
    out.append(p.to_text().as_str());
    out.append("\"");
}

fn started_finished_text(b: bool) -> (r: &'static str)
    ensures
        r@ == started_or_finished(b),
{
    if b {
        "Started"
    } else {
        "Finished"
    }
}

impl ContextNotification {
    /// The path this notification is routed under, as text.
    pub fn notification_path(&self) -> (r: String)
        ensures
            r@ == routing_text(*self),
    {
        match self {
            ContextNotification::Lsp(LspNotification::Indexing { project, .. }) => project.to_text(),
            ContextNotification::Lsp(LspNotification::IndexingProgress(p)) => p.project.to_text(),
            ContextNotification::Lsp(LspNotification::IndexingPauseResume { project, .. }) => project.to_text(),
            ContextNotification::Docs(DocsNotification::Indexing { project, .. }) => project.to_text(),
            ContextNotification::Mcp(McpNotification::Request { project, .. }) => project.to_text(),
            ContextNotification::Mcp(McpNotification::Response { project, .. }) => project.to_text(),
            ContextNotification::ProjectAdded(p) => p.to_text(),
            ContextNotification::ProjectRemoved(p) => p.to_text(),
            ContextNotification::ProjectDescriptions(_) => String::from_str("project_descriptions"),
        }
    }

    /// A human-readable description at time `now`.
    pub fn description_at(&self, now: i64) -> (r: String)
        ensures
            r@ == notification_text(*self, now as int),
    {
        match self {
            ContextNotification::Lsp(LspNotification::Indexing { is_indexing, .. }) => {
                let mut out = String::from_str("LSP Indexing: ");
                out.append(started_finished_text(*is_indexing));
                out
            },
            ContextNotification::Lsp(LspNotification::IndexingProgress(p)) => {
                let mut out = String::from_str("LSP Indexing: ");
                out.append(p.status_message_at(now).as_str());
                out
            },
            ContextNotification::Lsp(LspNotification::IndexingPauseResume { should_pause, .. }) => {
                let mut out = String::from_str("LSP Indexing: ");
                out.append(if *should_pause { "Paused" } else { "Resumed" });
                out
            },
            ContextNotification::Docs(DocsNotification::Indexing { is_indexing, .. }) => {
                let mut out = String::from_str("Docs Indexing: ");
                out.append(started_finished_text(*is_indexing));
                out
            },
            ContextNotification::Mcp(McpNotification::Request { content, .. }) => {
                let mut out = String::from_str("MCP Request: ");
                out.append(content.as_str());
                out
            },
            ContextNotification::Mcp(McpNotification::Response { content, .. }) => {
                let mut out = String::from_str("MCP Response: ");
                out.append(content.as_str());
                out
            },
            ContextNotification::ProjectAdded(p) => {
                let mut out = String::from_str("Project Added: ");
                quote_path(&mut out, p);
                out
            },
            ContextNotification::ProjectRemoved(p) => {
                let mut out = String::from_str("Project Removed: ");
                quote_path(&mut out, p);
                out
            },
            ContextNotification::ProjectDescriptions(_) => String::from_str("Project Descriptions"),
        }
    }

    /// A human-readable description now.
    pub fn description(&self) -> (r: String)
        ensures
            exists|t: i64| r@ == #[trigger] notification_text(*self, t as int),
    {
        let now = crate::progress::current_time_millis();
        self.description_at(now)
    }
}

impl AddProjectError {
    /// The error as text.
    pub fn message(&self) -> (r: String)
        ensures
            self matches AddProjectError::RootMissing(p) ==> r@ == "Project root does not exist: "@
                + quoted_path(p@),
            self is AlreadyExists ==> r@ == "Project already exists"@,
            self matches AddProjectError::SessionFailed(e) ==> r@ == "Failed to initialize LSP: "@
                + e@,
    {
        match self {
            AddProjectError::RootMissing(p) => {
                let mut out = String::from_str("Project root does not exist: ");
                quote_path(&mut out, p);
                out
            },
            AddProjectError::AlreadyExists => String::from_str("Project already exists"),
            AddProjectError::SessionFailed(e) => {
                let mut out = String::from_str("Failed to initialize LSP: ");
                out.append(e.as_str());
                out
            },
        }
    }
}


/// The roots of a list of project summaries.
pub open spec fn described_roots(projects: Seq<ProjectDescription>) -> Set<PathView> {
    Set::new(|r: PathView| exists|i: int| 0 <= i < projects.len() && #[trigger] projects[i].root@ == r)
}

/// The root, among the summarised projects, that owns `path`: `path` itself
/// or its nearest ancestor that is a project root.
pub fn find_root_project(path: &ProjectPath, projects: &Vec<ProjectDescription>) -> (r: Option<ProjectPath>)
    ensures
        r is None <==> owner(described_roots(projects@), path@) is None,
        r matches Some(p) ==> owner(described_roots(projects@), path@) == Some(p@),
{
    let ghost roots = described_roots(projects@);
    let mut k: usize = path.components.len();
    loop
        invariant
            k <= path@.len(),
            roots == described_roots(projects@),
            owner(roots, path@) == owner_from(roots, path@, k as int),
        decreases k,
    {
        let mut i: usize = 0;
        while i < projects.len()
            invariant
                i <= projects@.len(),
                k <= path@.len(),
                roots == described_roots(projects@),
                owner(roots, path@) == owner_from(roots, path@, k as int),
                forall|j: int| 0 <= j < i ==> projects@[j].root@ != path@.subrange(0, k as int),
            decreases projects.len() - i,
        {
            if crate::path::components_match_prefix(&projects[i].root.components, &path.components, k) {
                proof {
                    assert(projects@[i as int].root@ == path@.subrange(0, k as int));
                    assert(roots.contains(path@.subrange(0, k as int)));
                }
                return Some(ProjectPath::from_components(projects[i].root.components.clone()));
            }
            i = i + 1;
        }
        proof {
            if roots.contains(path@.subrange(0, k as int)) {
                let j = choose|j: int| 0 <= j < projects@.len() && #[trigger] projects@[j].root@ == path@.subrange(0, k as int);
                assert(projects@[j].root@ != path@.subrange(0, k as int));
            }
        }
        if k == 0 {
            proof {
                assert(owner_from(roots, path@, -1) is None);
            }
            return None;
        }
        k = k - 1;
    }
}

/// A configuration text with each backslash doubled, so that Windows paths
/// written by hand read as TOML strings.
pub fn escape_backslashes(text: &str) -> (r: String)
    ensures
        r@ == replace_char(text@, '\\', "\\\\"@),
{
    replace_char_text(text, '\\', "\\\\")
}

/// Whether a text holds nothing but white space.
pub fn is_blank(text: &str) -> (r: bool)
    ensures
        r == forall|i: int| 0 <= i < text@.len() ==> is_space(#[trigger] text@[i]),
{
    let n = text.unicode_len();
    let mut i: usize = 0;
    while i < n
        invariant
            n == text@.len(),
            i <= n,
            forall|j: int| 0 <= j < i ==> is_space(#[trigger] text@[j]),
        decreases n - i,
    {
        if !crate::session::space_char(text.get_char(i)) {
            return false;
        }
        i = i + 1;
    }
    true
}
} // verus!
