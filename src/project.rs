//! A project: a root directory registered for analysis, and the names of the
//! dependencies whose documentation is not indexed.

use crate::path::{is_ancestor_or_self, path_text, relative_text, relative_to_text, ProjectPath};
use vstd::prelude::*;

verus! {

#[verifier::external_type_specification]
#[verifier::external_body]
pub struct ExUrl(url::Url);

/// Relies on `url::Url::from_file_path`: builds a `file:` URL from a path text.
/// Whether it accepts a given text depends on the platform's notion of an
/// absolute path, so nothing is promised here about success.
#[verifier::external_body]
fn file_url(path: &String) -> (r: Option<url::Url>) {
    url::Url::from_file_path(std::path::Path::new(path.as_str())).ok()
}

/// How the tool server is reached by its clients.
#[derive(Debug, Clone, PartialEq, Eq)]
pub enum TransportType {
    Stdio,
    Sse { host: String, port: u16 },
}

/// The name of the directory, below a project root, that holds generated documentation.
pub open spec fn cache_folder_name() -> Seq<char> {
    seq!['.', 'd', 'o', 'c', 's', '-', 'c', 'a', 'c', 'h', 'e']
}

/// The message given when a path lies outside the project root.
pub open spec fn outside_root_message(path: Seq<Seq<char>>, root: Seq<Seq<char>>) -> Seq<char> {
    seq!['P', 'a', 't', 'h', ' ', '"'] + path_text(path) + seq![
        '"',
        ' ',
        'i',
        's',
        ' ',
        'n',
        'o',
        't',
        ' ',
        'i',
        'n',
        's',
        'i',
        'd',
        'e',
        ' ',
        'p',
        'r',
        'o',
        'j',
        'e',
        'c',
        't',
        ' ',
        'r',
        'o',
        'o',
        't',
        ' ',
        '"',
    ] + path_text(root) + seq!['"']
}

#[derive(Debug, Clone)]
pub struct Project {
    pub root: ProjectPath,
    pub ignore_crates: Vec<String>,
}

impl Project {
    /// A project rooted at `root` (a canonical absolute path), ignoring no dependency.
    pub fn new(root: ProjectPath) -> (r: Project)
        ensures
            r.root@ == root@,
            r.ignore_crates@.len() == 0,
    {
        Project { root, ignore_crates: Vec::new() }
    }

    pub fn ignore_crates(&self) -> (r: &Vec<String>)
        ensures
            r@ == self.ignore_crates@,
    {
        &self.ignore_crates
    }

    pub fn root(&self) -> (r: &ProjectPath)
        ensures
            r@ == self.root@,
    {
        &self.root
    }

    /// A `file:` URL for the project root.
    pub fn uri(&self) -> (r: Result<url::Url, String>)
        ensures
            r matches Err(e) ==> e@ == "Failed to create project root URI"@,
    {
        let text = self.root.to_text();
        match file_url(&text) {
            Some(u) => Ok(u),
            None => Err(String::from_str("Failed to create project root URI")),
        }
    }

    /// A `file:` URL for a file given by its components below the project root.
    pub fn file_uri(&self, relative: &Vec<String>) -> (r: Result<url::Url, String>)
        ensures
            r matches Err(e) ==> e@ == "Failed to create file URI"@,
    {
        let mut full = ProjectPath { components: self.root.components.clone() };
        let mut i: usize = 0;
        while i < relative.len()
            decreases relative.len() - i,
        {
            full = full.join(relative[i].as_str());
            i = i + 1;
        }
        let text = full.to_text();
        match file_url(&text) {
            Some(u) => Ok(u),
            None => Err(String::from_str("Failed to create file URI")),
        }
    }

    pub fn docs_dir(&self) -> (r: ProjectPath)
        ensures
            r@ == self.root@.push(cache_folder_name()).push(seq!['d', 'o', 'c']),
    {
        let r = self.cache_dir().join("doc");
        proof {
            reveal_strlit("doc");
            assert("doc"@ =~= seq!['d', 'o', 'c']);
        }
        r
    }

    pub fn cache_folder(&self) -> (r: &'static str)
        ensures
            r@ == cache_folder_name(),
    {
        let r = ".docs-cache";
        proof {
            reveal_strlit(".docs-cache");
            assert(r@ =~= cache_folder_name());
        }
        r
    }

    pub fn cache_dir(&self) -> (r: ProjectPath)
        ensures
            r@ == self.root@.push(cache_folder_name()),
    {
        self.root.join(self.cache_folder())
    }

    /// Whether a change at `path` is handed to the analysis engine: changes
    /// under the build output directory `target` of the root are not, since
    /// the engine's own builds write there.
    pub fn triggers_reanalysis(&self, path: &ProjectPath) -> (r: bool)
        ensures
            r == !is_ancestor_or_self(self.root@.push("target"@), path@),
    {
        let target = self.root.join("target");
        !path.starts_with(&target)
    }

    /// The path of `absolute_path` relative to the project root, with `/` as separator;
    /// an error when the path is not inside the root.
    pub fn relative_path(&self, absolute_path: &ProjectPath) -> (r: Result<String, String>)
        ensures
            r is Ok <==> is_ancestor_or_self(self.root@, absolute_path@),
            r matches Ok(s) ==> s@ == relative_text(
                absolute_path@.subrange(self.root@.len() as int, absolute_path@.len() as int),
            ),
            r matches Err(e) ==> e@ == outside_root_message(absolute_path@, self.root@),
    {
        match absolute_path.strip_prefix(&self.root) {
            Some(rest) => Ok(relative_to_text(&rest)),
            None => {
                let mut msg = String::from_str("Path \"");
                msg.append(absolute_path.to_text().as_str());
                msg.append("\" is not inside project root \"");
                msg.append(self.root.to_text().as_str());
                msg.append("\"");
                proof {
                    reveal_strlit("Path \"");
                    reveal_strlit("\" is not inside project root \"");
                    reveal_strlit("\"");
                    assert(msg@ =~= outside_root_message(absolute_path@, self.root@));
                }
                Err(msg)
            },
        }
    }
}

} // verus!
