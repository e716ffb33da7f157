//! The tool registry: every tool directory that holds a valid manifest, by
//! name and by category, and the reason each other directory was refused.

use vstd::prelude::*;
use crate::config::{join_path, path_join};
use crate::error::{ToolshedError, error_message};
use crate::manifest::{ManifestSource, ToolManifest, ToolType, manifest_problem};
use crate::namemap::NameMap;
use crate::text::{from_chars, to_chars};

verus! {

/// A loaded tool: its directory, its manifest, and for a native tool the
/// path of its `run` script.
#[derive(Debug)]
pub struct Tool {
    pub dir: String,
    pub manifest: ToolManifest,
    pub run_path: Option<String>,
}

/// What a scan of one directory under `tools/` found.
pub struct ToolDir {
    /// The directory's path.
    pub dir: String,
    /// The directory's name.
    pub dir_name: String,
    /// What reading `tool.json` gave, or `None` when there is none.
    pub manifest: Option<ManifestSource>,
    /// Whether a `run` file exists.
    pub has_run: bool,
    /// Whether `run` has an execute bit, when its permissions could be read.
    pub run_executable: Option<bool>,
}

/// The names of a sequence of strings.
pub open spec fn names_view(v: Seq<String>) -> Seq<Seq<char>> {
    v.map_values(|s: String| s@)
}

/// Why a directory is refused, as the message the registry records, or
/// `None` when it holds a tool.
pub open spec fn tool_dir_problem(d: ToolDir) -> Option<Seq<char>> {
    match d.manifest {
        None => Some("missing tool.json"@),
        Some(ManifestSource::Unreadable(e)) => Some(
            "bad manifest for tool '"@ + d.dir_name@ + "': "@ + "cannot read tool.json: "@ + e@,
        ),
        Some(ManifestSource::InvalidJson(e)) => Some(
            "bad manifest for tool '"@ + d.dir_name@ + "': "@ + "invalid JSON: "@ + e@,
        ),
        Some(ManifestSource::Parsed(m)) => match manifest_problem(m, d.dir_name@) {
            Some(reason) => Some("bad manifest for tool '"@ + d.dir_name@ + "': "@ + reason),
            None => if m.health is None {
                Some("tool manifest missing required health field"@)
            } else if m.tool_type == ToolType::Native && !d.has_run {
                Some("missing 'run' script"@)
            } else if m.tool_type == ToolType::Native && d.run_executable == Some(false) {
                Some("'run' script is not executable"@)
            } else {
                None
            },
        },
    }
}

/// The tools, by directory name; the tool names of each category, in the
/// order they were added; and the refused directories with their reasons.
pub struct Registry {
    pub by_category: NameMap<Vec<String>>,
    pub tools: NameMap<Tool>,
    pub errors: Vec<(String, String)>,
}

impl Registry {
    /// The registry's maps are well formed.
    pub open spec fn wf(self) -> bool {
        self.by_category.wf() && self.tools.wf()
    }

    /// An empty registry.
    pub fn new() -> (r: Self)
        ensures
            r.wf(),
            r.tools@ == Map::<Seq<char>, Tool>::empty(),
            r.by_category@ == Map::<Seq<char>, Vec<String>>::empty(),
            r.errors@.len() == 0,
    {
        Registry { by_category: NameMap::new(), tools: NameMap::new(), errors: Vec::new() }
    }

    fn refuse(&mut self, dir_name: &String, reason: String)
        ensures
            final(self).tools == old(self).tools,
            final(self).by_category == old(self).by_category,
            final(self).errors@ == old(self).errors@.push((final(self).errors@.last().0, reason)),
            final(self).errors@.last().0@ == dir_name@,
    {
        self.errors.push((from_chars(&to_chars(dir_name.as_str())), reason));
    }

    /// Adds what the scan of one directory found: its tool, or the reason
    /// it is refused.
    pub fn add_dir(&mut self, d: ToolDir)
        requires
            old(self).wf(),
        ensures
            final(self).wf(),
            match tool_dir_problem(d) {
                Some(reason) => final(self).tools@ == old(self).tools@ && final(self).by_category@
                    == old(self).by_category@ && final(self).errors@.len() == old(self).errors@.len()
                    + 1 && final(self).errors@.drop_last() == old(self).errors@
                    && final(self).errors@.last().0@ == d.dir_name@ && final(self).errors@.last().1@
                    == reason,
                None => {
                    let m = d.manifest->0->Parsed_0;
                    let t = final(self).tools@[d.dir_name@];
                    let cat = m.category@;
                    let before = if old(self).by_category@.contains_key(cat) {
                        names_view(old(self).by_category@[cat]@)
                    } else {
                        Seq::empty()
                    };
                    &&& final(self).errors@ == old(self).errors@
                    &&& final(self).tools@.dom() == old(self).tools@.dom().insert(d.dir_name@)
                    &&& forall|k: Seq<char>|
                        k != d.dir_name@ && #[trigger] old(self).tools@.contains_key(k) ==> final(self).tools@[k] == old(self).tools@[k]
                    &&& t.manifest == m
                    &&& t.dir@ == d.dir@
                    &&& match m.tool_type {
                        ToolType::Native => t.run_path matches Some(p) && p@ == crate::config::path_join(
                            d.dir@,
                            "run"@,
                        ),
                        ToolType::Mcp => t.run_path is None,
                    }
                    &&& final(self).by_category@.dom() == old(self).by_category@.dom().insert(cat)
                    &&& names_view(final(self).by_category@[cat]@) == before.push(d.dir_name@)
                    &&& forall|k: Seq<char>|
                        k != cat && #[trigger] old(self).by_category@.contains_key(k) ==> final(self).by_category@[k] == old(self).by_category@[k]
                },
            },
    {
        let ToolDir { dir, dir_name, manifest, has_run, run_executable } = d;
        let source = match manifest {
            None => {
                self.refuse(&dir_name, from_chars(&to_chars("missing tool.json")));
                return;
            },
            Some(s) => s,
        };
        let m = match ToolManifest::load_and_validate(source, dir_name.as_str()) {
            Err(e) => {
                let msg = e.message();
                self.refuse(&dir_name, msg);
                return;
            },
            Ok(m) => m,
        };
        if m.health.is_none() {
            self.refuse(&dir_name, from_chars(&to_chars("tool manifest missing required health field")));
            return;
        }
        let run_path = match m.tool_type {
            ToolType::Native => {
                if !has_run {
                    self.refuse(&dir_name, from_chars(&to_chars("missing 'run' script")));
                    return;
                }
                if run_executable == Some(false) {
                    self.refuse(&dir_name, from_chars(&to_chars("'run' script is not executable")));
                    return;
                }
                Some(join_path(dir.as_str(), "run"))
            },
            ToolType::Mcp => None,
        };
        let cat = from_chars(&to_chars(m.category.as_str()));
        let mut names = match self.by_category.remove(cat.as_str()) {
            Some(v) => v,
            None => Vec::new(),
        };
        names.push(from_chars(&to_chars(dir_name.as_str())));
        self.by_category.insert(cat, names);
        let key = from_chars(&to_chars(dir_name.as_str()));
        self.tools.insert(key, Tool { dir, manifest: m, run_path });
    }
}

} // verus!
