//! What `nix flake metadata` and `git` report about the source, as the
//! summary shows it.

use vstd::prelude::*;

use crate::flake::Flake;
use crate::module::opt_view;

verus! {

/// A node of the flake's lock file.
#[derive(Debug, Clone)]
pub struct LockNode {
    /// The node's name.
    pub name: String,
    /// How many inputs the node has, when it lists them as an object.
    pub inputs: Option<usize>,
}

/// What `nix flake metadata --json` reports that the summary uses.
#[derive(Debug, Clone)]
pub struct FlakeMetadata {
    /// The flake's description, when it is a string.
    pub description: Option<String>,
    /// The name of the lock file's root node, when it is a string.
    pub root: Option<String>,
    /// The nodes of the lock file, each name listed once.
    pub nodes: Vec<LockNode>,
}

/// The root node's name: the one the lock file gives, else `root`.
pub open spec fn root_name(meta: FlakeMetadata) -> Seq<char> {
    match meta.root {
        Some(r) => r@,
        None => "root"@,
    }
}

/// How many inputs the first node named `name` has (none without such a
/// node, or when it lists no inputs object).
pub open spec fn node_inputs(nodes: Seq<LockNode>, name: Seq<char>) -> usize
    decreases nodes.len(),
{
    if nodes.len() == 0 {
        0
    } else if nodes[0].name@ == name {
        match nodes[0].inputs {
            Some(n) => n,
            None => 0,
        }
    } else {
        node_inputs(nodes.drop_first(), name)
    }
}

/// How many direct inputs the flake has: those of the lock file's root node.
pub fn input_count(meta: &FlakeMetadata) -> (r: usize)
    ensures
        r == node_inputs(meta.nodes@, root_name(*meta)),
{
    proof {
        reveal_strlit("root");
    }
    let root: String = match &meta.root {
        Some(r) => r.clone(),
        None => "root".to_owned(),
    };
    let mut i: usize = 0;
    assert(meta.nodes@.skip(0) =~= meta.nodes@);
    while i < meta.nodes.len()
        invariant
            i <= meta.nodes@.len(),
            root@ == root_name(*meta),
            node_inputs(meta.nodes@, root@) == node_inputs(meta.nodes@.skip(i as int), root@),
        decreases meta.nodes@.len() - i,
    {
        let ghost rest = meta.nodes@.skip(i as int);
        assert(rest.drop_first() =~= meta.nodes@.skip(i + 1));
        let node = &meta.nodes[i];
        if node.name.eq(&root) {
            return match node.inputs {
                Some(n) => n,
                None => 0,
            };
        }
        i = i + 1;
    }
    0
}

/// Whether `git status --porcelain` reported changes.
pub open spec fn is_dirty(status: Option<Seq<char>>) -> bool {
    status matches Some(s) && s.len() > 0
}

impl Flake {
    /// Records the display metadata of the source: from `metadata` (when
    /// `nix flake metadata` could be read) the description and the number of
    /// direct inputs, and the git state of the source tree from the outputs
    /// of `git rev-parse --abbrev-ref HEAD` (`branch`), `git rev-parse
    /// --short HEAD` (`commit`) and `git status --porcelain` (`status`).
    /// Without metadata, the description and input count stay as they were.
    pub fn extract_metadata(
        &mut self,
        metadata: Option<FlakeMetadata>,
        branch: Option<String>,
        commit: Option<String>,
        status: Option<String>,
    )
        ensures
            match metadata {
                Some(m) => {
                    &&& final(self).description == m.description
                    &&& final(self).input_count == node_inputs(m.nodes@, root_name(m))
                },
                None => {
                    &&& final(self).description == old(self).description
                    &&& final(self).input_count == old(self).input_count
                },
            },
            final(self).branch == branch,
            final(self).commit == commit,
            final(self).dirty == is_dirty(opt_view(status)),
            final(self).source == old(self).source,
            final(self).nixos_modules == old(self).nixos_modules,
            final(self).home_modules == old(self).home_modules,
    {
        match metadata {
            Some(m) => {
                self.input_count = input_count(&m);
                self.description = m.description;
            },
            None => {},
        }
        self.branch = branch;
        self.commit = commit;
        self.dirty = match &status {
            Some(s) => !s.as_str().is_empty(),
            None => false,
        };
    }
}

} // verus!
