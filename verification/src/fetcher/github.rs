use vstd::prelude::*;
use crate::emit::Node;
use crate::fetcher::{attribute_views, builder_node, Attribute, Source};
use crate::prefetch::Prefetched;

verus! {

/// A repository on GitHub at one revision.
#[derive(Clone, Debug, PartialEq, Eq, Hash)]
pub struct Github {
    pub owner: String,
    pub repo: String,
    pub rev: String,
    pub hash: String,
}

impl Source for Github {
    open spec fn accepts(pre: Prefetched) -> bool {
        pre.original.kind@ == "github"@
    }

    open spec fn made_from(&self, pre: Prefetched) -> bool {
        *self == (Github {
            owner: pre.original.owner,
            repo: pre.original.repo,
            rev: pre.locked.rev,
            hash: pre.hash,
        })
    }

    open spec fn spec_function_name(&self) -> Seq<char> {
        "fetchFromGitHub"@
    }

    open spec fn spec_attributes(&self) -> Seq<Attribute> {
        seq![
            ("owner"@, self.owner@),
            ("repo"@, self.repo@),
            ("rev"@, self.rev@),
            ("hash"@, self.hash@),
        ]
    }

    open spec fn spec_hash(&self) -> Seq<char> {
        self.hash@
    }

    open spec fn spec_version(&self) -> Seq<char> {
        self.rev@
    }

    fn function_name(&self) -> (name: &'static str) {
        "fetchFromGitHub"
    }

    /// The repository that was asked for, at the revision that the
    /// resolver locked.
    fn from_prefetched(pre: Prefetched) -> (source: Github) {
        Github {
            owner: pre.original.owner,
            repo: pre.original.repo,
            rev: pre.locked.rev,
            hash: pre.hash,
        }
    }

    fn hash(&self) -> (hash: &str) {
        self.hash.as_str()
    }

    fn version(&self) -> (version: &str) {
        self.rev.as_str()
    }

    fn node(&self) -> (node: Node) {
        let pairs = vec![
            ("owner", self.owner.as_str()),
            ("repo", self.repo.as_str()),
            ("rev", self.rev.as_str()),
            ("hash", self.hash.as_str()),
        ];
        assert(attribute_views(pairs@) =~= self.spec_attributes());
        builder_node(self.function_name(), pairs)
    }
}

} // verus!
