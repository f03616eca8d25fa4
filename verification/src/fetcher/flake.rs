use vstd::prelude::*;
use crate::emit::Node;
use crate::fetcher::{attribute_views, builder_node, Attribute, Source};
use crate::prefetch::Prefetched;
use crate::url::{Locator, Provider, Url};

verus! {

/// A flake at one revision, by the locator it was asked for.
#[derive(Clone, Debug, PartialEq, Eq, Hash)]
pub struct Flake {
    pub url: Url,
    pub rev: String,
    pub hash: String,
}

impl Source for Flake {
    open spec fn accepts(pre: Prefetched) -> bool {
        true
    }

    open spec fn made_from(&self, pre: Prefetched) -> bool {
        &&& self.url@ == (Locator {
            provider: Provider::Github,
            owner: "juliamertz"@,
            repo: "nixpins"@,
            tag: None,
        })
        &&& self.rev == pre.locked.rev
        &&& self.hash == pre.hash
    }

    open spec fn spec_function_name(&self) -> Seq<char> {
        "fetchFlake"@
    }

    open spec fn spec_attributes(&self) -> Seq<Attribute> {
        seq![("url"@, self.url@.format_clean()), ("rev"@, self.rev@), ("hash"@, self.hash@)]
    }

    open spec fn spec_hash(&self) -> Seq<char> {
        self.hash@
    }

    open spec fn spec_version(&self) -> Seq<char> {
        self.rev@
    }

    fn function_name(&self) -> (name: &'static str) {
        "fetchFlake"
    }

    /// A resolution does not hold the locator that was asked for: the flake
    /// gets the locator `github:juliamertz/nixpins`. Where the locator is
    /// known, `Fetcher::from_url` keeps it.
    fn from_prefetched(pre: Prefetched) -> (source: Flake) {
        Flake {
            url: Url {
                provider: Provider::Github,
                owner: String::from_str("juliamertz"),
                repo: String::from_str("nixpins"),
                tag: None,
            },
            rev: pre.locked.rev,
            hash: pre.hash,
        }
    }

    fn hash(&self) -> (hash: &str) {
        self.hash.as_str()
    }

    fn version(&self) -> (version: &str) {
        self.rev.as_str()
    }

    fn node(&self) -> (node: Node) {
        let url = self.url.fmt_clean();
        let pairs = vec![
            ("url", url.as_str()),
            ("rev", self.rev.as_str()),
            ("hash", self.hash.as_str()),
        ];
        assert(attribute_views(pairs@) =~= self.spec_attributes());
        builder_node(self.function_name(), pairs)
    }
}

} // verus!
