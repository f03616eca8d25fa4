//! What the resolver answers when it is asked for a locator.
use vstd::prelude::*;
use crate::text::{same_text, views};
use crate::url::{Provider, Url};

verus! {

/// The revision that a locator was resolved to.
#[derive(Debug, Clone, PartialEq, Eq)]
pub struct Locked {
    pub last_modified: i64,
    pub nar_hash: Option<String>,
    pub owner: String,
    pub repo: String,
    pub rev: String,
    /// The provider, as the resolver names it.
    pub kind: String,
}

/// The request as the resolver understood it.
#[derive(Debug, Clone, PartialEq, Eq)]
pub struct Original {
    pub owner: String,
    pub repo: String,
    /// The provider, as the resolver names it.
    pub kind: String,
}

/// One answer of the resolver. It is made once and used for one fetcher.
#[derive(Debug, Clone, PartialEq, Eq)]
pub struct Prefetched {
    pub hash: String,
    pub locked: Locked,
    pub original: Original,
    pub store_path: String,
}

impl Prefetched {
    /// The provider that the request named, if it is a known one.
    pub open spec fn spec_provider(self) -> Option<Provider> {
        if self.original.kind@ == "github"@ {
            Some(Provider::Github)
        } else if self.original.kind@ == "gitlab"@ {
            Some(Provider::Gitlab)
        } else {
            None
        }
    }

    /// The provider that the request named, if it is a known one.
    pub fn provider(&self) -> (provider: Option<Provider>)
        ensures
            provider == self.spec_provider(),
    {
        if same_text(self.original.kind.as_str(), "github") {
            Some(Provider::Github)
        } else if same_text(self.original.kind.as_str(), "gitlab") {
            Some(Provider::Gitlab)
        } else {
            None
        }
    }
}

/// The arguments with which the resolver, `nix`, is asked for `url`: a
/// fresh prefetch of the flake at the locator, answered in JSON.
pub fn prefetch_args(url: &Url) -> (args: Vec<String>)
    ensures
        views(args@) == seq![
            "flake"@,
            "prefetch"@,
            "--refresh"@,
            "--extra-experimental-features"@,
            "'nix-command flakes'"@,
            "--json"@,
            url@.format(),
        ],
{
    let args = vec![
        String::from_str("flake"),
        String::from_str("prefetch"),
        String::from_str("--refresh"),
        String::from_str("--extra-experimental-features"),
        String::from_str("'nix-command flakes'"),
        String::from_str("--json"),
        url.fmt(),
    ];
    assert(views(args@) =~= seq![
        "flake"@,
        "prefetch"@,
        "--refresh"@,
        "--extra-experimental-features"@,
        "'nix-command flakes'"@,
        "--json"@,
        url@.format(),
    ]);
    args
}

} // verus!
