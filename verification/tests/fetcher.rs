use nixpins::emit::{Context, Node};
use nixpins::fetcher::flake::Flake;
use nixpins::fetcher::github::Github;
use nixpins::fetcher::gitlab::Gitlab;
use nixpins::fetcher::{builder_node, Fetcher, Source};
use nixpins::prefetch::{prefetch_args, Locked, Original, Prefetched};
use nixpins::ser::to_string;
use nixpins::url::{Provider, Url};

fn github_source(owner: &str, repo: &str, rev: &str, hash: &str) -> Github {
    Github { owner: owner.into(), repo: repo.into(), rev: rev.into(), hash: hash.into() }
}

fn gitlab_source(owner: &str, repo: &str, rev: &str, hash: &str) -> Gitlab {
    Gitlab { owner: owner.into(), repo: repo.into(), rev: rev.into(), hash: hash.into() }
}

fn flake_source(tag: Option<&str>) -> Flake {
    Flake {
        url: Url {
            provider: Provider::Gitlab,
            owner: "acme".into(),
            repo: "widget".into(),
            tag: tag.map(|t| t.to_string()),
        },
        rev: "r1".into(),
        hash: "h1".into(),
    }
}

fn prefetched(kind: &str) -> Prefetched {
    Prefetched {
        hash: "sha256-abc".into(),
        locked: Locked {
            last_modified: 1700000000,
            nar_hash: Some("sha256-abc".into()),
            owner: "acme".into(),
            repo: "widget".into(),
            rev: "deadbeef".into(),
            kind: kind.into(),
        },
        original: Original { owner: "Acme".into(), repo: "Widget".into(), kind: kind.into() },
        store_path: "/nix/store/xyz-source".into(),
    }
}

fn on_one_line(text: &str) -> String {
    text.split_whitespace().collect::<Vec<_>>().join(" ")
}

#[test]
fn github_renders_as_a_call_of_its_builder() {
    let text = github_source("a", "b", "c", "d").node().emit(Context::default());
    assert_eq!(
        text,
        "fetchFromGitHub {\n  owner = \"a\";\n  repo = \"b\";\n  rev = \"c\";\n  hash = \"d\";\n}"
    );
    assert_eq!(
        on_one_line(&text),
        "fetchFromGitHub { owner = \"a\"; repo = \"b\"; rev = \"c\"; hash = \"d\"; }"
    );
}

#[test]
fn gitlab_renders_as_a_call_of_its_builder() {
    let text = gitlab_source("o", "r", "v", "h").node().emit(Context::default());
    assert_eq!(
        text,
        "fetchFromGitLab {\n  owner = \"o\";\n  repo = \"r\";\n  rev = \"v\";\n  hash = \"h\";\n}"
    );
}

#[test]
fn flake_renders_its_locator_without_the_tag() {
    let text = flake_source(Some("v2")).node().emit(Context::default());
    assert_eq!(
        text,
        "fetchFlake {\n  url = \"gitlab:acme/widget\";\n  rev = \"r1\";\n  hash = \"h1\";\n}"
    );
    assert_eq!(flake_source(None).node(), flake_source(Some("v2")).node());
}

#[test]
fn node_is_a_call_on_a_set_of_bindings() {
    let node = github_source("a", "b", "c", "d").node();
    let bind = |k: &str, v: &str| Node::assign(Node::ident(k), Node::string(v));
    assert_eq!(
        node,
        Node::call(
            Node::ident("fetchFromGitHub"),
            Node::Attrset(vec![
                bind("owner", "a"),
                bind("repo", "b"),
                bind("rev", "c"),
                bind("hash", "d"),
            ]),
        )
    );
}

#[test]
fn builder_node_keeps_the_order_of_the_attributes() {
    let node = builder_node("f", vec![("z", "1"), ("a", "2")]);
    assert_eq!(node.emit(Context::default()), "f {\n  z = \"1\";\n  a = \"2\";\n}");
    assert_eq!(builder_node("f", vec![]).emit(Context::default()), "f {\n\n}");
}

#[test]
fn function_names() {
    assert_eq!(github_source("a", "b", "c", "d").function_name(), "fetchFromGitHub");
    assert_eq!(gitlab_source("a", "b", "c", "d").function_name(), "fetchFromGitLab");
    assert_eq!(flake_source(None).function_name(), "fetchFlake");
    assert_eq!(
        Fetcher::Github(github_source("a", "b", "c", "d")).function_name(),
        "fetchFromGitHub"
    );
    assert_eq!(Fetcher::Gitlab(gitlab_source("a", "b", "c", "d")).fn_name(), "fetchFromGitLab");
    assert_eq!(Fetcher::Flake(flake_source(None)).fn_name(), "fetchFlake");
}

#[test]
fn hash_and_version() {
    let source = github_source("a", "b", "c", "d");
    assert_eq!(source.hash(), "d");
    assert_eq!(source.version(), "c");
    let source = gitlab_source("a", "b", "rev", "hash");
    assert_eq!(source.hash(), "hash");
    assert_eq!(source.version(), "rev");
    assert_eq!(flake_source(None).hash(), "h1");
    assert_eq!(flake_source(None).version(), "r1");
    let fetcher = Fetcher::Flake(flake_source(None));
    assert_eq!(fetcher.hash(), "h1");
    assert_eq!(fetcher.version(), "r1");
    assert_eq!(fetcher.rev(), "r1".to_string());
    assert_eq!(Fetcher::Github(github_source("a", "b", "c", "d")).rev(), "c");
}

#[test]
fn fetcher_renders_like_its_variant() {
    assert_eq!(
        Fetcher::Github(github_source("a", "b", "c", "d")).node(),
        github_source("a", "b", "c", "d").node()
    );
    assert_eq!(
        Fetcher::Gitlab(gitlab_source("a", "b", "c", "d")).node(),
        gitlab_source("a", "b", "c", "d").node()
    );
    assert_eq!(Fetcher::Flake(flake_source(None)).node(), flake_source(None).node());
}

#[test]
fn provider_of_a_resolution() {
    assert_eq!(prefetched("github").provider(), Some(Provider::Github));
    assert_eq!(prefetched("gitlab").provider(), Some(Provider::Gitlab));
    assert_eq!(prefetched("sourcehut").provider(), None);
    assert_eq!(prefetched("").provider(), None);
    assert_eq!(prefetched("GitHub").provider(), None);
}

#[test]
fn github_from_prefetched_takes_the_request_and_the_locked_revision() {
    assert_eq!(
        Github::from_prefetched(prefetched("github")),
        github_source("Acme", "Widget", "deadbeef", "sha256-abc")
    );
}

#[test]
fn gitlab_from_prefetched_takes_the_request_and_the_locked_revision() {
    assert_eq!(
        Gitlab::from_prefetched(prefetched("gitlab")),
        gitlab_source("Acme", "Widget", "deadbeef", "sha256-abc")
    );
}

#[test]
fn flake_from_prefetched() {
    let source = Flake::from_prefetched(prefetched("gitlab"));
    assert_eq!(source.rev, "deadbeef");
    assert_eq!(source.hash, "sha256-abc");
    assert_eq!(source.url, Url::try_from("github:juliamertz/nixpins".to_string()).unwrap());
}

#[test]
fn fetcher_from_prefetched_goes_by_the_provider() {
    assert_eq!(
        Fetcher::from_prefetched(prefetched("github")),
        Fetcher::Github(github_source("Acme", "Widget", "deadbeef", "sha256-abc"))
    );
    assert_eq!(
        Fetcher::from_prefetched(prefetched("gitlab")),
        Fetcher::Gitlab(gitlab_source("Acme", "Widget", "deadbeef", "sha256-abc"))
    );
}

#[test]
fn from_url_makes_a_flake_on_request() {
    let url = Url::try_from("github:acme/widget/main".to_string()).unwrap();
    assert_eq!(
        Fetcher::from_url(url.clone(), prefetched("github"), true),
        Fetcher::Flake(Flake {
            url: url.clone(),
            rev: "deadbeef".into(),
            hash: "sha256-abc".into()
        })
    );
    assert_eq!(
        Fetcher::from_url(url.clone(), prefetched("sourcehut"), true),
        Fetcher::Flake(Flake { url, rev: "deadbeef".into(), hash: "sha256-abc".into() })
    );
}

#[test]
fn from_url_goes_by_the_provider_otherwise() {
    let url = Url::try_from("github:acme/widget/main".to_string()).unwrap();
    assert_eq!(
        Fetcher::from_url(url.clone(), prefetched("gitlab"), false),
        Fetcher::Gitlab(gitlab_source("Acme", "Widget", "deadbeef", "sha256-abc"))
    );
    assert_eq!(
        Fetcher::from_url(url, prefetched("github"), false),
        Fetcher::Github(github_source("Acme", "Widget", "deadbeef", "sha256-abc"))
    );
}

#[test]
fn fetcher_as_a_value() {
    let fetcher = Fetcher::Github(github_source("a", "b", "c", "d"));
    assert_eq!(
        to_string(&fetcher.to_value()).unwrap(),
        "fetchFromGitHub{ owner = \"a\"; repo = \"b\"; rev = \"c\"; hash = \"d\"; }"
    );
    let fetcher = Fetcher::Gitlab(gitlab_source("a", "b", "c\"", "d"));
    assert_eq!(
        to_string(&fetcher.to_value()).unwrap(),
        "fetchFromGitLab{ owner = \"a\"; repo = \"b\"; rev = \"c\\\"\"; hash = \"d\"; }"
    );
    let fetcher = Fetcher::Flake(flake_source(Some("t")));
    assert_eq!(
        to_string(&fetcher.to_value()).unwrap(),
        "fetchFlake{ url = \"gitlab:acme/widget\"; rev = \"r1\"; hash = \"h1\"; }"
    );
}

#[test]
fn resolver_arguments() {
    let url = Url::try_from("github:acme/widget/main".to_string()).unwrap();
    assert_eq!(
        prefetch_args(&url),
        vec![
            "flake",
            "prefetch",
            "--refresh",
            "--extra-experimental-features",
            "'nix-command flakes'",
            "--json",
            "github:acme/widget/main",
        ]
    );
}
