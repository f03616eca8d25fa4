//! Source locators: `provider:owner/repo[/tag]` and
//! `https://host/owner/repo[/tag]`.
use vstd::prelude::*;
use crate::text::{chars_of, spells, string_of};

verus! {

/// The hosting services a locator can point at.
#[derive(Clone, Copy, Debug, PartialEq, Eq, Hash)]
pub enum Provider {
    Github,
    Gitlab,
}

/// A parsed locator.
///
/// For example `https://github.com/nixos/nixpkgs/nixos-unstable` and
/// `github:nixos/nixpkgs/nixos-unstable` both give the provider `Github`,
/// the owner `nixos`, the repo `nixpkgs` and the tag `nixos-unstable`.
/// A locator that `try_from` returns has an owner and a repo that are not
/// empty.
#[derive(Clone, Debug, PartialEq, Eq, Hash)]
pub struct Url {
    pub provider: Provider,
    pub owner: String,
    pub repo: String,
    pub tag: Option<String>,
}

/// What a `Url` stands for.
pub ghost struct Locator {
    pub provider: Provider,
    pub owner: Seq<char>,
    pub repo: Seq<char>,
    pub tag: Option<Seq<char>>,
}

/// Why a text is no locator.
#[derive(Clone, Debug, PartialEq, Eq)]
pub enum ParseError {
    /// The text is neither a shorthand of a known provider with one colon
    /// nor an `https://` address. Holds the text.
    Unparsable(String),
    /// The host of an `https://` address is not a known one. Holds the host.
    UnknownProvider(String),
    /// The owner is empty. Holds the text.
    MissingOwner(String),
    /// There is no repo, or it is empty. Holds the text.
    MissingRepo(String),
}

/// What a `ParseError` stands for.
pub ghost enum ParseFailure {
    Unparsable(Seq<char>),
    UnknownProvider(Seq<char>),
    MissingOwner(Seq<char>),
    MissingRepo(Seq<char>),
}

impl View for Url {
    type V = Locator;

    open spec fn view(&self) -> Locator {
        Locator {
            provider: self.provider,
            owner: self.owner@,
            repo: self.repo@,
            tag: match self.tag {
                Some(tag) => Some(tag@),
                None => None,
            },
        }
    }
}

impl View for ParseError {
    type V = ParseFailure;

    open spec fn view(&self) -> ParseFailure {
        match self {
            ParseError::Unparsable(text) => ParseFailure::Unparsable(text@),
            ParseError::UnknownProvider(host) => ParseFailure::UnknownProvider(host@),
            ParseError::MissingOwner(text) => ParseFailure::MissingOwner(text@),
            ParseError::MissingRepo(text) => ParseFailure::MissingRepo(text@),
        }
    }
}

impl ParseFailure {
    /// What to tell the user: what is wrong, and the text that is wrong.
    pub open spec fn message(self) -> Seq<char> {
        match self {
            ParseFailure::Unparsable(text) => "unable to parse provider from url: "@ + text,
            ParseFailure::UnknownProvider(host) => "unknown provider "@ + host,
            ParseFailure::MissingOwner(text) => "expected repo owner name in "@ + text,
            ParseFailure::MissingRepo(text) => "expected repo name in "@ + text,
        }
    }
}

impl ParseError {
    /// What to tell the user: what is wrong, and the text that is wrong.
    pub fn message(&self) -> (text: String)
        ensures
            text@ == self@.message(),
    {
        let (mut text, culprit) = match self {
            ParseError::Unparsable(input) => (
                String::from_str("unable to parse provider from url: "),
                input,
            ),
            ParseError::UnknownProvider(host) => (String::from_str("unknown provider "), host),
            ParseError::MissingOwner(input) => (
                String::from_str("expected repo owner name in "),
                input,
            ),
            ParseError::MissingRepo(input) => (String::from_str("expected repo name in "), input),
        };
        text.append(culprit.as_str());
        text
    }
}

/// The index of the first `c` in `s`; the length of `s` if there is none.
pub open spec fn index_of(s: Seq<char>, c: char) -> int
    decreases s.len(),
{
    if s.len() == 0 || s[0] == c {
        0
    } else {
        1 + index_of(s.drop_first(), c)
    }
}

/// The part of `s` in front of the first `c`; all of `s` if there is none.
pub open spec fn before(s: Seq<char>, c: char) -> Seq<char> {
    s.take(index_of(s, c))
}

/// The part of `s` behind the first `c`, if there is a `c`.
pub open spec fn after(s: Seq<char>, c: char) -> Option<Seq<char>> {
    if index_of(s, c) < s.len() {
        Some(s.skip(index_of(s, c) + 1))
    } else {
        None
    }
}

/// Whether `s` begins with `prefix`.
pub open spec fn starts_with(s: Seq<char>, prefix: Seq<char>) -> bool {
    prefix.len() <= s.len() && s.take(prefix.len() as int) == prefix
}

impl Provider {
    /// The prefix of a shorthand locator of this provider.
    pub open spec fn prefix(self) -> Seq<char> {
        match self {
            Provider::Github => "github"@,
            Provider::Gitlab => "gitlab"@,
        }
    }
}

/// The provider of a locator and what follows it: the owner, the repo and
/// the tag, still in one piece.
///
/// A shorthand is a provider's prefix, one colon, and the rest, which holds
/// no further colon. An address is `https://`, a known host, and the rest
/// behind the first slash.
pub open spec fn provider_of(input: Seq<char>) -> Result<(Provider, Seq<char>), ParseFailure> {
    let head = before(input, ':');
    if head == "github"@ || head == "gitlab"@ {
        let provider = if head == "github"@ {
            Provider::Github
        } else {
            Provider::Gitlab
        };
        match after(input, ':') {
            Some(rest) => if index_of(rest, ':') == rest.len() {
                Ok((provider, rest))
            } else {
                Err(ParseFailure::Unparsable(input))
            },
            None => Err(ParseFailure::Unparsable(input)),
        }
    } else if starts_with(input, "https://"@) {
        let suffix = input.skip("https://"@.len() as int);
        let host = before(suffix, '/');
        let rest = match after(suffix, '/') {
            Some(rest) => rest,
            None => Seq::empty(),
        };
        if host == "github.com"@ {
            Ok((Provider::Github, rest))
        } else if host == "gitlab.com"@ {
            Ok((Provider::Gitlab, rest))
        } else {
            Err(ParseFailure::UnknownProvider(host))
        }
    } else {
        Err(ParseFailure::Unparsable(input))
    }
}

/// The locator that `input` spells, or why it spells none.
///
/// Behind the provider stand the owner, the repo and, if a third segment is
/// there, the tag, with a slash between them. Segments behind the third are
/// not looked at.
pub open spec fn parse(input: Seq<char>) -> Result<Locator, ParseFailure> {
    match provider_of(input) {
        Err(failure) => Err(failure),
        Ok((provider, rest)) => match after(rest, '/') {
            None => Err(ParseFailure::MissingRepo(input)),
            Some(behind_owner) => {
                let owner = before(rest, '/');
                let repo = before(behind_owner, '/');
                let tag = match after(behind_owner, '/') {
                    Some(behind_repo) => Some(before(behind_repo, '/')),
                    None => None,
                };
                if owner.len() == 0 {
                    Err(ParseFailure::MissingOwner(input))
                } else if repo.len() == 0 {
                    Err(ParseFailure::MissingRepo(input))
                } else {
                    Ok(Locator { provider, owner, repo, tag })
                }
            },
        },
    }
}

impl Locator {
    /// Whether this locator names an owner and a repo.
    pub open spec fn well_formed(self) -> bool {
        self.owner.len() > 0 && self.repo.len() > 0
    }

    /// The shorthand without the tag: `provider:owner/repo`.
    pub open spec fn format_clean(self) -> Seq<char> {
        self.provider.prefix() + ":"@ + self.owner + "/"@ + self.repo
    }

    /// The shorthand: `provider:owner/repo`, and `/tag` if there is a tag.
    pub open spec fn format(self) -> Seq<char> {
        match self.tag {
            Some(tag) => self.format_clean() + "/"@ + tag,
            None => self.format_clean(),
        }
    }
}

/// The index of the first `c` in `chars[from..]`, or the length of `chars`.
fn find(chars: &Vec<char>, from: usize, c: char) -> (at: usize)
    requires
        from <= chars.len(),
    ensures
        from <= at <= chars.len(),
        at == from + index_of(chars@.skip(from as int), c),
{
    let mut at: usize = from;
    while at < chars.len() && chars[at] != c
        invariant
            from <= at <= chars.len(),
            index_of(chars@.skip(from as int), c) == (at - from) + index_of(
                chars@.skip(at as int),
                c,
            ),
        decreases chars.len() - at,
    {
        assert(chars@.skip(at as int).drop_first() =~= chars@.skip(at + 1));
        at += 1;
    }
    at
}

/// The provider that `url` names, and what follows it in one piece.
pub fn parse_provider(url: &str) -> (res: Result<(Provider, String), ParseError>)
    ensures
        match res {
            Ok((provider, rest)) => provider_of(url@) == Ok::<_, ParseFailure>((provider, rest@)),
            Err(error) => provider_of(url@) == Err::<(Provider, Seq<char>), _>(error@),
        },
{
    let chars = chars_of(url);
    let n = chars.len();
    let colon = find(&chars, 0, ':');
    proof {
        assert(chars@.skip(0) =~= chars@);
        assert(before(url@, ':') =~= chars@.subrange(0, colon as int));
    }
    let github = spells(&chars, 0, colon, "github");
    let gitlab = spells(&chars, 0, colon, "gitlab");
    if github || gitlab {
        let provider = if github {
            Provider::Github
        } else {
            Provider::Gitlab
        };
        if colon < n {
            let second = find(&chars, colon + 1, ':');
            if second == n {
                let rest = string_of(&chars, colon + 1, n);
                assert(chars@.skip(colon + 1) =~= rest@);
                return Ok((provider, rest));
            }
        }
        return Err(ParseError::Unparsable(url.to_owned()));
    }
    let scheme = chars_of("https://").len();
    if n < scheme {
        return Err(ParseError::Unparsable(url.to_owned()));
    }
    assert(url@.take(scheme as int) =~= chars@.subrange(0, scheme as int));
    if !spells(&chars, 0, scheme, "https://") {
        return Err(ParseError::Unparsable(url.to_owned()));
    }
    let slash = find(&chars, scheme, '/');
    let rest = if slash < n {
        string_of(&chars, slash + 1, n)
    } else {
        String::new()
    };
    proof {
        let suffix = url@.skip(scheme as int);
        assert(before(suffix, '/') =~= chars@.subrange(scheme as int, slash as int));
        if slash < n {
            assert(suffix.skip(slash - scheme + 1) =~= rest@);
        }
    }
    if spells(&chars, scheme, slash, "github.com") {
        Ok((Provider::Github, rest))
    } else if spells(&chars, scheme, slash, "gitlab.com") {
        Ok((Provider::Gitlab, rest))
    } else {
        Err(ParseError::UnknownProvider(string_of(&chars, scheme, slash)))
    }
}

/// `try_from` is specified by its own contract, over `parse`: a `Url` holds
/// strings, which no specification function can build.
impl vstd::std_specs::convert::TryFromSpecImpl<String> for Url {
    open spec fn obeys_try_from_spec() -> bool {
        false
    }

    open spec fn try_from_spec(value: String) -> Result<Url, ParseError> {
        arbitrary()
    }
}

impl TryFrom<String> for Url {
    type Error = ParseError;

    /// Parses a locator. What it returns names an owner and a repo.
    fn try_from(value: String) -> (res: Result<Url, ParseError>)
        ensures
            match res {
                Ok(url) => parse(value@) == Ok::<_, ParseFailure>(url@) && url@.well_formed(),
                Err(error) => parse(value@) == Err::<Locator, _>(error@),
            },
    {
        let (provider, rest) = match parse_provider(value.as_str()) {
            Ok(found) => found,
            Err(error) => {
                return Err(error);
            },
        };
        let chars = chars_of(rest.as_str());
        let n = chars.len();
        let owner_end = find(&chars, 0, '/');
        proof {
            assert(chars@.skip(0) =~= chars@);
            assert(before(rest@, '/') =~= chars@.subrange(0, owner_end as int));
        }
        if owner_end == n {
            return Err(ParseError::MissingRepo(value));
        }
        let repo_end = find(&chars, owner_end + 1, '/');
        let ghost behind_owner = rest@.skip(owner_end + 1);
        proof {
            assert(behind_owner =~= chars@.skip(owner_end + 1));
            assert(before(behind_owner, '/') =~= chars@.subrange(
                owner_end + 1,
                repo_end as int,
            ));
        }
        let tag = if repo_end < n {
            let tag_end = find(&chars, repo_end + 1, '/');
            proof {
                let behind_repo = behind_owner.skip(repo_end - owner_end);
                assert(behind_repo =~= chars@.skip(repo_end + 1));
                assert(before(behind_repo, '/') =~= chars@.subrange(
                    repo_end + 1,
                    tag_end as int,
                ));
            }
            Some(string_of(&chars, repo_end + 1, tag_end))
        } else {
            None
        };
        if owner_end == 0 {
            return Err(ParseError::MissingOwner(value));
        }
        if repo_end == owner_end + 1 {
            return Err(ParseError::MissingRepo(value));
        }
        Ok(
            Url {
                provider,
                owner: string_of(&chars, 0, owner_end),
                repo: string_of(&chars, owner_end + 1, repo_end),
                tag,
            },
        )
    }
}

impl Url {
    /// The shorthand of this locator without its tag, for use where the
    /// revision is kept beside the locator.
    pub fn fmt_clean(&self) -> (text: String)
        ensures
            text@ == self@.format_clean(),
    {
        let mut text = String::from_str(
            match self.provider {
                Provider::Github => "github",
                Provider::Gitlab => "gitlab",
            },
        );
        text.append(":");
        text.append(self.owner.as_str());
        text.append("/");
        text.append(self.repo.as_str());
        text
    }

    /// The shorthand of this locator, with its tag if it has one.
    pub fn fmt(&self) -> (text: String)
        ensures
            text@ == self@.format(),
    {
        let mut text = self.fmt_clean();
        if let Some(tag) = &self.tag {
            text.append("/");
            text.append(tag.as_str());
        }
        text
    }
}

/// The front of a text up to a character holds that character nowhere.
pub proof fn lemma_before_is_free(s: Seq<char>, c: char)
    ensures
        free_of(before(s, c), c),
        0 <= index_of(s, c) <= s.len(),
    decreases s.len(),
{
    if s.len() > 0 && s[0] != c {
        let tail = s.drop_first();
        lemma_before_is_free(tail, c);
        let rest = before(tail, c);
        assert(index_of(s, c) == 1 + index_of(tail, c));
        assert forall|i: int| 0 <= i < before(s, c).len() implies before(s, c)[i] != c by {
            assert(before(s, c)[i] == s[i]);
            if i > 0 {
                assert(rest[i - 1] == tail[i - 1]);
                assert(tail[i - 1] == s[i]);
            }
        }
    }
}

/// Every locator that parsing yields names an owner and a repo, and none of
/// its owner, its repo and its tag holds a slash.
pub proof fn lemma_parsed_is_well_formed(input: Seq<char>)
    ensures
        parse(input) matches Ok(locator) ==> {
            &&& locator.well_formed()
            &&& free_of(locator.owner, '/')
            &&& free_of(locator.repo, '/')
            &&& locator.tag matches Some(tag) ==> free_of(tag, '/')
        },
{
    if let Ok((provider, rest)) = provider_of(input) {
        lemma_before_is_free(rest, '/');
        if let Some(behind_owner) = after(rest, '/') {
            lemma_before_is_free(behind_owner, '/');
            if let Some(behind_repo) = after(behind_owner, '/') {
                lemma_before_is_free(behind_repo, '/');
            }
        }
    }
}

/// Whether `c` occurs nowhere in `s`.
pub open spec fn free_of(s: Seq<char>, c: char) -> bool {
    forall|i: int| 0 <= i < s.len() ==> s[i] != c
}

/// Whether `s` can stand as one segment of a shorthand: it holds neither
/// the colon that ends the provider nor the slash that ends a segment.
pub open spec fn is_segment(s: Seq<char>) -> bool {
    free_of(s, ':') && free_of(s, '/')
}

/// The first `c` of `a + c + b` stands right behind `a` when `a` holds none.
pub proof fn lemma_index_of_first(a: Seq<char>, c: char, b: Seq<char>)
    requires
        free_of(a, c),
    ensures
        index_of(a + seq![c] + b, c) == a.len(),
        before(a + seq![c] + b, c) == a,
        after(a + seq![c] + b, c) == Some(b),
    decreases a.len(),
{
    let whole = a + seq![c] + b;
    if a.len() == 0 {
        assert(whole[0] == c);
    } else {
        assert(whole[0] == a[0]);
        assert(whole.drop_first() =~= a.drop_first() + seq![c] + b);
        lemma_index_of_first(a.drop_first(), c, b);
    }
    assert(whole.take(a.len() as int) =~= a);
    assert(whole.skip(a.len() as int + 1) =~= b);
}

/// A text without `c` has no first `c`.
pub proof fn lemma_index_of_none(a: Seq<char>, c: char)
    requires
        free_of(a, c),
    ensures
        index_of(a, c) == a.len(),
        before(a, c) == a,
        after(a, c) == None::<Seq<char>>,
    decreases a.len(),
{
    if a.len() > 0 {
        lemma_index_of_none(a.drop_first(), c);
    }
    assert(a.take(a.len() as int) =~= a);
}

/// The shorthand of a locator parses back to that locator, so formatting
/// what was parsed gives the shorthand again, and formatting it clean gives
/// the shorthand without the tag. This holds of every locator whose owner
/// and repo are segments that are not empty and whose tag, if it has one, is
/// a segment.
pub proof fn lemma_shorthand_round_trip(locator: Locator)
    requires
        is_segment(locator.owner),
        locator.owner.len() > 0,
        is_segment(locator.repo),
        locator.repo.len() > 0,
        locator.tag matches Some(tag) ==> is_segment(tag),
    ensures
        parse(locator.format()) == Ok::<_, ParseFailure>(locator),
        parse(locator.format()) matches Ok(parsed) && parsed.format() == locator.format()
            && parsed.format_clean() == (Locator { tag: None, ..locator }).format(),
{
    reveal_strlit("github");
    reveal_strlit("gitlab");
    reveal_strlit(":");
    reveal_strlit("/");
    let prefix = locator.provider.prefix();
    let colon = seq![':'];
    let slash = seq!['/'];
    assert(":"@ =~= colon);
    assert("/"@ =~= slash);
    assert("github"@[3] != "gitlab"@[3]);
    let behind_owner = match locator.tag {
        Some(tag) => locator.repo + slash + tag,
        None => locator.repo,
    };
    let rest = locator.owner + slash + behind_owner;
    let input = locator.format();
    assert(input =~= prefix + colon + rest);
    assert(free_of(prefix, ':'));
    lemma_index_of_first(prefix, ':', rest);
    assert(free_of(rest, ':'));
    lemma_index_of_none(rest, ':');
    assert(provider_of(input) == Ok::<_, ParseFailure>((locator.provider, rest)));
    lemma_index_of_first(locator.owner, '/', behind_owner);
    match locator.tag {
        Some(tag) => {
            lemma_index_of_first(locator.repo, '/', tag);
            lemma_index_of_none(tag, '/');
        },
        None => {
            lemma_index_of_none(locator.repo, '/');
        },
    }
}

} // verus!
