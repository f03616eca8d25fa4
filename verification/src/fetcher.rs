//! Fetchers: how to get a resolved source again, and how to write that down
//! as a call of a builder.
use vstd::prelude::*;
use crate::emit::{block_lines, lemma_render_each, outer, render_each, view_each, Expr, Node};
use crate::fetcher::flake::Flake;
use crate::fetcher::github::Github;
use crate::fetcher::gitlab::Gitlab;
use crate::prefetch::Prefetched;
use crate::ser::escaping::{is_plain_text, lemma_plain_text_is_kept};
use crate::ser::trace::Trace;
use crate::ser::value::{data_fields, Data, Field, Value};
use crate::text::spaces;
use crate::url::{Provider, Url};

pub mod flake;
pub mod github;
pub mod gitlab;

verus! {

/// One attribute of a builder call: its name and its content.
pub type Attribute = (Seq<char>, Seq<char>);

/// The attributes as bindings of a string to a name each, in order.
pub open spec fn bindings(attributes: Seq<Attribute>) -> Seq<Expr> {
    Seq::new(
        attributes.len(),
        |i: int|
            Expr::Assign(
                Box::new(Expr::Identifier(attributes[i].0)),
                Box::new(Expr::String(attributes[i].1)),
            ),
    )
}

/// The call of the builder `function` on a set of the attributes, in order.
pub open spec fn builder_call(function: Seq<char>, attributes: Seq<Attribute>) -> Expr {
    Expr::Call(
        Box::new(Expr::Identifier(function)),
        Box::new(Expr::Attrset(bindings(attributes))),
    )
}

/// What each of `pairs` holds.
pub open spec fn attribute_views(pairs: Seq<(&str, &str)>) -> Seq<Attribute> {
    Seq::new(pairs.len(), |i: int| (pairs[i].0@, pairs[i].1@))
}

/// The call of the builder `function` on a set of the attributes `pairs`.
pub fn builder_node(function: &str, pairs: Vec<(&str, &str)>) -> (node: Node)
    ensures
        node@ == builder_call(function@, attribute_views(pairs@)),
{
    let mut items: Vec<Node> = Vec::new();
    let mut i: usize = 0;
    while i < pairs.len()
        invariant
            i <= pairs.len(),
            items.len() == i,
            view_each(items@) == bindings(attribute_views(pairs@)).take(i as int),
        decreases pairs.len() - i,
    {
        let item = Node::assign(Node::ident(pairs[i].0), Node::string(pairs[i].1));
        proof {
            assert(items@.push(item).drop_last() =~= items@);
        }
        items.push(item);
        i += 1;
    }
    assert(bindings(attribute_views(pairs@)).take(pairs.len() as int) =~= bindings(
        attribute_views(pairs@),
    ));
    Node::call(Node::ident(function), Node::Attrset(items))
}

/// The line of one attribute in a builder call: `name = "content";`.
pub open spec fn attribute_line(attribute: Attribute) -> Seq<char> {
    attribute.0 + " = "@ + "\""@ + attribute.1 + "\""@ + ";"@
}

/// The line of each attribute, in order.
pub open spec fn attribute_lines(attributes: Seq<Attribute>) -> Seq<Seq<char>> {
    Seq::new(attributes.len(), |i: int| attribute_line(attributes[i]))
}

/// The text of a builder call: the name of the builder, a space, and a
/// block with one line per attribute, in the order of the attributes, each
/// indented at `depth`; the block closes at the indentation above `depth`.
pub proof fn lemma_builder_call_text(
    function: Seq<char>,
    attributes: Seq<Attribute>,
    depth: nat,
    width: nat,
)
    ensures
        builder_call(function, attributes).render(depth, width) == function + " "@ + "{\n"@
            + block_lines(attribute_lines(attributes), depth, width) + "\n"@ + spaces(
            outer(depth) * width,
        ) + "}"@,
{
    let items = bindings(attributes);
    lemma_render_each(items, depth + 1, width);
    assert forall|i: int| 0 <= i < attributes.len() implies (#[trigger] render_each(
        items,
        depth + 1,
        width,
    )[i]) == attribute_lines(attributes)[i] by {
        let binding = items[i];
        let name = Expr::Identifier(attributes[i].0);
        let content = Expr::String(attributes[i].1);
        assert(binding == Expr::Assign(Box::new(name), Box::new(content)));
        assert(name.render(depth + 1, width) == attributes[i].0);
        assert(content.render(depth + 1, width) == "\""@ + attributes[i].1 + "\""@);
        assert(binding.render(depth + 1, width) == name.render(depth + 1, width) + " = "@
            + content.render(depth + 1, width) + ";"@);
        assert(binding.render(depth + 1, width) =~= attribute_line(attributes[i]));
    }
    assert(render_each(items, depth + 1, width) =~= attribute_lines(attributes));
    let call = builder_call(function, attributes);
    let set = Expr::Attrset(items);
    assert(set.render(depth, width) == "{\n"@ + block_lines(
        render_each(items, depth + 1, width),
        depth,
        width,
    ) + "\n"@ + spaces(outer(depth) * width) + "}"@);
    assert(Expr::Identifier(function).render(depth, width) == function);
    assert(call.render(depth, width) == function + " "@ + set.render(depth, width));
    assert(call.render(depth, width) =~= function + " "@ + "{\n"@ + block_lines(
        attribute_lines(attributes),
        depth,
        width,
    ) + "\n"@ + spaces(outer(depth) * width) + "}"@);
}

/// The two ways of writing a string agree wherever escaping has nothing to
/// do: a string without a NUL character that escaping leaves as it is gives
/// the same literal as a value and as a node of an expression.
pub proof fn lemma_string_literals_agree(s: Seq<char>, depth: nat, width: nat)
    requires
        !s.contains('\0'),
        is_plain_text(s),
    ensures
        Data::Str(s).trace() == Trace::wrote(Expr::String(s).render(depth, width)),
{
    lemma_plain_text_is_kept(s);
}

/// What every kind of fetcher can do.
pub trait Source: Sized {
    /// Whether a fetcher of this kind can be made from `pre`.
    spec fn accepts(pre: Prefetched) -> bool;

    /// Whether this is the fetcher that is made from `pre`.
    spec fn made_from(&self, pre: Prefetched) -> bool;

    /// The name of the builder that fetches this source.
    spec fn spec_function_name(&self) -> Seq<char>;

    /// The attributes that the builder is called with, in the order in
    /// which they are written.
    spec fn spec_attributes(&self) -> Seq<Attribute>;

    /// The hash of the content.
    spec fn spec_hash(&self) -> Seq<char>;

    /// The revision that is pinned.
    spec fn spec_version(&self) -> Seq<char>;

    /// The name of the builder that fetches this source.
    fn function_name(&self) -> (name: &'static str)
        ensures
            name@ == self.spec_function_name(),
    ;

    /// The call of the builder, as an expression.
    fn node(&self) -> (node: Node)
        ensures
            node@ == builder_call(self.spec_function_name(), self.spec_attributes()),
    ;

    /// The fetcher for what the resolver answered.
    fn from_prefetched(pre: Prefetched) -> (source: Self)
        requires
            Self::accepts(pre),
        ensures
            source.made_from(pre),
    ;

    /// The hash of the content.
    fn hash(&self) -> (hash: &str)
        ensures
            hash@ == self.spec_hash(),
    ;

    /// The revision that is pinned.
    fn version(&self) -> (version: &str)
        ensures
            version@ == self.spec_version(),
    ;
}

/// A fetcher of any kind.
#[derive(Clone, Debug, PartialEq, Eq, Hash)]
pub enum Fetcher {
    Github(Github),
    Gitlab(Gitlab),
    Flake(Flake),
}

/// The attributes as the named fields of a struct, each a string.
pub open spec fn string_fields(attributes: Seq<Attribute>) -> Seq<(Seq<char>, Data)> {
    Seq::new(attributes.len(), |i: int| (attributes[i].0, Data::Str(attributes[i].1)))
}

impl Fetcher {
    /// The fetcher of the provider that the resolver was asked about, if
    /// that is a known one.
    pub open spec fn resolved(pre: Prefetched) -> Option<Fetcher> {
        match pre.spec_provider() {
            Some(Provider::Github) => Some(
                Fetcher::Github(
                    Github {
                        owner: pre.original.owner,
                        repo: pre.original.repo,
                        rev: pre.locked.rev,
                        hash: pre.hash,
                    },
                ),
            ),
            Some(Provider::Gitlab) => Some(
                Fetcher::Gitlab(
                    Gitlab {
                        owner: pre.original.owner,
                        repo: pre.original.repo,
                        rev: pre.locked.rev,
                        hash: pre.hash,
                    },
                ),
            ),
            None => None,
        }
    }

    /// The fetcher for the locator `url`, given what the resolver answered
    /// when it was asked for it: a flake that keeps the locator if `flake`
    /// is set, else the fetcher of the provider that the answer names.
    pub fn from_url(url: Url, pre: Prefetched, flake: bool) -> (fetcher: Fetcher)
        requires
            flake || Fetcher::accepts(pre),
        ensures
            flake ==> fetcher == Fetcher::Flake(
                (Flake { url, rev: pre.locked.rev, hash: pre.hash }),
            ),
            !flake ==> Some(fetcher) == Fetcher::resolved(pre),
    {
        if flake {
            Fetcher::Flake(Flake { url, rev: pre.locked.rev, hash: pre.hash })
        } else {
            Fetcher::from_prefetched(pre)
        }
    }

    /// The name of the builder that fetches this source.
    pub fn fn_name(&self) -> (name: &'static str)
        ensures
            name@ == self.spec_function_name(),
    {
        self.function_name()
    }

    /// A copy of the revision that is pinned.
    pub fn rev(&self) -> (rev: String)
        ensures
            rev@ == self.spec_version(),
    {
        self.version().to_owned()
    }

    /// This fetcher as a structured value: a variant named like the
    /// builder, with the attributes as its fields.
    pub fn to_value(&self) -> (value: Value)
        ensures
            value@ == Data::StructVariant(
                self.spec_function_name(),
                string_fields(self.spec_attributes()),
            ),
    {
        let url = match self {
            Fetcher::Flake(flake) => flake.url.fmt_clean(),
            _ => String::new(),
        };
        let pairs = match self {
            Fetcher::Github(github) => vec![
                ("owner", github.owner.as_str()),
                ("repo", github.repo.as_str()),
                ("rev", github.rev.as_str()),
                ("hash", github.hash.as_str()),
            ],
            Fetcher::Gitlab(gitlab) => vec![
                ("owner", gitlab.owner.as_str()),
                ("repo", gitlab.repo.as_str()),
                ("rev", gitlab.rev.as_str()),
                ("hash", gitlab.hash.as_str()),
            ],
            Fetcher::Flake(flake) => vec![
                ("url", url.as_str()),
                ("rev", flake.rev.as_str()),
                ("hash", flake.hash.as_str()),
            ],
        };
        assert(attribute_views(pairs@) =~= self.spec_attributes());
        let mut fields: Vec<Field> = Vec::new();
        let mut i: usize = 0;
        while i < pairs.len()
            invariant
                i <= pairs.len(),
                fields.len() == i,
                data_fields(fields@) == string_fields(attribute_views(pairs@)).take(i as int),
            decreases pairs.len() - i,
        {
            let field = Field {
                name: pairs[i].0.to_owned(),
                value: Value::Str(pairs[i].1.to_owned()),
            };
            proof {
                let next = fields@.push(field);
                assert(next.drop_last() =~= fields@);
                assert(next.last() == field);
                assert(field.value.data() == Data::Str(pairs@[i as int].1@));
                assert(data_fields(next) == data_fields(fields@).push(
                    (field.name@, field.value.data()),
                ));
                assert(data_fields(next) =~= string_fields(attribute_views(pairs@)).take(i + 1));
            }
            fields.push(field);
            i += 1;
        }
        assert(string_fields(attribute_views(pairs@)).take(pairs.len() as int) =~= string_fields(
            attribute_views(pairs@),
        ));
        Value::StructVariant(self.function_name().to_owned(), fields)
    }
}

impl Source for Fetcher {
    open spec fn accepts(pre: Prefetched) -> bool {
        pre.spec_provider() is Some
    }

    open spec fn made_from(&self, pre: Prefetched) -> bool {
        Some(*self) == Fetcher::resolved(pre)
    }

    open spec fn spec_function_name(&self) -> Seq<char> {
        match self {
            Fetcher::Github(source) => source.spec_function_name(),
            Fetcher::Gitlab(source) => source.spec_function_name(),
            Fetcher::Flake(source) => source.spec_function_name(),
        }
    }

    open spec fn spec_attributes(&self) -> Seq<Attribute> {
        match self {
            Fetcher::Github(source) => source.spec_attributes(),
            Fetcher::Gitlab(source) => source.spec_attributes(),
            Fetcher::Flake(source) => source.spec_attributes(),
        }
    }

    open spec fn spec_hash(&self) -> Seq<char> {
        match self {
            Fetcher::Github(source) => source.spec_hash(),
            Fetcher::Gitlab(source) => source.spec_hash(),
            Fetcher::Flake(source) => source.spec_hash(),
        }
    }

    open spec fn spec_version(&self) -> Seq<char> {
        match self {
            Fetcher::Github(source) => source.spec_version(),
            Fetcher::Gitlab(source) => source.spec_version(),
            Fetcher::Flake(source) => source.spec_version(),
        }
    }

    fn function_name(&self) -> (name: &'static str) {
        match self {
            Fetcher::Github(source) => source.function_name(),
            Fetcher::Gitlab(source) => source.function_name(),
            Fetcher::Flake(source) => source.function_name(),
        }
    }

    /// The fetcher of the provider that the resolver was asked about.
    fn from_prefetched(pre: Prefetched) -> (source: Fetcher) {
        match pre.provider() {
            Some(Provider::Github) => Fetcher::Github(Github::from_prefetched(pre)),
            Some(Provider::Gitlab) => Fetcher::Gitlab(Gitlab::from_prefetched(pre)),
            None => unreached(),
        }
    }

    fn hash(&self) -> (hash: &str) {
        match self {
            Fetcher::Github(source) => source.hash(),
            Fetcher::Gitlab(source) => source.hash(),
            Fetcher::Flake(source) => source.hash(),
        }
    }

    fn version(&self) -> (version: &str) {
        match self {
            Fetcher::Github(source) => source.version(),
            Fetcher::Gitlab(source) => source.version(),
            Fetcher::Flake(source) => source.version(),
        }
    }

    fn node(&self) -> (node: Node) {
        match self {
            Fetcher::Github(source) => source.node(),
            Fetcher::Gitlab(source) => source.node(),
            Fetcher::Flake(source) => source.node(),
        }
    }
}

} // verus!
