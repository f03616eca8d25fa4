//! The expression tree and its renderer.
use vstd::prelude::*;
use crate::text::{join, lemma_join_push, prefixed, push_spaces, spaces, trim, trimmed, views};

verus! {

/// Where in the nesting a node is rendered: how deep, and how many spaces a
/// level is worth. Passed by copy; a nested block renders its children with
/// `indented()`.
#[derive(Debug, Clone, Copy)]
pub struct Context {
    pub depth: usize,
    pub indent_size: usize,
}

impl Default for Context {
    /// One level deep, two spaces per level.
    fn default() -> (ctx: Context)
        ensures
            ctx.depth == 1,
            ctx.indent_size == 2,
    {
        Context { depth: 1, indent_size: 2 }
    }
}

impl Context {
    /// The context one level deeper.
    pub fn indented(self) -> (next: Context)
        requires
            self.depth < usize::MAX,
        ensures
            next.depth == self.depth + 1,
            next.indent_size == self.indent_size,
    {
        Context { depth: self.depth + 1, indent_size: self.indent_size }
    }

    /// The context one level up.
    pub fn dedented(self) -> (prev: Context)
        requires
            self.depth >= 1,
        ensures
            prev.depth == self.depth - 1,
            prev.indent_size == self.indent_size,
    {
        Context { depth: self.depth - 1, indent_size: self.indent_size }
    }

    /// The indentation of a line at this depth.
    pub fn indent_str(&self) -> (text: String)
        ensures
            text@ == spaces((self.depth * self.indent_size) as nat),
    {
        let mut text = String::new();
        let mut level: usize = 0;
        while level < self.depth
            invariant
                level <= self.depth,
                text@ == spaces((level * self.indent_size) as nat),
            decreases self.depth - level,
        {
            push_spaces(&mut text, self.indent_size);
            assert((level + 1) * self.indent_size == level * self.indent_size + self.indent_size)
                by (nonlinear_arith);
            level += 1;
        }
        text
    }
}

/// A fragment of an expression. A parent owns its children; a tree is built
/// once and then only read.
#[derive(Debug, Hash, PartialEq, Eq)]
pub enum Node {
    Identifier(String),
    String(String),
    Lambda(Box<Node>),
    Attrlist(Vec<Node>),
    Attrset(Vec<Node>),
    Attrpath(Vec<String>),
    Assign(Box<Node>, Box<Node>),
    Call(Box<Node>, Box<Node>),
    Let(Vec<Node>),
    Ellipsis,
    Comment(String),
    Raw(String),
}

/// What a `Node` stands for: the same tree with every string taken as its
/// characters and every vector as a sequence.
pub ghost enum Expr {
    Identifier(Seq<char>),
    String(Seq<char>),
    Lambda(Box<Expr>),
    Attrlist(Seq<Expr>),
    Attrset(Seq<Expr>),
    Attrpath(Seq<Seq<char>>),
    Assign(Box<Expr>, Box<Expr>),
    Call(Box<Expr>, Box<Expr>),
    Let(Seq<Expr>),
    Ellipsis,
    Comment(Seq<char>),
    Raw(Seq<char>),
}

/// The views of `nodes`, in order.
pub open spec fn view_each(nodes: Seq<Node>) -> Seq<Expr>
    decreases nodes,
{
    if nodes.len() == 0 {
        Seq::empty()
    } else {
        view_each(nodes.drop_last()).push(nodes.last().expr())
    }
}

impl Node {
    /// The expression this node stands for.
    pub open spec fn expr(self) -> Expr
        decreases self,
    {
        match self {
            Node::Identifier(text) => Expr::Identifier(text@),
            Node::String(content) => Expr::String(content@),
            Node::Lambda(body) => Expr::Lambda(Box::new(body.expr())),
            Node::Attrlist(nodes) => Expr::Attrlist(view_each(nodes@)),
            Node::Attrset(nodes) => Expr::Attrset(view_each(nodes@)),
            Node::Attrpath(parts) => Expr::Attrpath(views(parts@)),
            Node::Assign(left, right) => Expr::Assign(
                Box::new(left.expr()),
                Box::new(right.expr()),
            ),
            Node::Call(left, right) => Expr::Call(Box::new(left.expr()), Box::new(right.expr())),
            Node::Let(nodes) => Expr::Let(view_each(nodes@)),
            Node::Ellipsis => Expr::Ellipsis,
            Node::Comment(text) => Expr::Comment(text@),
            Node::Raw(content) => Expr::Raw(content@),
        }
    }
}

impl View for Node {
    type V = Expr;

    open spec fn view(&self) -> Expr {
        self.expr()
    }
}

/// The longest text of a single `let` binding that is still written on one line.
pub const INLINE_LET_LIMIT: usize = 60;

/// The depth above `depth`; the margin has nothing above it.
pub open spec fn outer(depth: nat) -> nat {
    if depth >= 1 {
        (depth - 1) as nat
    } else {
        0
    }
}

/// Each expression of `items` rendered at `depth`.
pub open spec fn render_each(items: Seq<Expr>, depth: nat, width: nat) -> Seq<Seq<char>>
    decreases items,
{
    if items.len() == 0 {
        Seq::empty()
    } else {
        render_each(items.drop_last(), depth, width).push(items.last().render(depth, width))
    }
}

/// The lines of a block opened at `depth`: each part behind the indentation
/// of `depth`, one line per part.
pub open spec fn block_lines(parts: Seq<Seq<char>>, depth: nat, width: nat) -> Seq<char> {
    join(prefixed(parts, spaces(depth * width)), "\n"@)
}

impl Expr {
    /// The text of this expression at nesting level `depth`, with `width`
    /// spaces per level.
    ///
    /// A list lies on one line; a set and a `let` with several bindings, or
    /// with a long one, take one line per item, indented at `depth`, with
    /// the items themselves rendered one level deeper. A set closes at the
    /// indentation above `depth`.
    pub open spec fn render(self, depth: nat, width: nat) -> Seq<char>
        decreases self,
    {
        match self {
            Expr::Identifier(text) => text,
            Expr::String(content) => "\""@ + content + "\""@,
            Expr::Lambda(body) => body.render(depth, width) + ":"@,
            Expr::Attrlist(items) => "{ "@ + join(render_each(items, depth + 1, width), ", "@)
                + " }"@,
            Expr::Attrset(items) => "{\n"@ + block_lines(
                render_each(items, depth + 1, width),
                depth,
                width,
            ) + "\n"@ + spaces(outer(depth) * width) + "}"@,
            Expr::Attrpath(parts) => join(parts, "."@),
            Expr::Assign(left, right) => left.render(depth, width) + " = "@ + right.render(
                depth,
                width,
            ) + ";"@,
            Expr::Call(left, right) => left.render(depth, width) + " "@ + right.render(
                depth,
                width,
            ),
            Expr::Let(items) => if items.len() == 1 && items[0].render(depth, width).len()
                <= INLINE_LET_LIMIT {
                "let "@ + items[0].render(depth, width) + " in"@
            } else {
                "let\n"@ + block_lines(render_each(items, depth + 1, width), depth, width)
                    + "\nin"@
            },
            Expr::Ellipsis => "..."@,
            Expr::Comment(text) => "# "@ + text,
            Expr::Raw(content) => trimmed(content),
        }
    }
}

/// The view of a sequence of nodes has one expression per node: the view of
/// that node.
pub proof fn lemma_view_each(nodes: Seq<Node>)
    ensures
        view_each(nodes).len() == nodes.len(),
        forall|i: int| 0 <= i < nodes.len() ==> (#[trigger] view_each(nodes)[i]) == nodes[i]@,
    decreases nodes.len(),
{
    if nodes.len() > 0 {
        lemma_view_each(nodes.drop_last());
    }
}

/// `render_each` yields one text per expression: the text of that expression.
pub proof fn lemma_render_each(items: Seq<Expr>, depth: nat, width: nat)
    ensures
        render_each(items, depth, width).len() == items.len(),
        forall|i: int|
            0 <= i < items.len() ==> (#[trigger] render_each(items, depth, width)[i])
                == items[i].render(depth, width),
    decreases items.len(),
{
    if items.len() > 0 {
        lemma_render_each(items.drop_last(), depth, width);
    }
}

/// A copy of every node of `nodes`.
fn clone_each(nodes: &Vec<Node>) -> (copies: Vec<Node>)
    ensures
        view_each(copies@) == view_each(nodes@),
    decreases nodes,
{
    let mut copies: Vec<Node> = Vec::new();
    let mut i: usize = 0;
    assert(nodes@.take(0) =~= Seq::<Node>::empty());
    while i < nodes.len()
        invariant
            i <= nodes.len(),
            view_each(copies@) == view_each(nodes@.take(i as int)),
        decreases nodes.len() - i,
    {
        let copy = nodes[i].clone();
        proof {
            assert(copies@.push(copy).drop_last() =~= copies@);
            assert(nodes@.take(i + 1).drop_last() =~= nodes@.take(i as int));
        }
        copies.push(copy);
        i += 1;
    }
    assert(nodes@.take(nodes.len() as int) =~= nodes@);
    copies
}

/// A copy of every string of `parts`.
fn clone_strings(parts: &Vec<String>) -> (copies: Vec<String>)
    ensures
        views(copies@) == views(parts@),
{
    let mut copies: Vec<String> = Vec::new();
    let mut i: usize = 0;
    while i < parts.len()
        invariant
            i <= parts.len(),
            copies.len() == i,
            forall|k: int| 0 <= k < i ==> copies@[k]@ == parts@[k]@,
        decreases parts.len() - i,
    {
        copies.push(parts[i].clone());
        i += 1;
    }
    assert(views(copies@) =~= views(parts@));
    copies
}

impl Clone for Node {
    /// A tree that stands for the same expression.
    fn clone(&self) -> (copy: Node)
        ensures
            copy@ == self@,
        decreases self,
    {
        match self {
            Node::Identifier(text) => Node::Identifier(text.clone()),
            Node::String(content) => Node::String(content.clone()),
            Node::Lambda(body) => Node::Lambda(Box::new((**body).clone())),
            Node::Attrlist(nodes) => Node::Attrlist(clone_each(nodes)),
            Node::Attrset(nodes) => Node::Attrset(clone_each(nodes)),
            Node::Attrpath(parts) => Node::Attrpath(clone_strings(parts)),
            Node::Assign(left, right) => Node::Assign(
                Box::new((**left).clone()),
                Box::new((**right).clone()),
            ),
            Node::Call(left, right) => Node::Call(
                Box::new((**left).clone()),
                Box::new((**right).clone()),
            ),
            Node::Let(nodes) => Node::Let(clone_each(nodes)),
            Node::Ellipsis => Node::Ellipsis,
            Node::Comment(text) => Node::Comment(text.clone()),
            Node::Raw(content) => Node::Raw(content.clone()),
        }
    }
}

/// Renders every node of `nodes` at `depth`, puts `prefix` in front of each
/// and `sep` between neighbours. `closing`, `current` and `step` are the
/// indentation above `depth`, at `depth`, and of one level.
fn emit_joined(
    nodes: &Vec<Node>,
    prefix: &String,
    sep: &str,
    closing: &String,
    current: &String,
    step: &String,
    Ghost(depth): Ghost<nat>,
    Ghost(width): Ghost<nat>,
) -> (text: String)
    requires
        closing@ == spaces(outer(depth) * width),
        current@ == spaces(depth * width),
        step@ == spaces(width),
    ensures
        text@ == join(prefixed(render_each(view_each(nodes@), depth, width), prefix@), sep@),
    decreases nodes, 0nat,
{
    let mut text = String::new();
    let mut i: usize = 0;
    assert(nodes@.take(0) =~= Seq::<Node>::empty());
    assert(prefixed(Seq::<Seq<char>>::empty(), prefix@) =~= Seq::<Seq<char>>::empty());
    while i < nodes.len()
        invariant
            i <= nodes.len(),
            closing@ == spaces(outer(depth) * width),
            current@ == spaces(depth * width),
            step@ == spaces(width),
            text@ == join(
                prefixed(render_each(view_each(nodes@.take(i as int)), depth, width), prefix@),
                sep@,
            ),
        decreases nodes.len() - i,
    {
        if i > 0 {
            text.append(sep);
        }
        text.append(prefix.as_str());
        let part = nodes[i].emit_at(closing, current, step, Ghost(depth), Ghost(width));
        text.append(part.as_str());
        proof {
            let before = nodes@.take(i as int);
            let now = nodes@.take(i + 1);
            assert(now.drop_last() =~= before);
            assert(now.last() == nodes@[i as int]);
            let items = view_each(before);
            assert(view_each(now) == items.push(nodes@[i as int]@));
            assert(view_each(now).drop_last() =~= items);
            let parts = render_each(items, depth, width);
            assert(render_each(view_each(now), depth, width) == parts.push(part@));
            assert(prefixed(parts.push(part@), prefix@) =~= prefixed(parts, prefix@).push(
                prefix@ + part@,
            ));
            lemma_join_push(prefixed(parts, prefix@), sep@, prefix@ + part@);
            lemma_view_each(before);
            lemma_render_each(items, depth, width);
        }
        i += 1;
    }
    assert(nodes@.take(nodes.len() as int) =~= nodes@);
    text
}

/// The strings of `parts` with `sep` between neighbours.
fn join_strings(parts: &Vec<String>, sep: &str) -> (text: String)
    ensures
        text@ == join(views(parts@), sep@),
{
    let mut text = String::new();
    let mut i: usize = 0;
    assert(views(parts@.take(0)) =~= Seq::<Seq<char>>::empty());
    while i < parts.len()
        invariant
            i <= parts.len(),
            text@ == join(views(parts@.take(i as int)), sep@),
        decreases parts.len() - i,
    {
        if i > 0 {
            text.append(sep);
        }
        text.append(parts[i].as_str());
        proof {
            let before = views(parts@.take(i as int));
            assert(views(parts@.take(i + 1)) =~= before.push(parts@[i as int]@));
            lemma_join_push(before, sep@, parts@[i as int]@);
        }
        i += 1;
    }
    assert(parts@.take(parts.len() as int) =~= parts@);
    text
}

impl Node {
    /// A function of one argument pattern: `left:`.
    pub fn lambda(left: Node) -> (node: Node)
        ensures
            node@ == Expr::Lambda(Box::new(left@)),
    {
        Node::Lambda(Box::new(left))
    }

    /// The binding `left = right;`.
    pub fn assign(left: Node, right: Node) -> (node: Node)
        ensures
            node@ == Expr::Assign(Box::new(left@), Box::new(right@)),
    {
        Node::Assign(Box::new(left), Box::new(right))
    }

    /// The application of `left` to `right`.
    pub fn call(left: Node, right: Node) -> (node: Node)
        ensures
            node@ == Expr::Call(Box::new(left@), Box::new(right@)),
    {
        Node::Call(Box::new(left), Box::new(right))
    }

    /// The identifier `value`.
    pub fn ident(value: &str) -> (node: Node)
        ensures
            node@ == Expr::Identifier(value@),
    {
        Node::Identifier(value.to_owned())
    }

    /// The string literal with the content `value`, which is written out as it is.
    pub fn string(value: &str) -> (node: Node)
        ensures
            node@ == Expr::String(value@),
    {
        Node::String(value.to_owned())
    }

    /// Renders this node in the context `ctx`.
    ///
    /// The text depends on the node and the context alone. A block closes
    /// at the indentation one level above `ctx`; at depth 0 that is the
    /// margin.
    pub fn emit(&self, ctx: Context) -> (text: String)
        ensures
            text@ == self@.render(ctx.depth as nat, ctx.indent_size as nat),
    {
        let current = ctx.indent_str();
        let closing = if ctx.depth >= 1 {
            ctx.dedented().indent_str()
        } else {
            String::new()
        };
        let mut step = String::new();
        push_spaces(&mut step, ctx.indent_size);
        assert(spaces(0) =~= Seq::<char>::empty());
        assert(outer(0) * ctx.indent_size == 0) by (nonlinear_arith);
        self.emit_at(
            &closing,
            &current,
            &step,
            Ghost(ctx.depth as nat),
            Ghost(ctx.indent_size as nat),
        )
    }

    /// `emit` with the indentation carried as text: `closing`, `current`
    /// and `step` are the indentation above `depth`, at `depth`, and of one
    /// level, so that no width is ever multiplied out.
    fn emit_at(
        &self,
        closing: &String,
        current: &String,
        step: &String,
        Ghost(depth): Ghost<nat>,
        Ghost(width): Ghost<nat>,
    ) -> (text: String)
        requires
            closing@ == spaces(outer(depth) * width),
            current@ == spaces(depth * width),
            step@ == spaces(width),
        ensures
            text@ == self@.render(depth, width),
        decreases self, 0nat,
    {
        match self {
            Node::Identifier(text) => text.clone(),
            Node::String(content) => {
                let mut text = String::from_str("\"");
                text.append(content.as_str());
                text.append("\"");
                text
            },
            Node::Lambda(body) => {
                let mut text = body.emit_at(closing, current, step, Ghost(depth), Ghost(width));
                text.append(":");
                text
            },
            Node::Attrlist(nodes) => {
                let deeper = deeper_indent(current, step, Ghost(depth), Ghost(width));
                let empty = String::new();
                let items = emit_joined(
                    nodes,
                    &empty,
                    ", ",
                    current,
                    &deeper,
                    step,
                    Ghost(depth + 1),
                    Ghost(width),
                );
                let mut text = String::from_str("{ ");
                text.append(items.as_str());
                text.append(" }");
                proof {
                    let parts = render_each(view_each(nodes@), depth + 1, width);
                    assert(prefixed(parts, empty@) =~= parts);
                }
                text
            },
            Node::Attrset(nodes) => {
                let lines = emit_block(nodes, current, step, Ghost(depth), Ghost(width));
                let mut text = String::from_str("{\n");
                text.append(lines.as_str());
                text.append("\n");
                text.append(closing.as_str());
                text.append("}");
                text
            },
            Node::Attrpath(parts) => join_strings(parts, "."),
            Node::Assign(left, right) => {
                let mut text = left.emit_at(closing, current, step, Ghost(depth), Ghost(width));
                let value = right.emit_at(closing, current, step, Ghost(depth), Ghost(width));
                text.append(" = ");
                text.append(value.as_str());
                text.append(";");
                text
            },
            Node::Call(left, right) => {
                let mut text = left.emit_at(closing, current, step, Ghost(depth), Ghost(width));
                let argument = right.emit_at(closing, current, step, Ghost(depth), Ghost(width));
                text.append(" ");
                text.append(argument.as_str());
                text
            },
            Node::Let(nodes) => {
                proof {
                    lemma_view_each(nodes@);
                }
                if nodes.len() == 1 {
                    let only = nodes[0].emit_at(closing, current, step, Ghost(depth), Ghost(width));
                    if only.as_str().unicode_len() <= INLINE_LET_LIMIT {
                        let mut text = String::from_str("let ");
                        text.append(only.as_str());
                        text.append(" in");
                        return text;
                    }
                }
                let lines = emit_block(nodes, current, step, Ghost(depth), Ghost(width));
                let mut text = String::from_str("let\n");
                text.append(lines.as_str());
                text.append("\nin");
                text
            },
            Node::Ellipsis => String::from_str("..."),
            Node::Comment(content) => {
                let mut text = String::from_str("# ");
                text.append(content.as_str());
                text
            },
            Node::Raw(content) => trim(content.as_str()),
        }
    }
}

/// The indentation one level below `current`.
fn deeper_indent(
    current: &String,
    step: &String,
    Ghost(depth): Ghost<nat>,
    Ghost(width): Ghost<nat>,
) -> (deeper: String)
    requires
        current@ == spaces(depth * width),
        step@ == spaces(width),
    ensures
        deeper@ == spaces((depth + 1) * width),
{
    let mut deeper = current.clone();
    deeper.append(step.as_str());
    assert((depth + 1) * width == depth * width + width) by (nonlinear_arith);
    assert(deeper@ =~= spaces((depth + 1) * width));
    deeper
}

/// The lines of a block opened at `depth`; `current` and `step` are the
/// indentation at `depth` and of one level.
fn emit_block(
    nodes: &Vec<Node>,
    current: &String,
    step: &String,
    Ghost(depth): Ghost<nat>,
    Ghost(width): Ghost<nat>,
) -> (text: String)
    requires
        current@ == spaces(depth * width),
        step@ == spaces(width),
    ensures
        text@ == block_lines(render_each(view_each(nodes@), depth + 1, width), depth, width),
    decreases nodes, 1nat,
{
    let deeper = deeper_indent(current, step, Ghost(depth), Ghost(width));
    emit_joined(nodes, current, "\n", current, &deeper, step, Ghost(depth + 1), Ghost(width))
}

/// Rendering is a function of what a node stands for and of the context:
/// whenever two nodes stand for the same expression, any two texts that
/// `emit` returns for them in one context are the same, character for
/// character.
pub proof fn lemma_emit_is_deterministic(
    a: Node,
    b: Node,
    ctx: Context,
    first: String,
    second: String,
)
    requires
        a@ == b@,
        first@ == a@.render(ctx.depth as nat, ctx.indent_size as nat),
        second@ == b@.render(ctx.depth as nat, ctx.indent_size as nat),
    ensures
        first@ == second@,
{
}

} // verus!
