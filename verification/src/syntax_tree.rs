//! The syntax tree of a parse: a tree of nodes and tokens, held both as a
//! plain tree and as a rowan green tree, with the errors of the parse.
use vstd::prelude::*;
use vstd::utf8::encode_utf8;
use crate::grammar::{directive_definition, g_directive_definition};
use crate::parser::{terminated, LimitTracker, DEFAULT_RECURSION_LIMIT, Error, ErrorView, Event, EventView, Parser, SyntaxKind, Token, TokenView};
use crate::render::{digit_char, nat_text};
use crate::serialize::push_char;
use crate::tree_laws::{
    depth, is_one_node, lemma_depth_append, lemma_directive_definition_is_one_node, read_texts, text_at,
    token_texts,
};

verus! {

#[verifier::external_type_specification]
#[verifier::external_body]
pub struct ExGreenNode(rowan::GreenNode);

#[verifier::external_type_specification]
#[verifier::external_body]
pub struct ExGreenNodeBuilder<'cache>(rowan::GreenNodeBuilder<'cache>);

/// What a green node holds, as events: its start, the events of its
/// children in order, and its end.
pub uninterp spec fn green_events(g: rowan::GreenNode) -> Seq<EventView>;

/// The nodes a green builder has open: the kind of each, and how many
/// finished children came before its start.
pub uninterp spec fn builder_parents(b: rowan::GreenNodeBuilder<'static>) -> Seq<(SyntaxKind, nat)>;

/// The finished children of a green builder, each as its events.
pub uninterp spec fn builder_children(b: rowan::GreenNodeBuilder<'static>) -> Seq<Seq<EventView>>;

/// The UTF-8 length of the token texts among `es`.
pub open spec fn events_bytes(es: Seq<EventView>) -> nat
    decreases es.len(),
{
    if es.len() == 0 {
        0
    } else {
        events_bytes(es.drop_last()) + match es.last() {
            EventView::Token(_, t) => encode_utf8(t).len(),
            _ => 0,
        }
    }
}

/// `GreenNodeBuilder::new`: a builder with no open node and no finished
/// child.
#[verifier::external_body]
fn new_green_builder() -> (b: rowan::GreenNodeBuilder<'static>)
    ensures
        builder_parents(b) == Seq::<(SyntaxKind, nat)>::empty(),
        builder_children(b) == Seq::<Seq<EventView>>::empty(),
{
    rowan::GreenNodeBuilder::new()
}

/// `GreenNodeBuilder::token`: the token, with the number of `kind` as its
/// kind and `text` as its text, becomes the last finished child.
#[verifier::external_body]
fn green_token(b: &mut rowan::GreenNodeBuilder<'static>, kind: SyntaxKind, text: &str)
    ensures
        builder_parents(*final(b)) == builder_parents(*old(b)),
        builder_children(*final(b)) == builder_children(*old(b)).push(seq![EventView::Token(kind, text@)]),
{
    b.token(rowan::SyntaxKind(kind as u16), text);
}

/// `GreenNodeBuilder::start_node`: a node of `kind` opens after the
/// finished children there are.
#[verifier::external_body]
fn green_start_node(b: &mut rowan::GreenNodeBuilder<'static>, kind: SyntaxKind)
    ensures
        builder_parents(*final(b)) == builder_parents(*old(b)).push((kind, builder_children(*old(b)).len())),
        builder_children(*final(b)) == builder_children(*old(b)),
{
    b.start_node(rowan::SyntaxKind(kind as u16));
}

/// `GreenNodeBuilder::finish_node`: the innermost open node closes and takes
/// the children finished since it opened. It panics when no node is open; the
/// lengths of the texts it holds are added as `u32`, so their sum must fit.
#[verifier::external_body]
fn green_finish_node(b: &mut rowan::GreenNodeBuilder<'static>)
    requires
        builder_parents(*old(b)).len() > 0,
        builder_parents(*old(b)).last().1 <= builder_children(*old(b)).len(),
        events_bytes(builder_children(*old(b)).skip(builder_parents(*old(b)).last().1 as int).flatten_alt())
            <= u32::MAX,
    ensures
        builder_parents(*final(b)) == builder_parents(*old(b)).drop_last(),
        builder_children(*final(b)) == builder_children(*old(b)).take(builder_parents(*old(b)).last().1 as int).push(
            seq![EventView::Start(builder_parents(*old(b)).last().0)]
                + builder_children(*old(b)).skip(builder_parents(*old(b)).last().1 as int).flatten_alt()
                + seq![EventView::Finish],
        ),
{
    b.finish_node();
}

/// `GreenNodeBuilder::finish`: the one finished child, which must be a node,
/// as a green node. It panics unless there is exactly one finished child and
/// it is a node.
#[verifier::external_body]
fn green_finish(b: rowan::GreenNodeBuilder<'static>) -> (g: rowan::GreenNode)
    requires
        builder_children(b).len() == 1,
        builder_children(b)[0].len() > 0,
        builder_children(b)[0][0] is Start,
    ensures
        green_events(g) == builder_children(b)[0],
{
    b.finish()
}

/// `GreenNode::clone`: the same green node.
#[verifier::external_body]
fn green_clone(g: &rowan::GreenNode) -> (r: rowan::GreenNode)
    ensures
        green_events(r) == green_events(*g),
{
    g.clone()
}

/// A node or a token of the tree.
#[derive(Debug)]
pub enum Element {
    Node(SyntaxKind, Vec<Element>),
    Token(SyntaxKind, String),
}

/// The events of an element: a token, or a node's start, the events of its
/// children, and its end.
pub open spec fn element_events(e: Element) -> Seq<EventView>
    decreases e,
{
    match e {
        Element::Node(k, cs) => seq![EventView::Start(k)] + children_events(cs@) + seq![EventView::Finish],
        Element::Token(k, t) => seq![EventView::Token(k, t@)],
    }
}

/// The events of the elements, one after the other.
pub open spec fn children_events(cs: Seq<Element>) -> Seq<EventView>
    decreases cs,
{
    if cs.len() == 0 {
        Seq::empty()
    } else {
        children_events(cs.drop_last()) + element_events(cs.last())
    }
}

/// The events read of the nodes still open: each one's start and the events
/// of the children it has so far.
spec fn frames_events(st: Seq<(SyntaxKind, Vec<Element>)>) -> Seq<EventView>
    decreases st.len(),
{
    if st.len() == 0 {
        Seq::empty()
    } else {
        frames_events(st.drop_last()) + seq![EventView::Start(st.last().0)] + children_events(st.last().1@)
    }
}

/// Inside a node, every prefix of its events leaves it open.
proof fn lemma_one_node_depths(es: Seq<EventView>)
    requires
        is_one_node(es),
    ensures
        forall|j: int| 1 <= j < es.len() ==> depth(#[trigger] es.take(j)) >= 1,
        depth(es) == 0,
{
    let inner = es.subrange(1, es.len() - 1);
    let s = seq![es[0]];
    assert(depth(s) == 1) by {
        assert(s.drop_last() =~= Seq::<EventView>::empty());
        reveal_with_fuel(depth, 2);
    }
    assert forall|j: int| 1 <= j < es.len() implies depth(#[trigger] es.take(j)) >= 1 by {
        assert(es.take(j) =~= s + inner.take(j - 1));
        lemma_depth_append(s, inner.take(j - 1));
    }
    assert(es =~= (s + inner).push(es.last()));
    assert(es.drop_last() =~= s + inner);
    lemma_depth_append(s, inner);
}

proof fn lemma_frames_start(before: Seq<(SyntaxKind, Vec<Element>)>, after: Seq<(SyntaxKind, Vec<Element>)>, k: SyntaxKind)
    requires
        after.len() == before.len() + 1,
        after.drop_last() == before,
        after.last().0 == k,
        after.last().1@.len() == 0,
    ensures
        frames_events(after) == frames_events(before) + seq![EventView::Start(k)],
{
    assert(after.last().1@ =~= Seq::<Element>::empty());
    assert(children_events(after.last().1@) =~= Seq::<EventView>::empty());
    assert(frames_events(after) =~= frames_events(before) + seq![EventView::Start(k)]);
}

proof fn lemma_frames_child(before: Seq<(SyntaxKind, Vec<Element>)>, after: Seq<(SyntaxKind, Vec<Element>)>, x: Element)
    requires
        before.len() > 0,
        after.len() == before.len(),
        after.drop_last() == before.drop_last(),
        after.last().0 == before.last().0,
        after.last().1@ == before.last().1@.push(x),
    ensures
        frames_events(after) == frames_events(before) + element_events(x),
{
    assert(after.last().1@.drop_last() =~= before.last().1@);
    assert(children_events(after.last().1@) == children_events(before.last().1@) + element_events(x));
    assert(frames_events(after) =~= frames_events(before) + element_events(x));
}

proof fn lemma_frames_finish(before: Seq<(SyntaxKind, Vec<Element>)>)
    requires
        before.len() > 0,
    ensures
        frames_events(before) + seq![EventView::Finish] == frames_events(before.drop_last()) + element_events(
            Element::Node(before.last().0, before.last().1),
        ),
{
    let node = Element::Node(before.last().0, before.last().1);
    assert(element_events(node) == seq![EventView::Start(before.last().0)] + children_events(before.last().1@)
        + seq![EventView::Finish]);
    assert(frames_events(before) + seq![EventView::Finish] =~= frames_events(before.drop_last()) + element_events(
        node,
    ));
}

/// The element whose events are `events`.
fn read_element(events: &[Event]) -> (e: Element)
    requires
        is_one_node(events@.map_values(|x: Event| x@)),
    ensures
        element_events(e) == events@.map_values(|x: Event| x@),
{
    let ghost es = events@.map_values(|x: Event| x@);
    proof {
        lemma_one_node_depths(es);
    }
    let mut stack: Vec<(SyntaxKind, Vec<Element>)> = Vec::new();
    let mut result: Option<Element> = None;
    let mut i: usize = 0;
    while i < events.len()
        invariant
            es == events@.map_values(|x: Event| x@),
            es.len() >= 2,
            es[0] is Start,
            forall|j: int| 1 <= j < es.len() ==> depth(#[trigger] es.take(j)) >= 1,
            i <= events.len(),
            result is None ==> es.take(i as int) == frames_events(stack@) && stack.len() == depth(
                es.take(i as int),
            ),
            result is Some ==> i == events.len() && element_events(result->0) == es,
        decreases events.len() - i,
    {
        let ghost before = stack@;
        assert(es[i as int] == events@[i as int]@);
        assert(es.take(i + 1) =~= es.take(i as int).push(es[i as int]));
        assert(es.take(i + 1).drop_last() =~= es.take(i as int));
        match &events[i] {
            Event::Start(k) => {
                let fresh: Vec<Element> = Vec::new();
                stack.push((*k, fresh));
                proof {
                    assert(stack@.drop_last() =~= before);
                    lemma_frames_start(before, stack@, *k);
                }
            },
            Event::Token(k, t) => {
                assert(i > 0);
                let (k0, mut cs) = stack.pop().unwrap();
                let tok = Element::Token(*k, t.clone());
                let ghost tokv = tok;
                cs.push(tok);
                stack.push((k0, cs));
                proof {
                    assert(stack@.drop_last() =~= before.drop_last());
                    lemma_frames_child(before, stack@, tokv);
                }
            },
            Event::Finish => {
                assert(i > 0);
                let (k0, cs) = stack.pop().unwrap();
                let node = Element::Node(k0, cs);
                proof {
                    lemma_frames_finish(before);
                }
                if stack.len() == 0 {
                    assert(i + 1 == events.len());
                    assert(es.take(i + 1) =~= es);
                    result = Some(node);
                } else {
                    let ghost mid = stack@;
                    let (k1, mut cs1) = stack.pop().unwrap();
                    cs1.push(node);
                    stack.push((k1, cs1));
                    proof {
                        assert(stack@.drop_last() =~= mid.drop_last());
                        lemma_frames_child(mid, stack@, node);
                    }
                }
            },
        }
        i += 1;
    }
    if result.is_none() {
        proof {
            assert(es.take(events.len() as int) =~= es);
            assert(frames_events(stack@) =~= Seq::<EventView>::empty());
        }
    }
    result.unwrap()
}

pub proof fn lemma_events_bytes_append(a: Seq<EventView>, b: Seq<EventView>)
    ensures
        events_bytes(a + b) == events_bytes(a) + events_bytes(b),
    decreases b.len(),
{
    if b.len() == 0 {
        assert(a + b =~= a);
    } else {
        lemma_events_bytes_append(a, b.drop_last());
        assert((a + b).drop_last() =~= a + b.drop_last());
    }
}

/// The events of each element.
spec fn child_events(cs: Seq<Element>) -> Seq<Seq<EventView>> {
    Seq::new(cs.len(), |j: int| element_events(cs[j]))
}

proof fn lemma_child_events(cs: Seq<Element>)
    ensures
        child_events(cs).flatten_alt() == children_events(cs),
    decreases cs.len(),
{
    if cs.len() > 0 {
        lemma_child_events(cs.drop_last());
        assert(child_events(cs).drop_last() =~= child_events(cs.drop_last()));
    }
}

/// The elements before `j` come first among the events of `cs`.
proof fn lemma_children_events_prefix(cs: Seq<Element>, j: int)
    requires
        0 <= j <= cs.len(),
    ensures
        children_events(cs) == children_events(cs.take(j)) + children_events(cs.skip(j)),
    decreases cs.len(),
{
    if j == cs.len() {
        assert(cs.take(j) =~= cs);
        assert(cs.skip(j) =~= Seq::<Element>::empty());
        assert(children_events(cs) + Seq::<EventView>::empty() =~= children_events(cs));
    } else {
        lemma_children_events_prefix(cs.drop_last(), j);
        assert(cs.drop_last().take(j) =~= cs.take(j));
        assert(cs.skip(j).drop_last() =~= cs.drop_last().skip(j));
        assert(cs.skip(j).last() == cs.last());
    }
}

/// Builds the green tree of a parse.
pub(crate) struct SyntaxTreeBuilder {
    builder: rowan::GreenNodeBuilder<'static>,
}

impl SyntaxTreeBuilder {
    /// The nodes open: the kind of each, and how many finished children came
    /// before it.
    pub(crate) closed spec fn open_nodes(self) -> Seq<(SyntaxKind, nat)> {
        builder_parents(self.builder)
    }

    /// The finished children, each as its events.
    pub(crate) closed spec fn finished(self) -> Seq<Seq<EventView>> {
        builder_children(self.builder)
    }

    pub(crate) fn new() -> (b: Self)
        ensures
            b.open_nodes().len() == 0,
            b.finished().len() == 0,
    {
        SyntaxTreeBuilder { builder: new_green_builder() }
    }

    /// Opens a node of `kind`.
    pub(crate) fn start_node(&mut self, kind: SyntaxKind)
        ensures
            final(self).open_nodes() == old(self).open_nodes().push((kind, old(self).finished().len())),
            final(self).finished() == old(self).finished(),
    {
        green_start_node(&mut self.builder, kind);
    }

    /// Closes the innermost open node around the children finished since it
    /// opened.
    pub(crate) fn finish_node(&mut self)
        requires
            old(self).open_nodes().len() > 0,
            old(self).open_nodes().last().1 <= old(self).finished().len(),
            events_bytes(old(self).finished().skip(old(self).open_nodes().last().1 as int).flatten_alt())
                <= u32::MAX,
        ensures
            final(self).open_nodes() == old(self).open_nodes().drop_last(),
            final(self).finished() == old(self).finished().take(old(self).open_nodes().last().1 as int).push(
                seq![EventView::Start(old(self).open_nodes().last().0)]
                    + old(self).finished().skip(old(self).open_nodes().last().1 as int).flatten_alt()
                    + seq![EventView::Finish],
            ),
    {
        green_finish_node(&mut self.builder);
    }

    /// Adds a token of `kind` with `text`.
    pub(crate) fn token(&mut self, kind: SyntaxKind, text: &str)
        ensures
            final(self).open_nodes() == old(self).open_nodes(),
            final(self).finished() == old(self).finished().push(seq![EventView::Token(kind, text@)]),
    {
        green_token(&mut self.builder, kind, text);
    }

    /// Adds `e`, a token or a whole node, as the last finished child.
    pub(crate) fn element(&mut self, e: &Element)
        requires
            events_bytes(element_events(*e)) <= u32::MAX,
        ensures
            final(self).open_nodes() == old(self).open_nodes(),
            final(self).finished() == old(self).finished().push(element_events(*e)),
        decreases e,
    {
        match e {
            Element::Token(k, t) => {
                self.token(*k, t.as_str());
            },
            Element::Node(k, cs) => {
                let ghost c0 = self.finished();
                let ghost p0 = self.open_nodes();
                proof {
                    lemma_events_bytes_append(seq![EventView::Start(*k)], children_events(cs@));
                    lemma_events_bytes_append(
                        seq![EventView::Start(*k)] + children_events(cs@),
                        seq![EventView::Finish],
                    );
                }
                self.start_node(*k);
                let mut i: usize = 0;
                while i < cs.len()
                    invariant
                        self.open_nodes() == p0.push((*k, c0.len())),
                        self.finished() == c0 + child_events(cs@.take(i as int)),
                        i <= cs.len(),
                        events_bytes(children_events(cs@)) <= u32::MAX,
                        *e == Element::Node(*k, *cs),
                    decreases cs.len() - i,
                {
                    proof {
                        lemma_child_bytes(cs@, i as int);
                        assert((*e)->Node_1 == *cs);
                        assert(decreases_to!(*e => (*e)->Node_1));
                        assert(decreases_to!(*cs => cs@));
                        assert(decreases_to!(cs@ => cs@[i as int]));
                    }
                    self.element(&cs[i]);
                    assert(child_events(cs@.take(i + 1)) =~= child_events(cs@.take(i as int)).push(
                        element_events(cs@[i as int]),
                    ));
                    i += 1;
                }
                proof {
                    assert(cs@.take(cs@.len() as int) =~= cs@);
                    assert(self.finished().skip(c0.len() as int) =~= child_events(cs@));
                    assert(self.finished().take(c0.len() as int) =~= c0);
                    lemma_child_events(cs@);
                }
                self.finish_node();
            },
        }
    }

    /// The syntax tree whose root is `root`, which this builder holds as its
    /// one finished child.
    pub(crate) fn finish_document(
        self,
        root: Element,
        errors: Vec<Error>,
        recursion_limit: LimitTracker,
        token_limit: LimitTracker,
    ) -> (t: SyntaxTree)
        requires
            self.finished() == seq![element_events(root)],
            root is Node,
            element_events(root).len() <= usize::MAX,
            events_bytes(element_events(root)) <= u32::MAX,
            errors_fit(errors@.map_values(|e: Error| e@)),
        ensures
            t.element() == root,
            t.error_list() == errors@.map_values(|e: Error| e@),
            t.recursion() == recursion_limit,
            t.tokens() == token_limit,
    {
        assert(self.finished()[0] == element_events(root));
        let green = green_finish(self.builder);
        SyntaxTree { green, root, errors, recursion_limit, token_limit }
    }
}

/// The element before `i` and the one at `i` come first among the events of
/// `cs`, so each has no more bytes than all of them.
proof fn lemma_child_bytes(cs: Seq<Element>, i: int)
    requires
        0 <= i < cs.len(),
    ensures
        events_bytes(element_events(cs[i])) <= events_bytes(children_events(cs)),
        element_events(cs[i]).len() <= children_events(cs).len(),
        events_bytes(children_events(cs.take(i))) + events_bytes(element_events(cs[i])) <= events_bytes(
            children_events(cs),
        ),
{
    lemma_children_events_prefix(cs, i);
    lemma_children_events_prefix(cs.skip(i), 1);
    assert(cs.skip(i).take(1) =~= seq![cs[i]]);
    assert(seq![cs[i]].drop_last() =~= Seq::<Element>::empty());
    assert(children_events(Seq::<Element>::empty()) == Seq::<EventView>::empty());
    assert(children_events(seq![cs[i]]) =~= element_events(cs[i]));
    lemma_events_bytes_append(children_events(cs.take(i)), children_events(cs.skip(i)));
    lemma_events_bytes_append(children_events(seq![cs[i]]), children_events(cs.skip(i).skip(1)));
}

/// The text of each error has at most `usize::MAX` UTF-8 bytes, as every
/// text in memory has.
pub open spec fn errors_fit(errors: Seq<ErrorView>) -> bool {
    forall|i: int| 0 <= i < errors.len() ==> encode_utf8(#[trigger] errors[i].data).len() <= usize::MAX
}

/// The kinds of type a type's syntax tree can have at its root.
#[derive(Debug, Clone, Copy, PartialEq, Eq, Structural)]
pub enum TypeRoot {
    NamedType,
    ListType,
    NonNullType,
}

/// The kind of type `e` is, when it is a type node.
pub open spec fn type_root(e: Element) -> Option<TypeRoot> {
    match e {
        Element::Node(SyntaxKind::NAMED_TYPE, _) => Some(TypeRoot::NamedType),
        Element::Node(SyntaxKind::LIST_TYPE, _) => Some(TypeRoot::ListType),
        Element::Node(SyntaxKind::NON_NULL_TYPE, _) => Some(TypeRoot::NonNullType),
        _ => None,
    }
}

/// A parsed syntax tree: its root node, the same tree as a rowan green node,
/// the errors of the parse, and its recursion and token limits.
pub struct SyntaxTree {
    green: rowan::GreenNode,
    root: Element,
    errors: Vec<Error>,
    recursion_limit: LimitTracker,
    token_limit: LimitTracker,
}

impl SyntaxTree {
    #[verifier::type_invariant]
    spec fn wf(self) -> bool {
        &&& green_events(self.green) == element_events(self.root)
        &&& self.root is Node
        &&& element_events(self.root).len() <= usize::MAX
        &&& events_bytes(element_events(self.root)) <= u32::MAX
        &&& errors_fit(self.errors@.map_values(|e: Error| e@))
    }

    /// The root node.
    pub closed spec fn element(self) -> Element {
        self.root
    }

    /// The errors of the parse.
    pub closed spec fn error_list(self) -> Seq<ErrorView> {
        self.errors@.map_values(|e: Error| e@)
    }

    /// The recursion limit of the parse and the deepest it went.
    pub closed spec fn recursion(self) -> LimitTracker {
        self.recursion_limit
    }

    /// The token limit of the parse and the number of tokens it read.
    pub closed spec fn tokens(self) -> LimitTracker {
        self.token_limit
    }

    /// The recursion limit of the parse and the deepest it went.
    pub fn recursion_limit(&self) -> (r: LimitTracker)
        ensures
            r == self.recursion(),
    {
        self.recursion_limit
    }

    /// The token limit of the parse and the number of tokens it read.
    pub fn token_limit(&self) -> (r: LimitTracker)
        ensures
            r == self.tokens(),
    {
        self.token_limit
    }

    /// The errors of the parse.
    pub fn errors(&self) -> (r: &[Error])
        ensures
            r@.map_values(|e: Error| e@) == self.error_list(),
    {
        self.errors.as_slice()
    }

    /// The green tree, whose events are those of the root node.
    pub fn green(&self) -> (g: rowan::GreenNode)
        ensures
            green_events(g) == element_events(self.element()),
    {
        proof {
            use_type_invariant(self);
        }
        green_clone(&self.green)
    }

    /// Which kind of type the root node is, for the tree of a type.
    pub fn ty(&self) -> (r: TypeRoot)
        requires
            type_root(self.element()) is Some,
        ensures
            type_root(self.element()) == Some(r),
    {
        match &self.root {
            Element::Node(SyntaxKind::NAMED_TYPE, _) => TypeRoot::NamedType,
            Element::Node(SyntaxKind::LIST_TYPE, _) => TypeRoot::ListType,
            _ => TypeRoot::NonNullType,
        }
    }

    /// The root node.
    pub fn root(&self) -> (r: &Element)
        ensures
            *r == self.element(),
    {
        &self.root
    }
}

/// The syntax tree whose events are `events`, with `errors` and the limits.
pub fn syntax_tree(
    events: &[Event],
    errors: Vec<Error>,
    recursion_limit: LimitTracker,
    token_limit: LimitTracker,
) -> (t: SyntaxTree)
    requires
        is_one_node(events@.map_values(|x: Event| x@)),
        events_bytes(events@.map_values(|x: Event| x@)) <= u32::MAX,
        errors_fit(errors@.map_values(|e: Error| e@)),
    ensures
        element_events(t.element()) == events@.map_values(|x: Event| x@),
        t.error_list() == errors@.map_values(|e: Error| e@),
        t.recursion() == recursion_limit,
        t.tokens() == token_limit,
{
    let count: usize = events.len();
    let root = read_element(events);
    let mut builder = SyntaxTreeBuilder::new();
    builder.element(&root);
    assert(builder.finished() =~= seq![element_events(root)]);
    assert(element_events(root).len() == count);
    builder.finish_document(root, errors, recursion_limit, token_limit)
}

impl Parser {
    /// The syntax tree of what was parsed, with the errors met. No rule of
    /// this grammar counts recursion, so the recursion limit is the default
    /// one with nothing reached; the token limit holds no bound, and records
    /// the number of tokens read.
    pub fn finish(self) -> (t: SyntaxTree)
        requires
            is_one_node(self@.events),
            events_bytes(self@.events) <= u32::MAX,
            errors_fit(self@.errors),
        ensures
            element_events(t.element()) == self@.events,
            t.error_list() == self@.errors,
            t.recursion() == (LimitTracker { high: 0, limit: DEFAULT_RECURSION_LIMIT }),
            t.tokens() == (LimitTracker { high: self@.pos as usize, limit: usize::MAX }),
    {
        let read = self.position();
        let (events, errors) = self.into_parts();
        let recursion_limit = LimitTracker::new(DEFAULT_RECURSION_LIMIT);
        let token_limit = LimitTracker { high: read, limit: usize::MAX };
        syntax_tree(events.as_slice(), errors, recursion_limit, token_limit)
    }
}

/// The number of UTF-8 bytes of the texts, together.
pub open spec fn texts_bytes(ts: Seq<Seq<char>>) -> nat
    decreases ts.len(),
{
    if ts.len() == 0 {
        0
    } else {
        texts_bytes(ts.drop_last()) + encode_utf8(ts.last()).len()
    }
}

/// The number of UTF-8 bytes of the tokens' texts, together.
pub open spec fn tokens_bytes(ts: Seq<TokenView>) -> nat {
    texts_bytes(ts.map_values(|t: TokenView| t.data))
}

proof fn lemma_texts_bytes_append(a: Seq<Seq<char>>, b: Seq<Seq<char>>)
    ensures
        texts_bytes(a + b) == texts_bytes(a) + texts_bytes(b),
    decreases b.len(),
{
    if b.len() == 0 {
        assert(a + b =~= a);
    } else {
        lemma_texts_bytes_append(a, b.drop_last());
        assert((a + b).drop_last() =~= a + b.drop_last());
    }
}

proof fn lemma_texts_bytes_prefix(ts: Seq<Seq<char>>, n: int)
    requires
        0 <= n <= ts.len(),
    ensures
        texts_bytes(ts.take(n)) <= texts_bytes(ts),
    decreases ts.len(),
{
    if n < ts.len() {
        lemma_texts_bytes_prefix(ts.drop_last(), n);
        assert(ts.drop_last().take(n) =~= ts.take(n));
    } else {
        assert(ts.take(n) =~= ts);
    }
}

proof fn lemma_events_bytes_texts(es: Seq<EventView>)
    ensures
        events_bytes(es) == texts_bytes(token_texts(es)),
    decreases es.len(),
{
    if es.len() > 0 {
        lemma_events_bytes_texts(es.drop_last());
        match es.last() {
            EventView::Token(_, t) => {
                assert(token_texts(es).drop_last() =~= token_texts(es.drop_last()));
            },
            _ => {},
        }
    }
}

/// A text read from the tokens has no more bytes than all of them.
proof fn lemma_text_at_bytes(ts: Seq<TokenView>, i: int)
    ensures
        encode_utf8(text_at(ts, i)).len() <= tokens_bytes(ts),
{
    let all = ts.map_values(|t: TokenView| t.data);
    if 0 <= i < ts.len() {
        lemma_texts_bytes_prefix(all, i + 1);
        assert(all.take(i + 1).drop_last() =~= all.take(i));
    } else {
        assert(encode_utf8(Seq::<char>::empty()) =~= Seq::<u8>::empty());
    }
}

/// The texts read up to `n` have no more bytes than all the tokens.
proof fn lemma_read_texts_bytes(ts: Seq<TokenView>, n: int)
    requires
        0 <= n <= ts.len(),
    ensures
        texts_bytes(read_texts(ts, 0, n)) <= tokens_bytes(ts),
{
    let all = ts.map_values(|t: TokenView| t.data);
    assert(read_texts(ts, 0, n) =~= all.take(n));
    lemma_texts_bytes_prefix(all, n);
}

proof fn lemma_terminated_bytes(ts: Seq<TokenView>)
    ensures
        tokens_bytes(terminated(ts)) <= tokens_bytes(ts),
    decreases ts.len(),
{
    let eof = seq![TokenView { kind: crate::parser::TokenKind::Eof, data: Seq::empty() }];
    let eof_texts = eof.map_values(|t: TokenView| t.data);
    assert(eof_texts.drop_last() =~= Seq::<Seq<char>>::empty());
    assert(eof_texts.last() == Seq::<char>::empty());
    assert(encode_utf8(Seq::<char>::empty()) =~= Seq::<u8>::empty());
    assert(texts_bytes(Seq::<Seq<char>>::empty()) == 0);
    assert(texts_bytes(eof_texts) == 0);
    if ts.len() > 0 && ts[0].kind != crate::parser::TokenKind::Eof {
        lemma_terminated_bytes(ts.skip(1));
        let first = seq![ts[0]];
        assert(terminated(ts) == first + terminated(ts.skip(1)));
        assert((first + terminated(ts.skip(1))).map_values(|t: TokenView| t.data) =~= first.map_values(
            |t: TokenView| t.data,
        ) + terminated(ts.skip(1)).map_values(|t: TokenView| t.data));
        assert(ts.map_values(|t: TokenView| t.data) =~= first.map_values(|t: TokenView| t.data) + ts.skip(
            1,
        ).map_values(|t: TokenView| t.data));
        lemma_texts_bytes_append(
            first.map_values(|t: TokenView| t.data),
            terminated(ts.skip(1)).map_values(|t: TokenView| t.data),
        );
        lemma_texts_bytes_append(first.map_values(|t: TokenView| t.data), ts.skip(1).map_values(|t: TokenView| t.data));
    } else {
        assert(terminated(ts) == eof);
    }
}

/// The name of a kind, as its `Debug` text shows it.
pub open spec fn kind_name(k: SyntaxKind) -> Seq<char> {
    match k {
        SyntaxKind::DIRECTIVE_DEFINITION => "DIRECTIVE_DEFINITION"@,
        SyntaxKind::DIRECTIVE_LOCATIONS => "DIRECTIVE_LOCATIONS"@,
        SyntaxKind::DIRECTIVE_LOCATION => "DIRECTIVE_LOCATION"@,
        SyntaxKind::DIRECTIVE => "DIRECTIVE"@,
        SyntaxKind::DIRECTIVES => "DIRECTIVES"@,
        SyntaxKind::ARGUMENTS_DEFINITION => "ARGUMENTS_DEFINITION"@,
        SyntaxKind::ARGUMENTS => "ARGUMENTS"@,
        SyntaxKind::ARGUMENT => "ARGUMENT"@,
        SyntaxKind::INPUT_VALUE_DEFINITION => "INPUT_VALUE_DEFINITION"@,
        SyntaxKind::DESCRIPTION => "DESCRIPTION"@,
        SyntaxKind::NAME => "NAME"@,
        SyntaxKind::NAMED_TYPE => "NAMED_TYPE"@,
        SyntaxKind::LIST_TYPE => "LIST_TYPE"@,
        SyntaxKind::NON_NULL_TYPE => "NON_NULL_TYPE"@,
        SyntaxKind::DEFAULT_VALUE => "DEFAULT_VALUE"@,
        SyntaxKind::VARIABLE => "VARIABLE"@,
        SyntaxKind::STRING_VALUE => "STRING_VALUE"@,
        SyntaxKind::INT_VALUE => "INT_VALUE"@,
        SyntaxKind::FLOAT_VALUE => "FLOAT_VALUE"@,
        SyntaxKind::BOOLEAN_VALUE => "BOOLEAN_VALUE"@,
        SyntaxKind::NULL_VALUE => "NULL_VALUE"@,
        SyntaxKind::ENUM_VALUE => "ENUM_VALUE"@,
        SyntaxKind::LIST_VALUE => "LIST_VALUE"@,
        SyntaxKind::OBJECT_VALUE => "OBJECT_VALUE"@,
        SyntaxKind::OBJECT_FIELD => "OBJECT_FIELD"@,
        SyntaxKind::ERROR => "ERROR"@,
        SyntaxKind::IDENT => "IDENT"@,
        SyntaxKind::STRING => "STRING"@,
        SyntaxKind::INT => "INT"@,
        SyntaxKind::FLOAT => "FLOAT"@,
        SyntaxKind::AT => "AT"@,
        SyntaxKind::DOLLAR => "DOLLAR"@,
        SyntaxKind::BANG => "BANG"@,
        SyntaxKind::L_PAREN => "L_PAREN"@,
        SyntaxKind::R_PAREN => "R_PAREN"@,
        SyntaxKind::L_BRACK => "L_BRACK"@,
        SyntaxKind::R_BRACK => "R_BRACK"@,
        SyntaxKind::L_CURLY => "L_CURLY"@,
        SyntaxKind::R_CURLY => "R_CURLY"@,
        SyntaxKind::COLON => "COLON"@,
        SyntaxKind::EQ => "EQ"@,
        SyntaxKind::PIPE => "PIPE"@,
        SyntaxKind::directive_KW => "directive_KW"@,
        SyntaxKind::repeatable_KW => "repeatable_KW"@,
        SyntaxKind::on_KW => "on_KW"@,
        SyntaxKind::true_KW => "true_KW"@,
        SyntaxKind::false_KW => "false_KW"@,
        SyntaxKind::null_KW => "null_KW"@,
        SyntaxKind::QUERY_KW => "QUERY_KW"@,
        SyntaxKind::MUTATION_KW => "MUTATION_KW"@,
        SyntaxKind::SUBSCRIPTION_KW => "SUBSCRIPTION_KW"@,
        SyntaxKind::FIELD_KW => "FIELD_KW"@,
        SyntaxKind::FRAGMENT_DEFINITION_KW => "FRAGMENT_DEFINITION_KW"@,
        SyntaxKind::FRAGMENT_SPREAD_KW => "FRAGMENT_SPREAD_KW"@,
        SyntaxKind::INLINE_FRAGMENT_KW => "INLINE_FRAGMENT_KW"@,
        SyntaxKind::VARIABLE_DEFINITION_KW => "VARIABLE_DEFINITION_KW"@,
        SyntaxKind::SCHEMA_KW => "SCHEMA_KW"@,
        SyntaxKind::SCALAR_KW => "SCALAR_KW"@,
        SyntaxKind::OBJECT_KW => "OBJECT_KW"@,
        SyntaxKind::FIELD_DEFINITION_KW => "FIELD_DEFINITION_KW"@,
        SyntaxKind::ARGUMENT_DEFINITION_KW => "ARGUMENT_DEFINITION_KW"@,
        SyntaxKind::INTERFACE_KW => "INTERFACE_KW"@,
        SyntaxKind::UNION_KW => "UNION_KW"@,
        SyntaxKind::ENUM_KW => "ENUM_KW"@,
        SyntaxKind::ENUM_VALUE_KW => "ENUM_VALUE_KW"@,
        SyntaxKind::INPUT_OBJECT_KW => "INPUT_OBJECT_KW"@,
        SyntaxKind::INPUT_FIELD_DEFINITION_KW => "INPUT_FIELD_DEFINITION_KW"@,
    }
}

/// The name of a kind.
pub fn kind_str(k: SyntaxKind) -> (s: &'static str)
    ensures
        s@ == kind_name(k),
{
    match k {
        SyntaxKind::DIRECTIVE_DEFINITION => "DIRECTIVE_DEFINITION",
        SyntaxKind::DIRECTIVE_LOCATIONS => "DIRECTIVE_LOCATIONS",
        SyntaxKind::DIRECTIVE_LOCATION => "DIRECTIVE_LOCATION",
        SyntaxKind::DIRECTIVE => "DIRECTIVE",
        SyntaxKind::DIRECTIVES => "DIRECTIVES",
        SyntaxKind::ARGUMENTS_DEFINITION => "ARGUMENTS_DEFINITION",
        SyntaxKind::ARGUMENTS => "ARGUMENTS",
        SyntaxKind::ARGUMENT => "ARGUMENT",
        SyntaxKind::INPUT_VALUE_DEFINITION => "INPUT_VALUE_DEFINITION",
        SyntaxKind::DESCRIPTION => "DESCRIPTION",
        SyntaxKind::NAME => "NAME",
        SyntaxKind::NAMED_TYPE => "NAMED_TYPE",
        SyntaxKind::LIST_TYPE => "LIST_TYPE",
        SyntaxKind::NON_NULL_TYPE => "NON_NULL_TYPE",
        SyntaxKind::DEFAULT_VALUE => "DEFAULT_VALUE",
        SyntaxKind::VARIABLE => "VARIABLE",
        SyntaxKind::STRING_VALUE => "STRING_VALUE",
        SyntaxKind::INT_VALUE => "INT_VALUE",
        SyntaxKind::FLOAT_VALUE => "FLOAT_VALUE",
        SyntaxKind::BOOLEAN_VALUE => "BOOLEAN_VALUE",
        SyntaxKind::NULL_VALUE => "NULL_VALUE",
        SyntaxKind::ENUM_VALUE => "ENUM_VALUE",
        SyntaxKind::LIST_VALUE => "LIST_VALUE",
        SyntaxKind::OBJECT_VALUE => "OBJECT_VALUE",
        SyntaxKind::OBJECT_FIELD => "OBJECT_FIELD",
        SyntaxKind::ERROR => "ERROR",
        SyntaxKind::IDENT => "IDENT",
        SyntaxKind::STRING => "STRING",
        SyntaxKind::INT => "INT",
        SyntaxKind::FLOAT => "FLOAT",
        SyntaxKind::AT => "AT",
        SyntaxKind::DOLLAR => "DOLLAR",
        SyntaxKind::BANG => "BANG",
        SyntaxKind::L_PAREN => "L_PAREN",
        SyntaxKind::R_PAREN => "R_PAREN",
        SyntaxKind::L_BRACK => "L_BRACK",
        SyntaxKind::R_BRACK => "R_BRACK",
        SyntaxKind::L_CURLY => "L_CURLY",
        SyntaxKind::R_CURLY => "R_CURLY",
        SyntaxKind::COLON => "COLON",
        SyntaxKind::EQ => "EQ",
        SyntaxKind::PIPE => "PIPE",
        SyntaxKind::directive_KW => "directive_KW",
        SyntaxKind::repeatable_KW => "repeatable_KW",
        SyntaxKind::on_KW => "on_KW",
        SyntaxKind::true_KW => "true_KW",
        SyntaxKind::false_KW => "false_KW",
        SyntaxKind::null_KW => "null_KW",
        SyntaxKind::QUERY_KW => "QUERY_KW",
        SyntaxKind::MUTATION_KW => "MUTATION_KW",
        SyntaxKind::SUBSCRIPTION_KW => "SUBSCRIPTION_KW",
        SyntaxKind::FIELD_KW => "FIELD_KW",
        SyntaxKind::FRAGMENT_DEFINITION_KW => "FRAGMENT_DEFINITION_KW",
        SyntaxKind::FRAGMENT_SPREAD_KW => "FRAGMENT_SPREAD_KW",
        SyntaxKind::INLINE_FRAGMENT_KW => "INLINE_FRAGMENT_KW",
        SyntaxKind::VARIABLE_DEFINITION_KW => "VARIABLE_DEFINITION_KW",
        SyntaxKind::SCHEMA_KW => "SCHEMA_KW",
        SyntaxKind::SCALAR_KW => "SCALAR_KW",
        SyntaxKind::OBJECT_KW => "OBJECT_KW",
        SyntaxKind::FIELD_DEFINITION_KW => "FIELD_DEFINITION_KW",
        SyntaxKind::ARGUMENT_DEFINITION_KW => "ARGUMENT_DEFINITION_KW",
        SyntaxKind::INTERFACE_KW => "INTERFACE_KW",
        SyntaxKind::UNION_KW => "UNION_KW",
        SyntaxKind::ENUM_KW => "ENUM_KW",
        SyntaxKind::ENUM_VALUE_KW => "ENUM_VALUE_KW",
        SyntaxKind::INPUT_OBJECT_KW => "INPUT_OBJECT_KW",
        SyntaxKind::INPUT_FIELD_DEFINITION_KW => "INPUT_FIELD_DEFINITION_KW",
    }
}

/// `format!("{:?}", s)`: the text of `s` as Rust's `Debug` for `str` shows
/// it, in double quotes with special characters escaped.
#[verifier::external_body]
fn debug_str(s: &str) -> (r: String)
    ensures
        r@ == quoted(s@),
{
    format!("{:?}", s)
}

/// What Rust's `Debug` for `str` shows of a text.
pub uninterp spec fn quoted(s: Seq<char>) -> Seq<char>;

/// `level` steps of four spaces.
pub open spec fn indentation(level: nat) -> Seq<char> {
    Seq::new(4 * level, |i: int| ' ')
}

/// The number of UTF-8 bytes in the text of `e`.
pub open spec fn element_len(e: Element) -> nat {
    events_bytes(element_events(e))
}

/// A text range, `start..end`.
pub open spec fn range_text(start: nat, end: nat) -> Seq<char> {
    nat_text(start) + ".."@ + nat_text(end)
}

/// The lines that show `e`, starting at byte `offset`, `level` steps in:
/// for a node its kind and range, then its children one step further in; for
/// a token its kind, range and quoted text.
pub open spec fn element_text(e: Element, level: nat, offset: nat) -> Seq<char>
    decreases e,
{
    match e {
        Element::Node(k, cs) => indentation(level) + "- "@ + kind_name(k) + "@"@ + range_text(
            offset,
            offset + element_len(e),
        ) + "\n"@ + children_text(cs@, level + 1, offset),
        Element::Token(k, t) => indentation(level) + "- "@ + kind_name(k) + "@"@ + range_text(
            offset,
            offset + encode_utf8(t@).len(),
        ) + " "@ + quoted(t@) + "\n"@,
    }
}

/// The lines of the elements, one after the other, the first at `offset`.
pub open spec fn children_text(cs: Seq<Element>, level: nat, offset: nat) -> Seq<char>
    decreases cs,
{
    if cs.len() == 0 {
        Seq::empty()
    } else {
        children_text(cs.drop_last(), level, offset) + element_text(
            cs.last(),
            level,
            offset + events_bytes(children_events(cs.drop_last())),
        )
    }
}

/// An error: its position, the end of its text, its quoted message and its
/// text.
pub open spec fn error_text(e: ErrorView) -> Seq<char> {
    "ERROR@"@ + nat_text(e.index) + ":"@ + nat_text(e.index + encode_utf8(e.data).len()) + " "@ + quoted(
        e.message,
    ) + " "@ + e.data
}

/// One line for each error.
pub open spec fn errors_text(es: Seq<ErrorView>) -> Seq<char>
    decreases es.len(),
{
    if es.len() == 0 {
        Seq::empty()
    } else {
        errors_text(es.drop_last()) + "- "@ + error_text(es.last()) + "\n"@
    }
}

/// The text that shows a syntax tree: its nodes and tokens, then its errors.
pub open spec fn tree_text(root: Element, errors: Seq<ErrorView>, recursion: LimitTracker) -> Seq<char> {
    element_text(root, 0, 0) + errors_text(errors) + limit_text(recursion)
}

/// A recursion limit and the deepest reached, with no line break after.
pub open spec fn limit_text(l: LimitTracker) -> Seq<char> {
    "recursion limit: "@ + nat_text(l.limit as nat) + ", high: "@ + nat_text(l.high as nat)
}

fn append_nat(out: &mut String, n: u128)
    ensures
        final(out)@ == old(out)@ + nat_text(n as nat),
    decreases n,
{
    if n >= 10 {
        append_nat(out, n / 10);
    }
    let d = (n % 10) as u8;
    push_char(out, (d + 48) as char);
    assert((d + 48) as char == digit_char(d as int));
    assert(final(out)@ =~= old(out)@ + nat_text(n as nat));
}

fn append_indentation(out: &mut String, level: usize)
    ensures
        final(out)@ == old(out)@ + indentation(level as nat),
{
    let mut j: usize = 0;
    while j < level
        invariant
            j <= level,
            out@ == old(out)@ + indentation(j as nat),
        decreases level - j,
    {
        out.append("    ");
        proof {
            reveal_strlit("    ");
            assert(indentation((j + 1) as nat) =~= indentation(j as nat) + "    "@);
        }
        j += 1;
    }
}

/// The number of UTF-8 bytes in the text of `e`.
fn text_len(e: &Element) -> (n: u64)
    requires
        element_len(*e) <= u32::MAX,
    ensures
        n == element_len(*e),
    decreases e,
{
    match e {
        Element::Token(k, t) => {
            proof {
                reveal_with_fuel(events_bytes, 2);
                assert(seq![EventView::Token(*k, t@)].drop_last() =~= Seq::<EventView>::empty());
            }
            t.as_str().len() as u64
        },
        Element::Node(k, cs) => {
            proof {
                lemma_events_bytes_append(seq![EventView::Start(*k)], children_events(cs@));
                lemma_events_bytes_append(seq![EventView::Start(*k)] + children_events(cs@), seq![EventView::Finish]);
                reveal_with_fuel(events_bytes, 2);
                assert(seq![EventView::Start(*k)].drop_last() =~= Seq::<EventView>::empty());
                assert(seq![EventView::Finish].drop_last() =~= Seq::<EventView>::empty());
            }
            let mut sum: u64 = 0;
            let mut i: usize = 0;
            while i < cs.len()
                invariant
                    i <= cs.len(),
                    sum == events_bytes(children_events(cs@.take(i as int))),
                    events_bytes(children_events(cs@)) <= u32::MAX,
                    *e == Element::Node(*k, *cs),
                decreases cs.len() - i,
            {
                proof {
                    lemma_child_bytes(cs@, i as int);
                    assert((*e)->Node_1 == *cs);
                    assert(decreases_to!(*e => (*e)->Node_1));
                    assert(decreases_to!(*cs => cs@));
                    assert(decreases_to!(cs@ => cs@[i as int]));
                    assert(cs@.take(i + 1).drop_last() =~= cs@.take(i as int));
                    lemma_events_bytes_append(children_events(cs@.take(i as int)), element_events(cs@[i as int]));
                }
                let n = text_len(&cs[i]);
                sum = sum + n;
                i += 1;
            }
            assert(cs@.take(cs@.len() as int) =~= cs@);
            sum
        },
    }
}

/// Writes the lines of `e` at byte `offset`, `level` steps in.
#[verifier::rlimit(40)]
fn write_element(out: &mut String, e: &Element, level: usize, offset: u64)
    requires
        offset + element_len(*e) <= u32::MAX,
        level + element_events(*e).len() <= usize::MAX,
    ensures
        final(out)@ == old(out)@ + element_text(*e, level as nat, offset as nat),
    decreases e,
{
    append_indentation(out, level);
    out.append("- ");
    match e {
        Element::Token(k, t) => {
            out.append(kind_str(*k));
            out.append("@");
            append_nat(out, offset as u128);
            out.append("..");
            append_nat(out, (offset + t.as_str().len() as u64) as u128);
            out.append(" ");
            let q = debug_str(t.as_str());
            out.append(q.as_str());
            out.append("\n");
            proof {
                reveal_strlit("- ");
                reveal_strlit("@");
                reveal_strlit("..");
                reveal_strlit(" ");
                reveal_strlit("\n");
                reveal_with_fuel(events_bytes, 2);
                assert(seq![EventView::Token(*k, t@)].drop_last() =~= Seq::<EventView>::empty());
                assert(final(out)@ =~= old(out)@ + element_text(*e, level as nat, offset as nat));
            }
        },
        Element::Node(k, cs) => {
            let end = offset + text_len(e);
            out.append(kind_str(*k));
            out.append("@");
            append_nat(out, offset as u128);
            out.append("..");
            append_nat(out, end as u128);
            out.append("\n");
            proof {
                reveal_strlit("- ");
                reveal_strlit("@");
                reveal_strlit("..");
                reveal_strlit("\n");
                lemma_events_bytes_append(seq![EventView::Start(*k)], children_events(cs@));
                lemma_events_bytes_append(seq![EventView::Start(*k)] + children_events(cs@), seq![EventView::Finish]);
                reveal_with_fuel(events_bytes, 2);
                assert(seq![EventView::Start(*k)].drop_last() =~= Seq::<EventView>::empty());
                assert(seq![EventView::Finish].drop_last() =~= Seq::<EventView>::empty());
            }
            let ghost head = out@;
            let mut off: u64 = offset;
            let mut i: usize = 0;
            while i < cs.len()
                invariant
                    i <= cs.len(),
                    off == offset + events_bytes(children_events(cs@.take(i as int))),
                    offset + events_bytes(children_events(cs@)) <= u32::MAX,
                    level + 2 + children_events(cs@).len() <= usize::MAX,
                    out@ == head + children_text(cs@.take(i as int), (level + 1) as nat, offset as nat),
                    *e == Element::Node(*k, *cs),
                decreases cs.len() - i,
            {
                proof {
                    lemma_child_bytes(cs@, i as int);
                    assert((*e)->Node_1 == *cs);
                    assert(decreases_to!(*e => (*e)->Node_1));
                    assert(decreases_to!(*cs => cs@));
                    assert(decreases_to!(cs@ => cs@[i as int]));
                    assert(cs@.take(i + 1).drop_last() =~= cs@.take(i as int));
                    assert(cs@.take(i + 1).last() == cs@[i as int]);
                    lemma_events_bytes_append(children_events(cs@.take(i as int)), element_events(cs@[i as int]));
                }
                write_element(out, &cs[i], level + 1, off);
                let n = text_len(&cs[i]);
                off = off + n;
                i += 1;
            }
            proof {
                assert(cs@.take(cs@.len() as int) =~= cs@);
                assert(final(out)@ =~= old(out)@ + element_text(*e, level as nat, offset as nat));
            }
        },
    }
}

impl Error {
    /// Writes this error as one line.
    fn write_line(&self, out: &mut String)
        requires
            encode_utf8(self@.data).len() <= usize::MAX,
        ensures
            final(out)@ == old(out)@ + "- "@ + error_text(self@) + "\n"@,
    {
        out.append("- ERROR@");
        let ghost a = out@;
        append_nat(out, self.index as u128);
        out.append(":");
        let end: u128 = self.index as u128 + self.data.as_str().len() as u128;
        assert(end == self@.index + encode_utf8(self@.data).len());
        let ghost b = out@;
        append_nat(out, end);
        out.append(" ");
        let q = debug_str(self.message.as_str());
        out.append(q.as_str());
        out.append(" ");
        out.append(self.data.as_str());
        out.append("\n");
        proof {
            reveal_strlit("- ERROR@");
            reveal_strlit("- ");
            reveal_strlit("ERROR@");
            reveal_strlit(":");
            reveal_strlit(" ");
            reveal_strlit("\n");
            assert("- ERROR@"@ =~= "- "@ + "ERROR@"@);
            assert(a =~= old(out)@ + "- "@ + "ERROR@"@);
            assert(b =~= a + nat_text(self@.index) + ":"@);
            assert(final(out)@ =~= old(out)@ + "- "@ + error_text(self@) + "\n"@);
        }
    }
}

impl SyntaxTree {
    /// The text that shows the tree: a line for each node and token, nested
    /// four spaces per level, with its byte range, a line for each error, and
    /// last the recursion limit.
    pub fn debug_text(&self) -> (r: String)
        ensures
            r@ == tree_text(self.element(), self.error_list(), self.recursion()),
    {
        proof {
            use_type_invariant(self);
        }
        let mut out = String::new();
        write_element(&mut out, &self.root, 0, 0);
        let mut i: usize = 0;
        while i < self.errors.len()
            invariant
                i <= self.errors.len(),
                errors_fit(self.error_list()),
                out@ == element_text(self.root, 0, 0) + errors_text(self.error_list().take(i as int)),
            decreases self.errors.len() - i,
        {
            assert(self.error_list()[i as int] == self.errors@[i as int]@);
            self.errors[i].write_line(&mut out);
            proof {
                assert(self.error_list().take(i + 1).drop_last() =~= self.error_list().take(i as int));
                assert(out@ =~= element_text(self.root, 0, 0) + errors_text(self.error_list().take(i + 1)));
            }
            i += 1;
        }
        assert(self.error_list().take(self.errors.len() as int) =~= self.error_list());
        let ghost before = out@;
        out.append("recursion limit: ");
        append_nat(&mut out, self.recursion_limit.limit as u128);
        out.append(", high: ");
        append_nat(&mut out, self.recursion_limit.high as u128);
        proof {
            reveal_strlit("recursion limit: ");
            reveal_strlit(", high: ");
            assert(out@ =~= before + limit_text(self.recursion_limit));
        }
        out
    }
}

/// Parses a directive definition from `tokens` (up to the first `Eof`) into
/// its syntax tree, whose root is the `DIRECTIVE_DEFINITION` node, with the
/// errors met. Whatever the tokens, the tree holds every token read, in
/// order.
pub fn parse_directive_definition(tokens: Vec<Token>) -> (t: SyntaxTree)
    requires
        tokens_bytes(tokens@.map_values(|x: Token| x@)) <= u32::MAX,
    ensures
        ({
            let v = Parser::start_view(tokens@.map_values(|x: Token| x@));
            &&& element_events(t.element()) == g_directive_definition(v).events
            &&& t.error_list() == g_directive_definition(v).errors
            &&& token_texts(element_events(t.element())) == read_texts(
                v.tokens,
                0,
                g_directive_definition(v).pos as int,
            )
            &&& t.recursion() == (LimitTracker { high: 0, limit: DEFAULT_RECURSION_LIMIT })
            &&& t.tokens() == (LimitTracker { high: g_directive_definition(v).pos as usize, limit: usize::MAX })
        }),
{
    let ghost input = tokens@.map_values(|x: Token| x@);
    let mut p = Parser::new(tokens);
    let ghost v = p@;
    assert(v == Parser::start_view(input)) by {
        assert(v.events =~= Seq::<EventView>::empty());
        assert(v.errors =~= Seq::<ErrorView>::empty());
    }
    directive_definition(&mut p);
    proof {
        let r = p@;
        lemma_directive_definition_is_one_node(v);
        assert(r.events.skip(0) =~= r.events);
        assert(r.events == crate::tree_laws::added(v, r));
        lemma_events_bytes_texts(r.events);
        lemma_read_texts_bytes(v.tokens, r.pos as int);
        lemma_terminated_bytes(input);
        assert forall|i: int| 0 <= i < r.errors.len() implies encode_utf8(#[trigger] r.errors[i].data).len()
            <= u32::MAX by {
            lemma_text_at_bytes(v.tokens, r.errors[i].index as int);
        }
    }
    p.finish()
}

} // verus!
