//! Every grammar rule adds a well-nested sequence of tree events: node starts
//! and ends match, so the events always describe a tree. The tokens in the
//! events are the tokens read, in order, and every error holds the text of
//! the token it is about. A directive definition adds exactly one node.
use vstd::prelude::*;
use crate::grammar::{
    g_argument, g_arguments, g_arguments_definition, g_arguments_rest, g_default_value, g_definition_head,
    g_definition_tail, g_description, g_directive, g_directive_definition, g_directive_location,
    g_directive_locations, g_directives, g_directives_rest, g_input_value_definition, g_input_values_rest,
    g_list_rest, g_locations_rest, g_name, g_object_field, g_object_rest, g_type, g_value, remaining,
    Constness,
};
use crate::parser::{
    p_bump, p_err, p_err_and_pop, p_expect, p_finish, p_peek, p_start, p_wrap, EventView, ParserView,
    SyntaxKind, TokenView,
};

verus! {

/// How an event changes the number of open nodes.
pub open spec fn event_delta(e: EventView) -> int {
    match e {
        EventView::Start(_) => 1,
        EventView::Finish => -1,
        EventView::Token(_, _) => 0,
    }
}

/// The number of nodes open after the events.
pub open spec fn depth(es: Seq<EventView>) -> int
    decreases es.len(),
{
    if es.len() == 0 {
        0
    } else {
        depth(es.drop_last()) + event_delta(es.last())
    }
}

/// Every node end closes a node started in `es`, and every node started is
/// ended.
pub open spec fn balanced(es: Seq<EventView>) -> bool {
    &&& forall|i: int| 0 <= i <= es.len() ==> depth(#[trigger] es.take(i)) >= 0
    &&& depth(es) == 0
}

/// What `r` added to the events of `v`.
pub open spec fn added(v: ParserView, r: ParserView) -> Seq<EventView> {
    r.events.skip(v.events.len() as int)
}

/// The texts of the tokens among `es`, in order.
pub open spec fn token_texts(es: Seq<EventView>) -> Seq<Seq<char>>
    decreases es.len(),
{
    if es.len() == 0 {
        Seq::empty()
    } else {
        match es.last() {
            EventView::Token(_, t) => token_texts(es.drop_last()).push(t),
            _ => token_texts(es.drop_last()),
        }
    }
}

/// The text of the token at `i`; empty past the end.
pub open spec fn text_at(tokens: Seq<TokenView>, i: int) -> Seq<char> {
    if 0 <= i < tokens.len() {
        tokens[i].data
    } else {
        Seq::empty()
    }
}

/// The texts of the tokens from `from` up to `to`.
pub open spec fn read_texts(tokens: Seq<TokenView>, from: int, to: int) -> Seq<Seq<char>> {
    Seq::new((to - from) as nat, |i: int| text_at(tokens, from + i))
}

/// `r` goes on from `v`: over the same tokens, it keeps the events of `v` and
/// adds a balanced sequence to them whose tokens are the tokens read, in
/// order; it keeps the errors of `v`, and each error it adds holds the text
/// of the token at its index.
pub open spec fn grows(v: ParserView, r: ParserView) -> bool {
    &&& r.events.len() >= v.events.len()
    &&& r.events.take(v.events.len() as int) == v.events
    &&& balanced(added(v, r))
    &&& r.tokens == v.tokens
    &&& v.pos <= r.pos
    &&& token_texts(added(v, r)) == read_texts(v.tokens, v.pos as int, r.pos as int)
    &&& r.errors.len() >= v.errors.len()
    &&& r.errors.take(v.errors.len() as int) == v.errors
    &&& forall|i: int|
        v.errors.len() <= i < r.errors.len() ==> (#[trigger] r.errors[i]).data == text_at(
            v.tokens,
            r.errors[i].index as int,
        )
}

pub proof fn lemma_token_texts_append(a: Seq<EventView>, b: Seq<EventView>)
    ensures
        token_texts(a + b) == token_texts(a) + token_texts(b),
    decreases b.len(),
{
    if b.len() == 0 {
        assert(a + b =~= a);
        assert(token_texts(a) + token_texts(b) =~= token_texts(a));
    } else {
        lemma_token_texts_append(a, b.drop_last());
        assert((a + b).drop_last() =~= a + b.drop_last());
        assert((a + b).last() == b.last());
        match b.last() {
            EventView::Token(_, t) => {
                assert(token_texts(a) + token_texts(b) =~= (token_texts(a) + token_texts(b.drop_last())).push(t));
            },
            _ => {},
        }
    }
}

proof fn lemma_token_texts_one(e: EventView)
    ensures
        token_texts(seq![e]) == match e {
            EventView::Token(_, t) => seq![t],
            _ => Seq::<Seq<char>>::empty(),
        },
{
    assert(seq![e].drop_last() =~= Seq::<EventView>::empty());
    reveal_with_fuel(token_texts, 2);
    assert(Seq::<Seq<char>>::empty().push(e->Token_1) =~= seq![e->Token_1]);
}

/// `es` is one node: a start, a balanced sequence, an end.
pub open spec fn is_one_node(es: Seq<EventView>) -> bool {
    &&& es.len() >= 2
    &&& es[0] is Start
    &&& es.last() is Finish
    &&& balanced(es.subrange(1, es.len() - 1))
}

pub proof fn lemma_depth_append(a: Seq<EventView>, b: Seq<EventView>)
    ensures
        depth(a + b) == depth(a) + depth(b),
    decreases b.len(),
{
    if b.len() == 0 {
        assert(a + b =~= a);
    } else {
        lemma_depth_append(a, b.drop_last());
        assert((a + b).drop_last() =~= a + b.drop_last());
    }
}

proof fn lemma_balanced_append(a: Seq<EventView>, b: Seq<EventView>)
    requires
        balanced(a),
        balanced(b),
    ensures
        balanced(a + b),
{
    lemma_depth_append(a, b);
    assert forall|i: int| 0 <= i <= (a + b).len() implies depth(#[trigger] (a + b).take(i)) >= 0 by {
        if i <= a.len() {
            assert((a + b).take(i) =~= a.take(i));
        } else {
            assert((a + b).take(i) =~= a + b.take(i - a.len()));
            lemma_depth_append(a, b.take(i - a.len()));
        }
    }
}

proof fn lemma_balanced_node(k: SyntaxKind, b: Seq<EventView>)
    requires
        balanced(b),
    ensures
        balanced(seq![EventView::Start(k)] + b + seq![EventView::Finish]),
        is_one_node(seq![EventView::Start(k)] + b + seq![EventView::Finish]),
{
    let s = seq![EventView::Start(k)];
    let f = seq![EventView::Finish];
    let all = s + b + f;
    assert(depth(s) == 1) by {
        assert(s.drop_last() =~= Seq::<EventView>::empty());
        reveal_with_fuel(depth, 2);
    }
    assert(depth(f) == -1) by {
        assert(f.drop_last() =~= Seq::<EventView>::empty());
        reveal_with_fuel(depth, 2);
    }
    lemma_depth_append(s, b);
    lemma_depth_append(s + b, f);
    assert forall|i: int| 0 <= i <= all.len() implies depth(#[trigger] all.take(i)) >= 0 by {
        if i == 0 {
            assert(all.take(0) =~= Seq::<EventView>::empty());
        } else if i <= b.len() + 1 {
            assert(all.take(i) =~= s + b.take(i - 1));
            lemma_depth_append(s, b.take(i - 1));
        } else {
            assert(all.take(i) =~= all);
        }
    }
    assert(all.subrange(1, all.len() - 1) =~= b);
}

proof fn lemma_balanced_token(k: SyntaxKind, t: Seq<char>)
    ensures
        balanced(seq![EventView::Token(k, t)]),
{
    let s = seq![EventView::Token(k, t)];
    assert(s.drop_last() =~= Seq::<EventView>::empty());
    reveal_with_fuel(depth, 2);
    assert forall|i: int| 0 <= i <= s.len() implies depth(#[trigger] s.take(i)) >= 0 by {
        if i == 0 {
            assert(s.take(0) =~= Seq::<EventView>::empty());
        } else {
            assert(s.take(1) =~= s);
        }
    }
}

proof fn lemma_balanced_empty()
    ensures
        balanced(Seq::<EventView>::empty()),
{
    assert forall|i: int| 0 <= i <= 0 implies depth(#[trigger] Seq::<EventView>::empty().take(i)) >= 0 by {
        assert(Seq::<EventView>::empty().take(i) =~= Seq::<EventView>::empty());
    }
}

proof fn lemma_grows_refl(v: ParserView)
    ensures
        grows(v, v),
{
    lemma_balanced_empty();
    assert(added(v, v) =~= Seq::<EventView>::empty());
    assert(v.events.take(v.events.len() as int) =~= v.events);
    assert(read_texts(v.tokens, v.pos as int, v.pos as int) =~= Seq::<Seq<char>>::empty());
    assert(v.errors.take(v.errors.len() as int) =~= v.errors);
}

proof fn lemma_grows_trans(a: ParserView, b: ParserView, c: ParserView)
    requires
        grows(a, b),
        grows(b, c),
    ensures
        grows(a, c),
{
    assert(added(a, c) =~= added(a, b) + added(b, c)) by {
        assert(b.events =~= a.events + added(a, b));
        assert(c.events =~= b.events + added(b, c));
    }
    lemma_balanced_append(added(a, b), added(b, c));
    assert(c.events.take(a.events.len() as int) =~= a.events) by {
        assert(c.events.take(b.events.len() as int) == b.events);
    }
    lemma_token_texts_append(added(a, b), added(b, c));
    assert(read_texts(a.tokens, a.pos as int, c.pos as int) =~= read_texts(a.tokens, a.pos as int, b.pos as int)
        + read_texts(a.tokens, b.pos as int, c.pos as int));
    assert(c.errors.take(a.errors.len() as int) =~= a.errors) by {
        assert(c.errors.take(b.errors.len() as int) == b.errors);
        assert(b.errors.take(a.errors.len() as int) == a.errors);
    }
    assert forall|i: int| a.errors.len() <= i < c.errors.len() implies (#[trigger] c.errors[i]).data == text_at(
        a.tokens,
        c.errors[i].index as int,
    ) by {
        if i < b.errors.len() {
            assert(c.errors[i] == c.errors.take(b.errors.len() as int)[i]);
        }
    }
}

proof fn lemma_grows_bump(v: ParserView, k: SyntaxKind)
    ensures
        grows(v, p_bump(v, k)),
{
    let r = p_bump(v, k);
    assert(added(v, r) =~= seq![EventView::Token(k, r.events.last()->Token_1)]);
    lemma_balanced_token(k, r.events.last()->Token_1);
    assert(r.events.take(v.events.len() as int) =~= v.events);
    lemma_token_texts_one(EventView::Token(k, r.events.last()->Token_1));
    assert(read_texts(v.tokens, v.pos as int, r.pos as int) =~= seq![text_at(v.tokens, v.pos as int)]);
    assert(v.errors.take(v.errors.len() as int) =~= v.errors);
}

proof fn lemma_grows_err(v: ParserView, m: Seq<char>)
    ensures
        grows(v, p_err(v, m)),
{
    lemma_grows_refl(v);
    assert(p_err(v, m).events == v.events);
    assert(p_err(v, m).errors.take(v.errors.len() as int) =~= v.errors);
}

proof fn lemma_grows_err_and_pop(v: ParserView, m: Seq<char>)
    ensures
        grows(v, p_err_and_pop(v, m)),
{
    lemma_grows_err(v, m);
    lemma_grows_bump(p_err(v, m), SyntaxKind::ERROR);
    lemma_grows_trans(v, p_err(v, m), p_err_and_pop(v, m));
}

proof fn lemma_grows_expect(v: ParserView, t: crate::parser::TokenKind, k: SyntaxKind, m: Seq<char>)
    ensures
        grows(v, p_expect(v, t, k, m)),
{
    lemma_grows_bump(v, k);
    lemma_grows_err(v, m);
}

/// A node of `k` around what `w` added after the start.
proof fn lemma_grows_node(v: ParserView, k: SyntaxKind, w: ParserView)
    requires
        grows(p_start(v, k), w),
    ensures
        grows(v, p_finish(w)),
        is_one_node(added(v, p_finish(w))),
        added(v, p_finish(w))[0] == EventView::Start(k),
{
    let s = p_start(v, k);
    let r = p_finish(w);
    let b = added(s, w);
    lemma_balanced_node(k, b);
    assert(w.events =~= s.events + b);
    assert(added(v, r) =~= seq![EventView::Start(k)] + b + seq![EventView::Finish]);
    assert(r.events.take(v.events.len() as int) =~= v.events);
    lemma_token_texts_one(EventView::Start(k));
    lemma_token_texts_one(EventView::Finish);
    lemma_token_texts_append(seq![EventView::Start(k)], b);
    lemma_token_texts_append(seq![EventView::Start(k)] + b, seq![EventView::Finish]);
    assert(token_texts(added(v, r)) =~= token_texts(b));
}

proof fn lemma_name(v: ParserView)
    ensures
        grows(v, g_name(v)),
{
    if p_peek(v) == crate::parser::TokenKind::Name {
        let s = p_start(v, SyntaxKind::NAME);
        lemma_grows_bump(s, SyntaxKind::IDENT);
        lemma_grows_node(v, SyntaxKind::NAME, p_bump(s, SyntaxKind::IDENT));
    } else {
        lemma_grows_err(v, "expected a Name"@);
    }
}

proof fn lemma_description(v: ParserView)
    ensures
        grows(v, g_description(v)),
{
    let s = p_start(v, SyntaxKind::DESCRIPTION);
    lemma_grows_bump(s, SyntaxKind::STRING);
    lemma_grows_node(v, SyntaxKind::DESCRIPTION, p_bump(s, SyntaxKind::STRING));
}

proof fn lemma_type(v: ParserView)
    ensures
        grows(v, g_type(v)),
    decreases remaining(v),
{
    let base = if p_peek(v) == crate::parser::TokenKind::LBracket && remaining(v) > 1 {
        let s = p_start(v, SyntaxKind::LIST_TYPE);
        let b = p_bump(s, SyntaxKind::L_BRACK);
        lemma_grows_bump(s, SyntaxKind::L_BRACK);
        lemma_type(b);
        lemma_grows_trans(s, b, g_type(b));
        let e = p_expect(g_type(b), crate::parser::TokenKind::RBracket, SyntaxKind::R_BRACK, "expected R_BRACK"@);
        lemma_grows_expect(g_type(b), crate::parser::TokenKind::RBracket, SyntaxKind::R_BRACK, "expected R_BRACK"@);
        lemma_grows_trans(s, g_type(b), e);
        lemma_grows_node(v, SyntaxKind::LIST_TYPE, e);
        p_finish(e)
    } else if p_peek(v) == crate::parser::TokenKind::Name {
        let s = p_start(v, SyntaxKind::NAMED_TYPE);
        lemma_name(s);
        lemma_grows_node(v, SyntaxKind::NAMED_TYPE, g_name(s));
        p_finish(g_name(s))
    } else {
        lemma_grows_err(v, "expected a type"@);
        p_err(v, "expected a type"@)
    };
    if p_peek(base) == crate::parser::TokenKind::Bang {
        let c = v.events.len() as int;
        let wrapped = p_wrap(base, c, SyntaxKind::NON_NULL_TYPE);
        let inner = added(v, base);
        assert(base.events =~= v.events + inner);
        assert(wrapped.events =~= v.events + (seq![EventView::Start(SyntaxKind::NON_NULL_TYPE)] + inner));
        let s = p_start(v, SyntaxKind::NON_NULL_TYPE);
        let bumped = p_bump(wrapped, SyntaxKind::BANG);
        lemma_grows_bump(wrapped, SyntaxKind::BANG);
        assert(added(s, wrapped) =~= inner);
        assert(wrapped.events.take(s.events.len() as int) =~= s.events);
        lemma_grows_trans(s, wrapped, bumped);
        lemma_grows_node(v, SyntaxKind::NON_NULL_TYPE, bumped);
    }
}

proof fn lemma_value(v: ParserView, c: Constness)
    ensures
        grows(v, g_value(v, c)),
    decreases remaining(v), 0int,
{
    match p_peek(v) {
        crate::parser::TokenKind::Dollar => {
            let v1 = if c == Constness::Const {
                p_err(v, "unexpected variable value in a Const context"@)
            } else {
                v
            };
            lemma_grows_err(v, "unexpected variable value in a Const context"@);
            lemma_grows_refl(v);
            let s = p_start(v1, SyntaxKind::VARIABLE);
            let b = p_bump(s, SyntaxKind::DOLLAR);
            lemma_grows_bump(s, SyntaxKind::DOLLAR);
            lemma_name(b);
            lemma_grows_trans(s, b, g_name(b));
            lemma_grows_node(v1, SyntaxKind::VARIABLE, g_name(b));
            lemma_grows_trans(v, v1, p_finish(g_name(b)));
        },
        crate::parser::TokenKind::StringValue => {
            let s = p_start(v, SyntaxKind::STRING_VALUE);
            lemma_grows_bump(s, SyntaxKind::STRING);
            lemma_grows_node(v, SyntaxKind::STRING_VALUE, p_bump(s, SyntaxKind::STRING));
        },
        crate::parser::TokenKind::Int => {
            let s = p_start(v, SyntaxKind::INT_VALUE);
            lemma_grows_bump(s, SyntaxKind::INT);
            lemma_grows_node(v, SyntaxKind::INT_VALUE, p_bump(s, SyntaxKind::INT));
        },
        crate::parser::TokenKind::Float => {
            let s = p_start(v, SyntaxKind::FLOAT_VALUE);
            lemma_grows_bump(s, SyntaxKind::FLOAT);
            lemma_grows_node(v, SyntaxKind::FLOAT_VALUE, p_bump(s, SyntaxKind::FLOAT));
        },
        crate::parser::TokenKind::Name => {
            let sb = p_start(v, SyntaxKind::BOOLEAN_VALUE);
            lemma_grows_bump(sb, SyntaxKind::true_KW);
            lemma_grows_node(v, SyntaxKind::BOOLEAN_VALUE, p_bump(sb, SyntaxKind::true_KW));
            lemma_grows_bump(sb, SyntaxKind::false_KW);
            lemma_grows_node(v, SyntaxKind::BOOLEAN_VALUE, p_bump(sb, SyntaxKind::false_KW));
            let sn = p_start(v, SyntaxKind::NULL_VALUE);
            lemma_grows_bump(sn, SyntaxKind::null_KW);
            lemma_grows_node(v, SyntaxKind::NULL_VALUE, p_bump(sn, SyntaxKind::null_KW));
            let se = p_start(v, SyntaxKind::ENUM_VALUE);
            lemma_name(se);
            lemma_grows_node(v, SyntaxKind::ENUM_VALUE, g_name(se));
        },
        crate::parser::TokenKind::LBracket => {
            if remaining(v) > 1 {
                let s = p_start(v, SyntaxKind::LIST_VALUE);
                let b = p_bump(s, SyntaxKind::L_BRACK);
                lemma_grows_bump(s, SyntaxKind::L_BRACK);
                lemma_list_rest(b, c);
                lemma_grows_trans(s, b, g_list_rest(b, c));
                lemma_grows_node(v, SyntaxKind::LIST_VALUE, g_list_rest(b, c));
            } else {
                lemma_grows_refl(v);
            }
        },
        crate::parser::TokenKind::LCurly => {
            if remaining(v) > 1 {
                let s = p_start(v, SyntaxKind::OBJECT_VALUE);
                let b = p_bump(s, SyntaxKind::L_CURLY);
                lemma_grows_bump(s, SyntaxKind::L_CURLY);
                lemma_object_rest(b, c);
                lemma_grows_trans(s, b, g_object_rest(b, c));
                lemma_grows_node(v, SyntaxKind::OBJECT_VALUE, g_object_rest(b, c));
            } else {
                lemma_grows_refl(v);
            }
        },
        crate::parser::TokenKind::Eof => {
            lemma_grows_err(v, "expected a valid Value"@);
        },
        _ => {
            lemma_grows_err_and_pop(v, "expected a valid Value"@);
        },
    }
}

proof fn lemma_list_rest(v: ParserView, c: Constness)
    ensures
        grows(v, g_list_rest(v, c)),
    decreases remaining(v), 2int,
{
    if p_peek(v) == crate::parser::TokenKind::RBracket {
        lemma_grows_bump(v, SyntaxKind::R_BRACK);
    } else if p_peek(v) == crate::parser::TokenKind::Eof {
        lemma_grows_err(v, "expected R_BRACK"@);
    } else {
        let r = g_value(v, c);
        lemma_value(v, c);
        if crate::grammar::advanced(v, r) {
            lemma_list_rest(r, c);
            lemma_grows_trans(v, r, g_list_rest(r, c));
        }
    }
}

proof fn lemma_object_field(v: ParserView, c: Constness)
    ensures
        grows(v, g_object_field(v, c)),
    decreases remaining(v), 1int,
{
    let s = p_start(v, SyntaxKind::OBJECT_FIELD);
    lemma_name(s);
    let e = p_expect(g_name(s), crate::parser::TokenKind::Colon, SyntaxKind::COLON, "expected a Colon"@);
    lemma_grows_expect(g_name(s), crate::parser::TokenKind::Colon, SyntaxKind::COLON, "expected a Colon"@);
    lemma_grows_trans(s, g_name(s), e);
    lemma_value(e, c);
    lemma_grows_trans(s, e, g_value(e, c));
    lemma_grows_node(v, SyntaxKind::OBJECT_FIELD, g_value(e, c));
}

proof fn lemma_object_rest(v: ParserView, c: Constness)
    ensures
        grows(v, g_object_rest(v, c)),
    decreases remaining(v), 2int,
{
    if p_peek(v) == crate::parser::TokenKind::RCurly {
        lemma_grows_bump(v, SyntaxKind::R_CURLY);
    } else if p_peek(v) == crate::parser::TokenKind::Eof {
        lemma_grows_err(v, "expected R_CURLY"@);
    } else if p_peek(v) == crate::parser::TokenKind::Name {
        let r = g_object_field(v, c);
        lemma_object_field(v, c);
        if crate::grammar::advanced(v, r) {
            lemma_object_rest(r, c);
            lemma_grows_trans(v, r, g_object_rest(r, c));
        }
    } else {
        let r = p_err_and_pop(v, "expected an Object Field"@);
        lemma_grows_err_and_pop(v, "expected an Object Field"@);
        if crate::grammar::advanced(v, r) {
            lemma_object_rest(r, c);
            lemma_grows_trans(v, r, g_object_rest(r, c));
        }
    }
}

proof fn lemma_default_value(v: ParserView)
    ensures
        grows(v, g_default_value(v)),
{
    let s = p_start(v, SyntaxKind::DEFAULT_VALUE);
    let b = p_bump(s, SyntaxKind::EQ);
    lemma_grows_bump(s, SyntaxKind::EQ);
    lemma_value(b, Constness::Const);
    lemma_grows_trans(s, b, g_value(b, Constness::Const));
    lemma_grows_node(v, SyntaxKind::DEFAULT_VALUE, g_value(b, Constness::Const));
}

proof fn lemma_argument(v: ParserView, c: Constness)
    ensures
        grows(v, g_argument(v, c)),
{
    let s = p_start(v, SyntaxKind::ARGUMENT);
    lemma_name(s);
    let e = p_expect(g_name(s), crate::parser::TokenKind::Colon, SyntaxKind::COLON, "expected a Colon"@);
    lemma_grows_expect(g_name(s), crate::parser::TokenKind::Colon, SyntaxKind::COLON, "expected a Colon"@);
    lemma_grows_trans(s, g_name(s), e);
    lemma_value(e, c);
    lemma_grows_trans(s, e, g_value(e, c));
    lemma_grows_node(v, SyntaxKind::ARGUMENT, g_value(e, c));
}

proof fn lemma_arguments_rest(v: ParserView, c: Constness)
    ensures
        grows(v, g_arguments_rest(v, c)),
    decreases remaining(v),
{
    if p_peek(v) == crate::parser::TokenKind::Name {
        let r = g_argument(v, c);
        lemma_argument(v, c);
        if crate::grammar::advanced(v, r) {
            lemma_arguments_rest(r, c);
            lemma_grows_trans(v, r, g_arguments_rest(r, c));
        }
    } else {
        lemma_grows_refl(v);
    }
}

proof fn lemma_arguments(v: ParserView, c: Constness)
    ensures
        grows(v, g_arguments(v, c)),
{
    let s = p_start(v, SyntaxKind::ARGUMENTS);
    let v1 = p_bump(s, SyntaxKind::L_PAREN);
    lemma_grows_bump(s, SyntaxKind::L_PAREN);
    let v2 = if p_peek(v1) == crate::parser::TokenKind::Name {
        lemma_argument(v1, c);
        g_argument(v1, c)
    } else {
        lemma_grows_err(v1, "expected an Argument"@);
        p_err(v1, "expected an Argument"@)
    };
    lemma_grows_trans(s, v1, v2);
    lemma_arguments_rest(v2, c);
    lemma_grows_trans(s, v2, g_arguments_rest(v2, c));
    let e = p_expect(g_arguments_rest(v2, c), crate::parser::TokenKind::RParen, SyntaxKind::R_PAREN, "expected R_PAREN"@);
    lemma_grows_expect(g_arguments_rest(v2, c), crate::parser::TokenKind::RParen, SyntaxKind::R_PAREN, "expected R_PAREN"@);
    lemma_grows_trans(s, g_arguments_rest(v2, c), e);
    lemma_grows_node(v, SyntaxKind::ARGUMENTS, e);
}

proof fn lemma_directive(v: ParserView, c: Constness)
    ensures
        grows(v, g_directive(v, c)),
{
    let s = p_start(v, SyntaxKind::DIRECTIVE);
    let e = p_expect(s, crate::parser::TokenKind::At, SyntaxKind::AT, "expected @"@);
    lemma_grows_expect(s, crate::parser::TokenKind::At, SyntaxKind::AT, "expected @"@);
    lemma_name(e);
    lemma_grows_trans(s, e, g_name(e));
    let v1 = g_name(e);
    if p_peek(v1) == crate::parser::TokenKind::LParen {
        lemma_arguments(v1, c);
        lemma_grows_trans(s, v1, g_arguments(v1, c));
        lemma_grows_node(v, SyntaxKind::DIRECTIVE, g_arguments(v1, c));
    } else {
        lemma_grows_node(v, SyntaxKind::DIRECTIVE, v1);
    }
}

proof fn lemma_directives_rest(v: ParserView, c: Constness)
    ensures
        grows(v, g_directives_rest(v, c)),
    decreases remaining(v),
{
    if p_peek(v) == crate::parser::TokenKind::At {
        let r = g_directive(v, c);
        lemma_directive(v, c);
        if crate::grammar::advanced(v, r) {
            lemma_directives_rest(r, c);
            lemma_grows_trans(v, r, g_directives_rest(r, c));
        }
    } else {
        lemma_grows_refl(v);
    }
}

proof fn lemma_directives(v: ParserView, c: Constness)
    ensures
        grows(v, g_directives(v, c)),
{
    let s = p_start(v, SyntaxKind::DIRECTIVES);
    lemma_directives_rest(s, c);
    lemma_grows_node(v, SyntaxKind::DIRECTIVES, g_directives_rest(s, c));
}

proof fn lemma_input_value_definition(v: ParserView)
    ensures
        grows(v, g_input_value_definition(v)),
{
    let v1 = p_start(v, SyntaxKind::INPUT_VALUE_DEFINITION);
    let v2 = if p_peek(v1) == crate::parser::TokenKind::StringValue {
        lemma_description(v1);
        g_description(v1)
    } else {
        lemma_grows_refl(v1);
        v1
    };
    let v3 = g_name(v2);
    lemma_name(v2);
    lemma_grows_trans(v1, v2, v3);
    if p_peek(v3) == crate::parser::TokenKind::Colon {
        let v5 = p_bump(v3, SyntaxKind::COLON);
        lemma_grows_bump(v3, SyntaxKind::COLON);
        lemma_grows_trans(v1, v3, v5);
        if p_peek(v5) == crate::parser::TokenKind::Name || p_peek(v5) == crate::parser::TokenKind::LBracket {
            let v6 = g_type(v5);
            lemma_type(v5);
            lemma_grows_trans(v1, v5, v6);
            let v7 = if p_peek(v6) == crate::parser::TokenKind::Eq {
                lemma_default_value(v6);
                g_default_value(v6)
            } else {
                lemma_grows_refl(v6);
                v6
            };
            lemma_grows_trans(v1, v6, v7);
            if p_peek(v7) == crate::parser::TokenKind::At {
                lemma_directives(v7, Constness::Const);
                lemma_grows_trans(v1, v7, g_directives(v7, Constness::Const));
                lemma_grows_node(v, SyntaxKind::INPUT_VALUE_DEFINITION, g_directives(v7, Constness::Const));
            } else {
                lemma_grows_node(v, SyntaxKind::INPUT_VALUE_DEFINITION, v7);
            }
        } else {
            lemma_grows_err(v5, "expected a Type"@);
            lemma_grows_trans(v1, v5, p_err(v5, "expected a Type"@));
            lemma_grows_node(v, SyntaxKind::INPUT_VALUE_DEFINITION, p_err(v5, "expected a Type"@));
        }
    } else {
        lemma_grows_err(v3, "expected a Name"@);
        lemma_grows_trans(v1, v3, p_err(v3, "expected a Name"@));
        lemma_grows_node(v, SyntaxKind::INPUT_VALUE_DEFINITION, p_err(v3, "expected a Name"@));
    }
}

proof fn lemma_input_values_rest(v: ParserView)
    ensures
        grows(v, g_input_values_rest(v)),
    decreases remaining(v),
{
    if p_peek(v) == crate::parser::TokenKind::Name || p_peek(v) == crate::parser::TokenKind::StringValue {
        let r = g_input_value_definition(v);
        lemma_input_value_definition(v);
        if crate::grammar::advanced(v, r) {
            lemma_input_values_rest(r);
            lemma_grows_trans(v, r, g_input_values_rest(r));
        }
    } else {
        lemma_grows_refl(v);
    }
}

proof fn lemma_arguments_definition(v: ParserView)
    ensures
        grows(v, g_arguments_definition(v)),
{
    let s = p_start(v, SyntaxKind::ARGUMENTS_DEFINITION);
    let v1 = p_bump(s, SyntaxKind::L_PAREN);
    lemma_grows_bump(s, SyntaxKind::L_PAREN);
    let v2 = if p_peek(v1) == crate::parser::TokenKind::Name || p_peek(v1) == crate::parser::TokenKind::StringValue {
        lemma_input_value_definition(v1);
        g_input_value_definition(v1)
    } else {
        lemma_grows_err(v1, "expected an Argument Definition"@);
        p_err(v1, "expected an Argument Definition"@)
    };
    lemma_grows_trans(s, v1, v2);
    lemma_input_values_rest(v2);
    lemma_grows_trans(s, v2, g_input_values_rest(v2));
    let e = p_expect(g_input_values_rest(v2), crate::parser::TokenKind::RParen, SyntaxKind::R_PAREN, "expected R_PAREN"@);
    lemma_grows_expect(g_input_values_rest(v2), crate::parser::TokenKind::RParen, SyntaxKind::R_PAREN, "expected R_PAREN"@);
    lemma_grows_trans(s, g_input_values_rest(v2), e);
    lemma_grows_node(v, SyntaxKind::ARGUMENTS_DEFINITION, e);
}

proof fn lemma_directive_location(v: ParserView)
    ensures
        grows(v, g_directive_location(v)),
{
    if p_peek(v) == crate::parser::TokenKind::Name {
        match crate::grammar::location_keyword(crate::parser::p_data(v)) {
            Some(kind) => {
                let s = p_start(v, SyntaxKind::DIRECTIVE_LOCATION);
                lemma_grows_bump(s, kind);
                lemma_grows_node(v, SyntaxKind::DIRECTIVE_LOCATION, p_bump(s, kind));
            },
            None => lemma_grows_err(v, "expected valid Directive Location"@),
        }
    } else {
        lemma_grows_err(v, "expected Directive Location"@);
    }
}

proof fn lemma_locations_rest(v: ParserView)
    ensures
        grows(v, g_locations_rest(v)),
    decreases remaining(v),
{
    if p_peek(v) == crate::parser::TokenKind::Pipe && remaining(v) > 1 {
        let b = p_bump(v, SyntaxKind::PIPE);
        lemma_grows_bump(v, SyntaxKind::PIPE);
        lemma_directive_location(b);
        lemma_grows_trans(v, b, g_directive_location(b));
        lemma_locations_rest(g_directive_location(b));
        lemma_grows_trans(v, g_directive_location(b), g_locations_rest(g_directive_location(b)));
    } else {
        lemma_grows_refl(v);
    }
}

proof fn lemma_directive_locations(v: ParserView)
    ensures
        grows(v, g_directive_locations(v)),
{
    let v1 = if p_peek(v) == crate::parser::TokenKind::Pipe {
        lemma_grows_bump(v, SyntaxKind::PIPE);
        p_bump(v, SyntaxKind::PIPE)
    } else {
        lemma_grows_refl(v);
        v
    };
    lemma_directive_location(v1);
    lemma_grows_trans(v, v1, g_directive_location(v1));
    lemma_locations_rest(g_directive_location(v1));
    lemma_grows_trans(v, g_directive_location(v1), g_locations_rest(g_directive_location(v1)));
}

/// Parsing a directive definition adds exactly one node to the tree, whatever
/// the tokens: a `DIRECTIVE_DEFINITION` start, well-nested events, and its
/// end. The tokens in that node are the tokens read, in order, and each error
/// it adds holds the text of the token at its index.
pub proof fn lemma_directive_definition_is_one_node(v: ParserView)
    ensures
        grows(v, g_directive_definition(v)),
        is_one_node(added(v, g_directive_definition(v))),
        added(v, g_directive_definition(v))[0] == EventView::Start(SyntaxKind::DIRECTIVE_DEFINITION),
{
    let s = p_start(v, SyntaxKind::DIRECTIVE_DEFINITION);
    let v2 = if p_peek(s) == crate::parser::TokenKind::StringValue {
        lemma_description(s);
        g_description(s)
    } else {
        lemma_grows_refl(s);
        s
    };
    let v3 = if crate::parser::p_data(v2) == "directive"@ && p_peek(v2) != crate::parser::TokenKind::Eof {
        lemma_grows_bump(v2, SyntaxKind::directive_KW);
        p_bump(v2, SyntaxKind::directive_KW)
    } else {
        lemma_grows_refl(v2);
        v2
    };
    lemma_grows_trans(s, v2, v3);
    let v4 = if p_peek(v3) == crate::parser::TokenKind::At {
        lemma_grows_bump(v3, SyntaxKind::AT);
        p_bump(v3, SyntaxKind::AT)
    } else {
        lemma_grows_err(v3, "expected @ symbol"@);
        p_err(v3, "expected @ symbol"@)
    };
    lemma_grows_trans(s, v3, v4);
    let v5 = g_name(v4);
    lemma_name(v4);
    lemma_grows_trans(s, v4, v5);
    assert(v5 == g_definition_head(v));
    let v6 = if p_peek(v5) == crate::parser::TokenKind::LParen {
        lemma_arguments_definition(v5);
        g_arguments_definition(v5)
    } else {
        lemma_grows_refl(v5);
        v5
    };
    lemma_grows_trans(s, v5, v6);
    let v7 = if crate::parser::p_data(v6) == "repeatable"@ && p_peek(v6) != crate::parser::TokenKind::Eof {
        lemma_grows_bump(v6, SyntaxKind::repeatable_KW);
        p_bump(v6, SyntaxKind::repeatable_KW)
    } else {
        lemma_grows_refl(v6);
        v6
    };
    lemma_grows_trans(s, v6, v7);
    let v8 = if crate::parser::p_data(v7) == "on"@ && p_peek(v7) != crate::parser::TokenKind::Eof {
        lemma_grows_bump(v7, SyntaxKind::on_KW);
        p_bump(v7, SyntaxKind::on_KW)
    } else {
        lemma_grows_err(v7, "expected Directive Locations"@);
        p_err(v7, "expected Directive Locations"@)
    };
    lemma_grows_trans(s, v7, v8);
    let v9 = if p_peek(v8) == crate::parser::TokenKind::Name || p_peek(v8) == crate::parser::TokenKind::Pipe {
        let sl = p_start(v8, SyntaxKind::DIRECTIVE_LOCATIONS);
        lemma_directive_locations(sl);
        lemma_grows_node(v8, SyntaxKind::DIRECTIVE_LOCATIONS, g_directive_locations(sl));
        p_finish(g_directive_locations(sl))
    } else {
        lemma_grows_err(v8, "expected valid Directive Location"@);
        p_err(v8, "expected valid Directive Location"@)
    };
    lemma_grows_trans(s, v8, v9);
    assert(p_finish(v9) == g_definition_tail(v5));
    lemma_grows_node(v, SyntaxKind::DIRECTIVE_DEFINITION, v9);
}

} // verus!
