//! A parser over a sequence of GraphQL tokens that records the syntax tree
//! as a flat list of events (node starts, tokens, node ends) and the errors
//! it meets.
//!
//! The token sequence always ends with a single `Eof` token, and the parser
//! never moves past it.
use vstd::prelude::*;

verus! {

/// The kinds of tokens (whitespace, comments and commas are left out).
#[derive(Debug, Clone, Copy, PartialEq, Eq, Structural)]
pub enum TokenKind {
    Name,
    StringValue,
    Int,
    Float,
    Dollar,
    At,
    Bang,
    LParen,
    RParen,
    LBracket,
    RBracket,
    LCurly,
    RCurly,
    Colon,
    Eq,
    Pipe,
    Amp,
    Spread,
    Eof,
}

/// The kinds of syntax tree nodes and tokens.
#[allow(non_camel_case_types)]
#[derive(Debug, Clone, Copy, PartialEq, Eq, Structural)]
pub enum SyntaxKind {
    DIRECTIVE_DEFINITION,
    DIRECTIVE_LOCATIONS,
    DIRECTIVE_LOCATION,
    DIRECTIVE,
    DIRECTIVES,
    ARGUMENTS_DEFINITION,
    ARGUMENTS,
    ARGUMENT,
    INPUT_VALUE_DEFINITION,
    DESCRIPTION,
    NAME,
    NAMED_TYPE,
    LIST_TYPE,
    NON_NULL_TYPE,
    DEFAULT_VALUE,
    VARIABLE,
    STRING_VALUE,
    INT_VALUE,
    FLOAT_VALUE,
    BOOLEAN_VALUE,
    NULL_VALUE,
    ENUM_VALUE,
    LIST_VALUE,
    OBJECT_VALUE,
    OBJECT_FIELD,
    ERROR,
    IDENT,
    STRING,
    INT,
    FLOAT,
    AT,
    DOLLAR,
    BANG,
    L_PAREN,
    R_PAREN,
    L_BRACK,
    R_BRACK,
    L_CURLY,
    R_CURLY,
    COLON,
    EQ,
    PIPE,
    directive_KW,
    repeatable_KW,
    on_KW,
    true_KW,
    false_KW,
    null_KW,
    QUERY_KW,
    MUTATION_KW,
    SUBSCRIPTION_KW,
    FIELD_KW,
    FRAGMENT_DEFINITION_KW,
    FRAGMENT_SPREAD_KW,
    INLINE_FRAGMENT_KW,
    VARIABLE_DEFINITION_KW,
    SCHEMA_KW,
    SCALAR_KW,
    OBJECT_KW,
    FIELD_DEFINITION_KW,
    ARGUMENT_DEFINITION_KW,
    INTERFACE_KW,
    UNION_KW,
    ENUM_KW,
    ENUM_VALUE_KW,
    INPUT_OBJECT_KW,
    INPUT_FIELD_DEFINITION_KW,
}

/// How deep or how far a parse may go (`limit`), and the most it reached
/// (`high`).
#[derive(Debug, Clone, Copy, PartialEq, Eq, Structural)]
pub struct LimitTracker {
    pub high: usize,
    pub limit: usize,
}

/// The recursion limit a parser starts with.
pub const DEFAULT_RECURSION_LIMIT: usize = 500;

impl LimitTracker {
    /// A tracker with `limit` that has reached nothing yet.
    pub fn new(limit: usize) -> (r: Self)
        ensures
            r.high == 0,
            r.limit == limit,
    {
        LimitTracker { high: 0, limit }
    }

    /// The most reached.
    pub fn high(&self) -> (r: usize)
        ensures
            r == self.high,
    {
        self.high
    }

    /// The limit.
    pub fn limit(&self) -> (r: usize)
        ensures
            r == self.limit,
    {
        self.limit
    }
}

/// A token: its kind and its text.
#[derive(Debug)]
pub struct Token {
    pub kind: TokenKind,
    pub data: String,
}

/// One step of building the syntax tree.
#[derive(Debug)]
pub enum Event {
    /// A node of this kind starts.
    Start(SyntaxKind),
    /// A token, with the kind it has in the tree.
    Token(SyntaxKind, String),
    /// The innermost open node ends.
    Finish,
}

/// A syntax error: what was expected, the text of the token met, and the
/// index of that token.
#[derive(Debug)]
pub struct Error {
    pub message: String,
    pub data: String,
    pub index: usize,
}

/// A token as values.
pub struct TokenView {
    pub kind: TokenKind,
    pub data: Seq<char>,
}

/// An event as values.
pub enum EventView {
    Start(SyntaxKind),
    Token(SyntaxKind, Seq<char>),
    Finish,
}

/// An error as values.
pub struct ErrorView {
    pub message: Seq<char>,
    pub data: Seq<char>,
    pub index: nat,
}

/// The parser as mathematical values.
#[verifier::ext_equal]
pub struct ParserView {
    pub tokens: Seq<TokenView>,
    pub pos: nat,
    pub events: Seq<EventView>,
    pub errors: Seq<ErrorView>,
}

impl View for Token {
    type V = TokenView;

    open spec fn view(&self) -> TokenView {
        TokenView { kind: self.kind, data: self.data@ }
    }
}

impl View for Event {
    type V = EventView;

    open spec fn view(&self) -> EventView {
        match *self {
            Event::Start(k) => EventView::Start(k),
            Event::Token(k, s) => EventView::Token(k, s@),
            Event::Finish => EventView::Finish,
        }
    }
}

impl View for Error {
    type V = ErrorView;

    open spec fn view(&self) -> ErrorView {
        ErrorView { message: self.message@, data: self.data@, index: self.index as nat }
    }
}

/// The tokens end with the only `Eof`, and the position is on a token.
pub open spec fn parser_wf(v: ParserView) -> bool {
    &&& v.tokens.len() > 0
    &&& v.tokens.last().kind == TokenKind::Eof
    &&& forall|i: int| 0 <= i < v.tokens.len() - 1 ==> (#[trigger] v.tokens[i]).kind != TokenKind::Eof
    &&& v.pos < v.tokens.len()
}

/// The kind of the current token.
pub open spec fn p_peek(v: ParserView) -> TokenKind {
    if v.pos < v.tokens.len() {
        v.tokens[v.pos as int].kind
    } else {
        TokenKind::Eof
    }
}

/// The text of the current token.
pub open spec fn p_data(v: ParserView) -> Seq<char> {
    if v.pos < v.tokens.len() {
        v.tokens[v.pos as int].data
    } else {
        Seq::empty()
    }
}

/// The current token is added to the tree as `kind`, and the parser moves on.
pub open spec fn p_bump(v: ParserView, kind: SyntaxKind) -> ParserView {
    ParserView { pos: v.pos + 1, events: v.events.push(EventView::Token(kind, p_data(v))), ..v }
}

/// An error about the current token.
pub open spec fn p_err(v: ParserView, message: Seq<char>) -> ParserView {
    ParserView { errors: v.errors.push(ErrorView { message, data: p_data(v), index: v.pos }), ..v }
}

/// An error about the current token, which is then skipped into the tree as
/// an `ERROR` token.
pub open spec fn p_err_and_pop(v: ParserView, message: Seq<char>) -> ParserView {
    p_bump(p_err(v, message), SyntaxKind::ERROR)
}

/// A node of `kind` opens.
pub open spec fn p_start(v: ParserView, kind: SyntaxKind) -> ParserView {
    ParserView { events: v.events.push(EventView::Start(kind)), ..v }
}

/// The innermost open node closes.
pub open spec fn p_finish(v: ParserView) -> ParserView {
    ParserView { events: v.events.push(EventView::Finish), ..v }
}

/// The current token if it is of kind `token`, else an error.
pub open spec fn p_expect(v: ParserView, token: TokenKind, kind: SyntaxKind, message: Seq<char>) -> ParserView {
    if p_peek(v) == token && token != TokenKind::Eof {
        p_bump(v, kind)
    } else {
        p_err(v, message)
    }
}

/// Opens a node of `kind` at event index `at`, around what was built since.
pub open spec fn p_wrap(v: ParserView, at: int, kind: SyntaxKind) -> ParserView {
    ParserView { events: v.events.insert(at, EventView::Start(kind)), ..v }
}

/// The tokens up to the first `Eof`, followed by one `Eof`.
pub open spec fn terminated(tokens: Seq<TokenView>) -> Seq<TokenView>
    decreases tokens.len(),
{
    if tokens.len() == 0 {
        seq![TokenView { kind: TokenKind::Eof, data: Seq::empty() }]
    } else if tokens[0].kind == TokenKind::Eof {
        seq![TokenView { kind: TokenKind::Eof, data: Seq::empty() }]
    } else {
        seq![tokens[0]] + terminated(tokens.skip(1))
    }
}

/// The parser: the tokens, the position, and what has been built so far.
pub struct Parser {
    tokens: Vec<Token>,
    pos: usize,
    events: Vec<Event>,
    errors: Vec<Error>,
}

impl View for Parser {
    type V = ParserView;

    closed spec fn view(&self) -> ParserView {
        ParserView {
            tokens: self.tokens@.map_values(|t: Token| t@),
            pos: self.pos as nat,
            events: self.events@.map_values(|e: Event| e@),
            errors: self.errors@.map_values(|e: Error| e@),
        }
    }
}

proof fn lemma_terminated_wf(tokens: Seq<TokenView>)
    ensures
        terminated(tokens).len() > 0,
        terminated(tokens).len() <= tokens.len() + 1,
        terminated(tokens).last().kind == TokenKind::Eof,
        forall|i: int| 0 <= i < terminated(tokens).len() - 1 ==> (#[trigger] terminated(tokens)[i]).kind != TokenKind::Eof,
    decreases tokens.len(),
{
    if tokens.len() > 0 && tokens[0].kind != TokenKind::Eof {
        lemma_terminated_wf(tokens.skip(1));
        let rest = terminated(tokens.skip(1));
        assert forall|i: int| 0 <= i < terminated(tokens).len() - 1 implies (#[trigger] terminated(tokens)[i]).kind
            != TokenKind::Eof by {
            if i > 0 {
                assert(terminated(tokens)[i] == rest[i - 1]);
            }
        }
    }
}

impl Parser {
    /// A parser at the start of `tokens`, as values: the tokens up to the
    /// first `Eof` and an `Eof`, nothing built yet.
    pub open spec fn start_view(tokens: Seq<TokenView>) -> ParserView {
        ParserView { tokens: terminated(tokens), pos: 0, events: Seq::empty(), errors: Seq::empty() }
    }

    /// A parser at the start of `tokens`; the tokens are taken up to the
    /// first `Eof`, and an `Eof` is added.
    pub fn new(tokens: Vec<Token>) -> (p: Self)
        ensures
            parser_wf(p@),
            p@.tokens == terminated(tokens@.map_values(|t: Token| t@)),
            p@.pos == 0,
            p@.events.len() == 0,
            p@.errors.len() == 0,
    {
        let ghost input = tokens@.map_values(|t: Token| t@);
        let mut tokens = tokens;
        let mut end: usize = 0;
        assert(input.skip(0) =~= input);
        while end < tokens.len() && !matches!(tokens[end].kind, TokenKind::Eof)
            invariant
                end <= tokens@.len(),
                tokens@.map_values(|t: Token| t@) == input,
                terminated(input) == input.take(end as int) + terminated(input.skip(end as int)),
            decreases tokens.len() - end,
        {
            assert(input.skip(end as int)[0] == input[end as int]);
            assert(input.skip(end as int).skip(1) =~= input.skip(end + 1));
            assert(input.take(end + 1) =~= input.take(end as int) + seq![input[end as int]]);
            end += 1;
        }
        tokens.truncate(end);
        proof {
            lemma_terminated_wf(input);
            assert(terminated(input.skip(end as int)) =~= seq![TokenView { kind: TokenKind::Eof, data: Seq::empty() }]);
        }
        tokens.push(Token { kind: TokenKind::Eof, data: String::new() });
        let p = Parser { tokens, pos: 0, events: Vec::new(), errors: Vec::new() };
        assert(p@.tokens =~= terminated(input));
        assert(p@.events =~= Seq::<EventView>::empty());
        assert(p@.errors =~= Seq::<ErrorView>::empty());
        p
    }

    /// The kind of the current token.
    pub fn peek(&self) -> (k: TokenKind)
        requires
            parser_wf(self@),
        ensures
            k == p_peek(self@),
    {
        self.tokens[self.pos].kind
    }

    /// The current token.
    pub fn peek_token(&self) -> (t: &Token)
        requires
            parser_wf(self@),
        ensures
            t@ == self@.tokens[self@.pos as int],
            t.kind == p_peek(self@),
            t.data@ == p_data(self@),
    {
        &self.tokens[self.pos]
    }

    /// Whether the current token has the text `s`.
    pub fn peek_data_is(&self, s: &str) -> (r: bool)
        requires
            parser_wf(self@),
        ensures
            r == (p_data(self@) == s@),
    {
        self.tokens[self.pos].data == s.to_string()
    }

    /// Adds the current token to the tree as `kind` and moves to the next one.
    pub fn bump(&mut self, kind: SyntaxKind)
        requires
            parser_wf(old(self)@),
            p_peek(old(self)@) != TokenKind::Eof,
        ensures
            parser_wf(final(self)@),
            final(self)@ == p_bump(old(self)@, kind),
    {
        assert(self@.tokens[self.pos as int].kind != TokenKind::Eof);
        let n = self.tokens.len();
        assert(self.pos < n - 1);
        let data = self.tokens[self.pos].data.clone();
        self.events.push(Event::Token(kind, data));
        self.pos = self.pos + 1;
        assert(self@ =~= p_bump(old(self)@, kind));
    }

    /// Records an error about the current token.
    pub fn err(&mut self, message: &str)
        requires
            parser_wf(old(self)@),
        ensures
            parser_wf(final(self)@),
            final(self)@ == p_err(old(self)@, message@),
    {
        let data = self.tokens[self.pos].data.clone();
        self.errors.push(Error { message: message.to_string(), data, index: self.pos });
        assert(self@ =~= p_err(old(self)@, message@));
    }

    /// Records an error about the current token and skips it.
    pub fn err_and_pop(&mut self, message: &str)
        requires
            parser_wf(old(self)@),
            p_peek(old(self)@) != TokenKind::Eof,
        ensures
            parser_wf(final(self)@),
            final(self)@ == p_err_and_pop(old(self)@, message@),
    {
        self.err(message);
        self.bump(SyntaxKind::ERROR);
    }

    /// Opens a node of kind `kind`.
    pub fn start_node(&mut self, kind: SyntaxKind)
        requires
            parser_wf(old(self)@),
        ensures
            parser_wf(final(self)@),
            final(self)@ == p_start(old(self)@, kind),
    {
        self.events.push(Event::Start(kind));
        assert(self@ =~= p_start(old(self)@, kind));
    }

    /// Closes the innermost open node.
    pub fn finish_node(&mut self)
        requires
            parser_wf(old(self)@),
        ensures
            parser_wf(final(self)@),
            final(self)@ == p_finish(old(self)@),
    {
        self.events.push(Event::Finish);
        assert(self@ =~= p_finish(old(self)@));
    }

    /// Adds the current token as `kind` if it is a `token`; records an error
    /// otherwise.
    pub fn expect(&mut self, token: TokenKind, kind: SyntaxKind, message: &str)
        requires
            parser_wf(old(self)@),
        ensures
            parser_wf(final(self)@),
            final(self)@ == p_expect(old(self)@, token, kind, message@),
    {
        if self.peek() == token && token != TokenKind::Eof {
            self.bump(kind);
        } else {
            self.err(message);
        }
    }

    /// Where the next event goes; a node can later be opened there.
    pub fn checkpoint(&self) -> (r: usize)
        ensures
            r == self@.events.len(),
    {
        self.events.len()
    }

    /// Opens a node of `kind` at `checkpoint`, around the events recorded
    /// since then.
    pub fn wrap_node(&mut self, checkpoint: usize, kind: SyntaxKind)
        requires
            parser_wf(old(self)@),
            checkpoint <= old(self)@.events.len(),
        ensures
            parser_wf(final(self)@),
            final(self)@ == p_wrap(old(self)@, checkpoint as int, kind),
    {
        self.events.insert(checkpoint, Event::Start(kind));
        assert(self@.events =~= old(self)@.events.insert(checkpoint as int, EventView::Start(kind)));
        assert(self@ =~= p_wrap(old(self)@, checkpoint as int, kind));
    }

    /// The events recorded so far.
    pub fn events(&self) -> (r: &[Event])
        ensures
            r@.map_values(|e: Event| e@) == self@.events,
    {
        self.events.as_slice()
    }

    /// The errors recorded so far.
    pub fn errors(&self) -> (r: &[Error])
        ensures
            r@.map_values(|e: Error| e@) == self@.errors,
    {
        self.errors.as_slice()
    }

    /// The events and the errors, taking the parser apart.
    pub fn into_parts(self) -> (r: (Vec<Event>, Vec<Error>))
        ensures
            r.0@.map_values(|e: Event| e@) == self@.events,
            r.1@.map_values(|e: Error| e@) == self@.errors,
    {
        (self.events, self.errors)
    }

    /// The index of the current token.
    pub fn position(&self) -> (r: usize)
        ensures
            r == self@.pos,
    {
        self.pos
    }
}

} // verus!
