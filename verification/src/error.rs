//! Errors that render as tokens: single messages, collections of errors, and
//! the emitter that gathers errors without returning.

use crate::render::{attached, render_message, render_text, Attached};
use crate::span_ranged::{covers, to_tokens_span_range, SpanRanged};
use crate::tokens::{
    append, push_group, push_ident, push_punct, push_string_literal, stream_tokens,
    string_literal_repr, Token,
};
use core::convert::Infallible;
use core::ops::Range;
use proc_macro2::{Delimiter, Spacing, Span, TokenStream};
use vstd::prelude::*;

verus! {

/// The tokens of `::core::compile_error! { "text" }`: the path and the `!`
/// carry the span `start`, the braces and the string literal carry `end`, so
/// that the compiler underlines everything between the two.
pub open spec fn compile_error_tokens(text: Seq<char>, start: Span, end: Span) -> Seq<Token> {
    seq![
        Token::Punct { ch: ':', spacing: Spacing::Joint, span: start },
        Token::Punct { ch: ':', spacing: Spacing::Alone, span: start },
        Token::Ident { name: "core"@, span: start },
        Token::Punct { ch: ':', spacing: Spacing::Joint, span: start },
        Token::Punct { ch: ':', spacing: Spacing::Alone, span: start },
        Token::Ident { name: "compile_error"@, span: start },
        Token::Punct { ch: '!', spacing: Spacing::Alone, span: start },
        Token::Group {
            delimiter: Delimiter::Brace,
            inner: seq![Token::Literal { repr: string_literal_repr(text), span: end }],
            span: end,
        },
    ]
}

/// All of `parts`, one behind the other.
pub open spec fn concat(parts: Seq<Seq<Token>>) -> Seq<Token>
    decreases parts.len(),
{
    if parts.len() == 0 {
        Seq::empty()
    } else {
        concat(parts.drop_last()) + parts.last()
    }
}

/// One invocation of `compile_error!` for each of `texts`, in order; the
/// one for `texts[i]` points from `starts[i]` to `ends[i]`.
pub open spec fn compile_errors(texts: Seq<Seq<char>>, starts: Seq<Span>, ends: Seq<Span>) -> Seq<
    Token,
> {
    concat(Seq::new(texts.len(), |i: int| compile_error_tokens(texts[i], starts[i], ends[i])))
}

/// Whether `tokens` report the messages `texts`: there is at least one
/// message, and `tokens` hold one invocation of `compile_error!` for each, in
/// order, wherever each of them points.
pub open spec fn reports(texts: Seq<Seq<char>>, tokens: Seq<Token>) -> bool {
    &&& texts.len() > 0
    &&& exists|starts: Seq<Span>, ends: Seq<Span>|
        starts.len() == texts.len() && ends.len() == texts.len() && #[trigger] compile_errors(
            texts,
            starts,
            ends,
        ) == tokens
}

/// Appends the tokens of `::core::compile_error! { "text" }` to `tokens`.
pub fn push_compile_error(tokens: &mut TokenStream, text: &str, start: Span, end: Span)
    ensures
        stream_tokens(*final(tokens)) == stream_tokens(*old(tokens)) + compile_error_tokens(
            text@,
            start,
            end,
        ),
{
    proof {
        reveal_strlit("core");
        reveal_strlit("compile_error");
    }
    push_punct(tokens, ':', Spacing::Joint, start);
    push_punct(tokens, ':', Spacing::Alone, start);
    push_ident(tokens, "core", start);
    push_punct(tokens, ':', Spacing::Joint, start);
    push_punct(tokens, ':', Spacing::Alone, start);
    push_ident(tokens, "compile_error", start);
    push_punct(tokens, '!', Spacing::Alone, start);
    let mut inner = TokenStream::new();
    push_string_literal(&mut inner, text, end);
    push_group(tokens, Delimiter::Brace, inner, end);
}

/// An error that renders as tokens, which the compiler then reports.
///
/// What an error renders as need not be the same each time: an error of
/// another crate may render with other spans when it is asked again. So an
/// error says which tokens it accepts as a rendering of itself, and each
/// rendering is one of those.
pub trait ToTokensError {
    /// Whether `tokens` is a rendering of this error.
    spec fn renders_as(&self, tokens: Seq<Token>) -> bool;

    /// Appends a rendering of this error to `tokens`.
    fn to_tokens(&self, tokens: &mut TokenStream)
        ensures
            exists|rendered: Seq<Token>| #[trigger]
                self.renders_as(rendered) && stream_tokens(*final(tokens)) == stream_tokens(
                    *old(tokens),
                ) + rendered,
    ;

    /// A rendering of this error, as a stream of its own.
    fn to_token_stream(&self) -> (tokens: TokenStream)
        ensures
            self.renders_as(stream_tokens(tokens)),
    {
        let mut tokens = TokenStream::new();
        self.to_tokens(&mut tokens);
        proof {
            let rendered = choose|rendered: Seq<Token>| #[trigger]
                self.renders_as(rendered) && stream_tokens(tokens) == Seq::<Token>::empty()
                    + rendered;
            assert(stream_tokens(tokens) =~= rendered);
        }
        tokens
    }

    /// A rendering of this error, as a stream of its own.
    fn into_token_stream(self) -> (tokens: TokenStream) where Self: Sized
        ensures
            self.renders_as(stream_tokens(tokens)),
    {
        self.to_token_stream()
    }
}

/// An error that renders as no token at all, so that nothing is reported for
/// it.
#[derive(Debug)]
pub struct SilentError;

impl ToTokensError for SilentError {
    /// A silent error renders as nothing.
    open spec fn renders_as(&self, tokens: Seq<Token>) -> bool {
        tokens == Seq::<Token>::empty()
    }

    fn to_tokens(&self, tokens: &mut TokenStream) {
        assert(self.renders_as(Seq::empty()));
        assert(stream_tokens(*tokens) =~= stream_tokens(*old(tokens)) + Seq::<Token>::empty());
    }
}

/// There is no value of `Infallible`, so there is nothing to render.
impl ToTokensError for Infallible {
    open spec fn renders_as(&self, tokens: Seq<Token>) -> bool {
        tokens == Seq::<Token>::empty()
    }

    fn to_tokens(&self, tokens: &mut TokenStream) {
        assert(self.renders_as(Seq::empty()));
        assert(stream_tokens(*tokens) =~= stream_tokens(*old(tokens)) + Seq::<Token>::empty());
    }
}

/// Tokens that were rendered before render as themselves.
impl ToTokensError for TokenStream {
    open spec fn renders_as(&self, tokens: Seq<Token>) -> bool {
        tokens == stream_tokens(*self)
    }

    fn to_tokens(&self, tokens: &mut TokenStream) {
        append(tokens, self.clone());
        assert(self.renders_as(stream_tokens(*self)));
    }
}

/// A single error message.
///
/// It can take attachments like [`help`](Self::help) or
/// [`note`](Self::note), which are shown under it.
#[derive(Debug)]
#[must_use]
pub struct ErrorMessage {
    span: Range<Span>,
    msg: String,
    attachments: Vec<(&'static str, String)>,
}

/// What a message is: where it points, what it says, and what is attached.
pub struct ErrorMessageView {
    pub span: Range<Span>,
    pub msg: Seq<char>,
    pub attachments: Seq<Attached>,
}

impl View for ErrorMessage {
    type V = ErrorMessageView;

    closed spec fn view(&self) -> ErrorMessageView {
        ErrorMessageView {
            span: self.span,
            msg: self.msg@,
            attachments: attached(self.attachments@),
        }
    }
}

impl ErrorMessageView {
    /// The text of the message, attachments included.
    pub open spec fn text(self) -> Seq<char> {
        render_message(self.msg, self.attachments)
    }

    /// This message with one more attachment.
    pub open spec fn attach(self, label: Seq<char>, text: Seq<char>) -> ErrorMessageView {
        ErrorMessageView { attachments: self.attachments.push((label, text)), ..self }
    }
}

impl ErrorMessage {
    /// Creates an error message at the given span, or range of spans.
    ///
    /// For tokens use [`ErrorMessage::spanned`].
    pub fn new(span: impl SpanRanged, msg: &str) -> (message: Self)
        ensures
            span.is_span_range(message@.span),
            message@.msg == msg@,
            message@.attachments.len() == 0,
    {
        let message = Self {
            span: span.span_range(),
            msg: msg.to_owned(),
            attachments: Vec::new(),
        };
        assert(message@.attachments =~= Seq::empty());
        message
    }

    /// Creates an error message that points to all of `tokens`.
    pub fn spanned(tokens: &TokenStream, msg: &str) -> (message: Self)
        ensures
            covers(message@.span, stream_tokens(*tokens)),
            message@.msg == msg@,
            message@.attachments.len() == 0,
    {
        let message = Self {
            span: to_tokens_span_range(tokens),
            msg: msg.to_owned(),
            attachments: Vec::new(),
        };
        assert(message@.attachments =~= Seq::empty());
        message
    }

    /// Creates an error message at the call site of the macro. Prefer
    /// [`ErrorMessage::new`] or [`ErrorMessage::spanned`] with the span that
    /// the message is about.
    pub fn call_site(msg: &str) -> (message: Self)
        ensures
            message@.span.start == message@.span.end,
            message@.msg == msg@,
            message@.attachments.len() == 0,
    {
        Self::new(Span::call_site(), msg)
    }

    /// Attaches `msg` under the given label. The message keeps its span.
    pub fn attachment(self, label: &'static str, msg: &str) -> (message: Self)
        ensures
            message@ == self@.attach(label@, msg@),
    {
        let mut message = self;
        message.attachments.push((label, msg.to_owned()));
        assert(message@.attachments =~= self@.attachments.push((label@, msg@)));
        message
    }

    /// Attaches `msg` under the label `error`.
    pub fn error(self, msg: &str) -> (message: Self)
        ensures
            message@ == self@.attach("error"@, msg@),
    {
        self.attachment("error", msg)
    }

    /// Attaches `msg` under the label `warning`.
    pub fn warning(self, msg: &str) -> (message: Self)
        ensures
            message@ == self@.attach("warning"@, msg@),
    {
        self.attachment("warning", msg)
    }

    /// Attaches `msg` under the label `note`.
    pub fn note(self, msg: &str) -> (message: Self)
        ensures
            message@ == self@.attach("note"@, msg@),
    {
        self.attachment("note", msg)
    }

    /// Attaches `msg` under the label `help`.
    pub fn help(self, msg: &str) -> (message: Self)
        ensures
            message@ == self@.attach("help"@, msg@),
    {
        self.attachment("help", msg)
    }

    /// The text of the message: the primary message, then each attachment
    /// under its label.
    pub fn render(&self) -> (text: String)
        ensures
            text@ == self@.text(),
    {
        render_text(self.msg.as_str(), &self.attachments)
    }

    /// The tokens that the message renders as: an invocation of
    /// `compile_error!` with the text of the message, which points from the
    /// start to the end of the span of the message.
    pub open spec fn rendered(&self) -> Seq<Token> {
        compile_error_tokens(self@.text(), self@.span.start, self@.span.end)
    }
}

impl ToTokensError for ErrorMessage {
    /// A message always renders as [`ErrorMessage::rendered`] says.
    open spec fn renders_as(&self, tokens: Seq<Token>) -> bool {
        tokens == self.rendered()
    }

    fn to_tokens(&self, tokens: &mut TokenStream) {
        let text = self.render();
        push_compile_error(tokens, text.as_str(), self.span.start, self.span.end);
        assert(self.renders_as(self.rendered()));
    }
}

/// Gives [`ErrorMessage::attachment`] to other types that hold a message.
pub trait Attachment: Sized {
    /// Whether `attached` is `self` with `msg` attached under `label`.
    spec fn attached_as(self, label: Seq<char>, msg: Seq<char>, attached: Self) -> bool;

    /// Attaches `msg` under the given label.
    #[must_use]
    fn attachment(self, label: &'static str, msg: &str) -> (attached: Self)
        ensures
            self.attached_as(label@, msg@, attached),
    ;
}

impl Attachment for ErrorMessage {
    open spec fn attached_as(self, label: Seq<char>, msg: Seq<char>, attached: Self) -> bool {
        attached@ == self@.attach(label, msg)
    }

    fn attachment(self, label: &'static str, msg: &str) -> (attached: Self) {
        let attached = ErrorMessage::attachment(self, label, msg);
        assert(self.attached_as(label@, msg@, attached));
        attached
    }
}

/// What each of the given streams holds.
pub open spec fn renderings(streams: Seq<TokenStream>) -> Seq<Seq<Token>> {
    Seq::new(streams.len(), |i: int| stream_tokens(streams[i]))
}

/// Whether `added` holds one rendering for each of `errors`, in order.
pub open spec fn render_each<I: ToTokensError>(errors: Seq<I>, added: Seq<Seq<Token>>) -> bool {
    &&& added.len() == errors.len()
    &&& forall|i: int| 0 <= i < errors.len() ==> #[trigger] errors[i].renders_as(added[i])
}

/// Whether `after` is `before` with one rendering of `error` behind it.
pub open spec fn pushed<E: ToTokensError>(
    before: Seq<Seq<Token>>,
    error: E,
    after: Seq<Seq<Token>>,
) -> bool {
    &&& after.len() == before.len() + 1
    &&& after.drop_last() == before
    &&& error.renders_as(after.last())
}

/// Whether `after` is `before` with one rendering of each of `errors`
/// behind it, in order.
pub open spec fn extended<I: ToTokensError>(
    before: Seq<Seq<Token>>,
    errors: Seq<I>,
    after: Seq<Seq<Token>>,
) -> bool {
    &&& after.len() == before.len() + errors.len()
    &&& after.take(before.len() as int) == before
    &&& render_each(errors, after.skip(before.len() as int))
}

/// Appends the tokens of each of `streams` to `tokens`, in order.
fn append_all(streams: &Vec<TokenStream>, tokens: &mut TokenStream)
    ensures
        stream_tokens(*final(tokens)) == stream_tokens(*old(tokens)) + concat(renderings(streams@)),
{
    let ghost all = renderings(streams@);
    let mut i: usize = 0;
    while i < streams.len()
        invariant
            i <= streams.len(),
            all == renderings(streams@),
            stream_tokens(*tokens) == stream_tokens(*old(tokens)) + concat(all.take(i as int)),
        decreases streams.len() - i,
    {
        append(tokens, streams[i].clone());
        proof {
            assert(all.take(i + 1).drop_last() == all.take(i as int));
            assert(all.take(i + 1).last() == stream_tokens(streams[i as int]));
        }
        i += 1;
    }
    proof {
        assert(all.take(i as int) == all);
    }
}

/// Renders each of `errors` and keeps its tokens behind those in `into`.
fn render_all<I: ToTokensError>(into: &mut Vec<TokenStream>, errors: &Vec<I>)
    ensures
        extended(renderings(old(into)@), errors@, renderings(final(into)@)),
{
    let ghost before = renderings(into@);
    proof {
        assert(before.take(before.len() as int) == before);
        assert(before.skip(before.len() as int).len() == 0);
    }
    let mut i: usize = 0;
    while i < errors.len()
        invariant
            i <= errors.len(),
            before == renderings(old(into)@),
            extended(before, errors@.take(i as int), renderings(into@)),
        decreases errors.len() - i,
    {
        let tokens = errors[i].to_token_stream();
        proof {
            let now = renderings(into@);
            let next = renderings(into@.push(tokens));
            assert(next == now.push(stream_tokens(tokens)));
            assert(next.take(before.len() as int) == now.take(before.len() as int));
            let added = next.skip(before.len() as int);
            assert(added == now.skip(before.len() as int).push(stream_tokens(tokens)));
            assert forall|k: int| 0 <= k < i + 1 implies #[trigger] errors@.take(i + 1)[k].renders_as(
                added[k],
            ) by {
                if k < i {
                    assert(errors@.take(i as int)[k].renders_as(
                        now.skip(before.len() as int)[k],
                    ));
                }
            }
        }
        into.push(tokens);
        i += 1;
    }
    proof {
        assert(errors@.take(i as int) == errors@);
    }
}

/// This crate's error type: any number of errors, each of which renders as
/// tokens. The collection renders as all of them, in the order in which they
/// were added.
///
/// An error is rendered when it is added, and the collection keeps its
/// tokens.
#[derive(Debug)]
#[must_use]
pub struct Error(Vec<TokenStream>);

impl View for Error {
    type V = Seq<Seq<Token>>;

    /// What each of the collected errors renders as.
    closed spec fn view(&self) -> Seq<Seq<Token>> {
        renderings(self.0@)
    }
}

impl Error {
    /// A collection that holds `error` alone.
    pub fn from(error: impl ToTokensError + 'static) -> (collection: Self)
        ensures
            pushed(Seq::empty(), error, collection@),
    {
        let mut errors = Vec::new();
        let tokens = error.into_token_stream();
        errors.push(tokens);
        let collection = Self(errors);
        assert(collection@ =~= seq![stream_tokens(tokens)]);
        assert(collection@.drop_last() =~= Seq::empty());
        collection
    }

    /// Adds `error` behind the errors already collected.
    pub fn push(&mut self, error: impl ToTokensError + 'static)
        ensures
            pushed(old(self)@, error, final(self)@),
    {
        let tokens = error.into_token_stream();
        self.0.push(tokens);
        assert(self@ =~= old(self)@.push(stream_tokens(tokens)));
        assert(self@.drop_last() =~= old(self)@);
    }

    /// Adds each of `errors`, in order, behind the errors already collected.
    pub fn extend<I: ToTokensError + 'static>(&mut self, errors: Vec<I>)
        ensures
            extended(old(self)@, errors@, final(self)@),
    {
        render_all(&mut self.0, &errors);
    }

    /// The tokens that the collection renders as: what it holds for each of
    /// its errors, in order.
    pub open spec fn rendered(&self) -> Seq<Token> {
        concat(self@)
    }
}

impl ToTokensError for Error {
    /// A collection always renders as [`Error::rendered`] says.
    open spec fn renders_as(&self, tokens: Seq<Token>) -> bool {
        tokens == self.rendered()
    }

    fn to_tokens(&self, tokens: &mut TokenStream) {
        append_all(&self.0, tokens);
        assert(self.renders_as(self.rendered()));
    }
}

/// What an emitter hands out when it is drained: the emitted errors, where
/// there are any.
pub open spec fn drained(emitted: Seq<Seq<Token>>) -> Option<Seq<Seq<Token>>> {
    if emitted.len() == 0 {
        None
    } else {
        Some(emitted)
    }
}

/// Collects errors without returning.
///
/// An error is rendered when it is emitted, and the emitter keeps its tokens.
#[derive(Debug)]
pub struct Emitter(Vec<TokenStream>);

impl View for Emitter {
    type V = Seq<Seq<Token>>;

    /// What each of the emitted errors renders as.
    closed spec fn view(&self) -> Seq<Seq<Token>> {
        renderings(self.0@)
    }
}

impl Emitter {
    /// An emitter without errors. Errors are collected with
    /// [`Emitter::emit`] and handed out by [`Emitter::into_result`].
    #[must_use]
    pub fn new() -> (emitter: Self)
        ensures
            emitter@ == Seq::<Seq<Token>>::empty(),
    {
        let emitter = Emitter(Vec::new());
        assert(emitter@ =~= Seq::empty());
        emitter
    }

    /// Appends the tokens of every emitted error to `tokens`, in the order
    /// in which the errors were emitted.
    pub fn to_tokens(&self, tokens: &mut TokenStream)
        ensures
            stream_tokens(*final(tokens)) == stream_tokens(*old(tokens)) + concat(self@),
    {
        append_all(&self.0, tokens);
    }

    /// Emits an error: it is kept behind the errors already emitted.
    pub fn emit(&mut self, error: impl ToTokensError + 'static)
        ensures
            pushed(old(self)@, error, final(self)@),
    {
        let tokens = error.into_token_stream();
        self.0.push(tokens);
        assert(self@ =~= old(self)@.push(stream_tokens(tokens)));
        assert(self@.drop_last() =~= old(self)@);
    }

    /// Whether no error was emitted.
    #[must_use]
    pub fn is_empty(&self) -> (empty: bool)
        ensures
            empty == (self@.len() == 0),
    {
        self.0.is_empty()
    }

    /// Removes all emitted errors.
    pub fn clear(&mut self)
        ensures
            final(self)@ == Seq::<Seq<Token>>::empty(),
    {
        self.0.clear();
        assert(self@ =~= Seq::empty());
    }

    /// Hands out the emitted errors, if there are any, as one [`Error`];
    /// `Ok(())` where nothing was emitted.
    ///
    /// The emitter is empty afterwards, so that no error is reported twice.
    pub fn into_result(&mut self) -> (result: Result<(), Error>)
        ensures
            final(self)@ == Seq::<Seq<Token>>::empty(),
            result is Ok <==> old(self)@.len() == 0,
            result matches Err(errors) ==> Some(errors@) == drained(old(self)@),
    {
        if self.is_empty() {
            assert(self@ =~= Seq::empty());
            Ok(())
        } else {
            let mut errors: Vec<TokenStream> = Vec::new();
            core::mem::swap(&mut self.0, &mut errors);
            assert(self@ =~= Seq::empty());
            Err(Error(errors))
        }
    }

    /// Emits each of `errors`, in order.
    pub fn extend<I: ToTokensError + 'static>(&mut self, errors: Vec<I>)
        ensures
            extended(old(self)@, errors@, final(self)@),
    {
        render_all(&mut self.0, &errors);
    }
}

impl Default for Emitter {
    fn default() -> (emitter: Self)
        ensures
            emitter@ == Seq::<Seq<Token>>::empty(),
    {
        Emitter::new()
    }
}

impl From<ErrorMessage> for Error {
    /// A collection that holds `error` alone.
    fn from(error: ErrorMessage) -> (collection: Self)
        ensures
            collection@ == seq![error.rendered()],
    {
        let collection = Error::from(error);
        assert(collection@ =~= seq![error.rendered()]);
        collection
    }
}

/// What the conversion gives is stated at `from` itself, over the view of
/// the collection; no collection is named here.
impl vstd::std_specs::convert::FromSpecImpl<ErrorMessage> for Error {
    open spec fn obeys_from_spec() -> bool {
        false
    }

    open spec fn from_spec(error: ErrorMessage) -> Self {
        arbitrary()
    }
}

impl From<SilentError> for Error {
    /// A collection that holds nothing, and so renders as nothing.
    fn from(error: SilentError) -> (collection: Self)
        ensures
            collection@ == Seq::<Seq<Token>>::empty(),
    {
        let collection = Error(Vec::new());
        assert(collection@ =~= Seq::empty());
        collection
    }
}

/// What the conversion gives is stated at `from` itself, over the view of
/// the collection; no collection is named here.
impl vstd::std_specs::convert::FromSpecImpl<SilentError> for Error {
    open spec fn obeys_from_spec() -> bool {
        false
    }

    open spec fn from_spec(error: SilentError) -> Self {
        arbitrary()
    }
}

/// Whether `joined` holds one rendering of `first` and then one of `second`.
pub open spec fn joins<A: ToTokensError, B: ToTokensError>(
    first: A,
    second: B,
    joined: Seq<Seq<Token>>,
) -> bool {
    &&& joined.len() == 2
    &&& first.renders_as(joined[0])
    &&& second.renders_as(joined[1])
}

/// Lets two errors be joined with `.join(..)`.
pub trait JoinToTokensError {
    /// A collection that holds `self` and then `error`.
    fn join<E: ToTokensError + 'static>(self, error: E) -> Error;
}

impl<T: Sized + ToTokensError + 'static> JoinToTokensError for T {
    fn join<E: ToTokensError + 'static>(self, error: E) -> (collection: Error)
        ensures
            joins(self, error, collection@),
    {
        let mut this = Error::from(self);
        this.push(error);
        assert(this@.drop_last().last() == this@[0]);
        this
    }
}

/// Helpers on a `Result` whose error renders as tokens.
pub trait ResultExt<T, E>: Sized {
    /// If `self` is an error, adds `error` behind it.
    fn context<C: ToTokensError + 'static>(self, error: C) -> Result<T, Error>;

    /// If `self` is an error, adds behind it the error that the closure
    /// returns. The closure is only called then.
    fn context_with<C: ToTokensError + 'static, F: FnOnce() -> C>(self, error: F) -> Result<
        T,
        Error,
    >
        requires
            call_requires(error, ()),
    ;

    /// If `self` is an error, attaches `msg` to it under the given label.
    #[must_use]
    fn attachment(self, label: &'static str, msg: &str) -> Self where E: Attachment;

    /// If `self` is an error, attaches `msg` to it under the label `error`.
    #[must_use]
    fn error(self, msg: &str) -> Self where E: Attachment;

    /// If `self` is an error, attaches `msg` to it under the label `warning`.
    #[must_use]
    fn warning(self, msg: &str) -> Self where E: Attachment;

    /// If `self` is an error, attaches `msg` to it under the label `note`.
    #[must_use]
    fn note(self, msg: &str) -> Self where E: Attachment;

    /// If `self` is an error, attaches `msg` to it under the label `help`.
    #[must_use]
    fn help(self, msg: &str) -> Self where E: Attachment;
}

impl<T, E: ToTokensError + 'static> ResultExt<T, E> for Result<T, E> {
    fn context<C: ToTokensError + 'static>(self, error: C) -> (result: Result<T, Error>)
        ensures
            match self {
                Ok(value) => result == Ok::<T, Error>(value),
                Err(first) => result matches Err(errors) && joins(first, error, errors@),
            },
    {
        match self {
            Ok(value) => Ok(value),
            Err(first) => Err(first.join(error)),
        }
    }

    fn context_with<C: ToTokensError + 'static, F: FnOnce() -> C>(self, error: F) -> (result:
        Result<T, Error>)
        ensures
            match self {
                Ok(value) => result == Ok::<T, Error>(value),
                Err(first) => result matches Err(errors) && exists|second: C| #[trigger]
                    call_ensures(error, (), second) && joins(first, second, errors@),
            },
    {
        match self {
            Ok(value) => Ok(value),
            Err(first) => {
                let second = error();
                let errors = first.join(second);
                proof {
                    let result: Result<T, Error> = Err(errors);
                    assert(call_ensures(error, (), second) && joins(
                        first,
                        second,
                        result->Err_0@,
                    ));
                }
                Err(errors)
            },
        }
    }

    fn attachment(self, label: &'static str, msg: &str) -> (result: Self) where E: Attachment
        ensures
            match self {
                Ok(value) => result == Ok::<T, E>(value),
                Err(error) => result matches Err(attached) && error.attached_as(
                    label@,
                    msg@,
                    attached,
                ),
            },
    {
        match self {
            Ok(value) => Ok(value),
            Err(error) => Err(error.attachment(label, msg)),
        }
    }

    fn error(self, msg: &str) -> (result: Self) where E: Attachment
        ensures
            match self {
                Ok(value) => result == Ok::<T, E>(value),
                Err(error) => result matches Err(attached) && error.attached_as(
                    "error"@,
                    msg@,
                    attached,
                ),
            },
    {
        self.attachment("error", msg)
    }

    fn warning(self, msg: &str) -> (result: Self) where E: Attachment
        ensures
            match self {
                Ok(value) => result == Ok::<T, E>(value),
                Err(error) => result matches Err(attached) && error.attached_as(
                    "warning"@,
                    msg@,
                    attached,
                ),
            },
    {
        self.attachment("warning", msg)
    }

    fn note(self, msg: &str) -> (result: Self) where E: Attachment
        ensures
            match self {
                Ok(value) => result == Ok::<T, E>(value),
                Err(error) => result matches Err(attached) && error.attached_as(
                    "note"@,
                    msg@,
                    attached,
                ),
            },
    {
        self.attachment("note", msg)
    }

    fn help(self, msg: &str) -> (result: Self) where E: Attachment
        ensures
            match self {
                Ok(value) => result == Ok::<T, E>(value),
                Err(error) => result matches Err(attached) && error.attached_as(
                    "help"@,
                    msg@,
                    attached,
                ),
            },
    {
        self.attachment("help", msg)
    }
}

/// A collection renders as its parts, one behind the other: what two runs
/// of errors render as together is what the first run renders as, then what
/// the second renders as.
pub proof fn lemma_concat_add(first: Seq<Seq<Token>>, second: Seq<Seq<Token>>)
    ensures
        concat(first + second) == concat(first) + concat(second),
    decreases second.len(),
{
    if second.len() == 0 {
        assert(first + second == first);
    } else {
        lemma_concat_add(first, second.drop_last());
        assert((first + second).drop_last() == first + second.drop_last());
    }
}

/// Parts of one length make a whole of that length times their number.
proof fn lemma_concat_len(parts: Seq<Seq<Token>>, each: nat)
    requires
        forall|i: int| 0 <= i < parts.len() ==> (#[trigger] parts[i]).len() == each,
    ensures
        concat(parts).len() == each * parts.len(),
    decreases parts.len(),
{
    if parts.len() > 0 {
        lemma_concat_len(parts.drop_last(), each);
        assert(each * parts.len() == each * (parts.len() - 1) + each) by (nonlinear_arith);
    } else {
        assert(each * parts.len() == 0) by (nonlinear_arith)
            requires
                parts.len() == 0,
        ;
    }
}

/// A report holds eight token trees for each of its messages: the path to
/// `compile_error`, the `!`, and the braces around the message. So a report
/// is never empty.
pub proof fn lemma_report_is_not_empty(texts: Seq<Seq<char>>, tokens: Seq<Token>)
    requires
        reports(texts, tokens),
    ensures
        tokens.len() == 8 * texts.len(),
        tokens.len() >= 8,
{
    let (starts, ends) = choose|starts: Seq<Span>, ends: Seq<Span>|
        starts.len() == texts.len() && ends.len() == texts.len() && #[trigger] compile_errors(
            texts,
            starts,
            ends,
        ) == tokens;
    let parts = Seq::new(texts.len(), |i: int| compile_error_tokens(texts[i], starts[i], ends[i]));
    lemma_concat_len(parts, 8);
}

/// A collection that was extended by two errors and then took a third
/// renders as what it rendered as before, then the tokens of the first, of
/// the second and of the third error, in that order.
pub proof fn lemma_collection_keeps_order<I: ToTokensError, E: ToTokensError>(
    collected: Seq<Seq<Token>>,
    pair: Seq<I>,
    third: E,
    extended_by_pair: Seq<Seq<Token>>,
    all: Seq<Seq<Token>>,
)
    requires
        pair.len() == 2,
        extended(collected, pair, extended_by_pair),
        pushed(extended_by_pair, third, all),
    ensures
        all.len() == collected.len() + 3,
        pair[0].renders_as(all[collected.len() as int]),
        pair[1].renders_as(all[collected.len() as int + 1]),
        third.renders_as(all[collected.len() as int + 2]),
        concat(all) == concat(collected) + all[collected.len() as int] + all[collected.len() as int
            + 1] + all[collected.len() as int + 2],
        collected.len() == 0 ==> concat(all) == all[0] + all[1] + all[2],
{
    let base = collected.len() as int;
    let added = extended_by_pair.skip(base);
    assert(pair[0].renders_as(added[0]));
    assert(pair[1].renders_as(added[1]));
    assert(all.drop_last() == extended_by_pair);
    assert(extended_by_pair == collected + added) by {
        assert(extended_by_pair.take(base) == collected);
    }
    lemma_concat_add(collected, added);
    assert(concat(added) == added[0] + added[1]) by {
        reveal_with_fuel(concat, 3);
        assert(added.drop_last() == seq![added[0]]);
        assert(seq![added[0]].drop_last() == Seq::<Seq<Token>>::empty());
    }
    if collected.len() == 0 {
        assert(concat(collected) == Seq::<Token>::empty());
        assert(concat(all) =~= all[0] + all[1] + all[2]);
    }
}

/// An emitter that is drained hands out every error emitted before, in the
/// order of emission, and is empty afterwards: after two errors were emitted
/// the first draining gives what was emitted earlier and then a rendering of
/// each of the two, and a second draining, of the emitter that the first one
/// left empty, gives nothing.
pub proof fn lemma_drain_once<A: ToTokensError, B: ToTokensError>(
    emitted: Seq<Seq<Token>>,
    first: A,
    second: B,
    after_first: Seq<Seq<Token>>,
    after_second: Seq<Seq<Token>>,
)
    requires
        pushed(emitted, first, after_first),
        pushed(after_first, second, after_second),
    ensures
        drained(after_second) == Some(after_second),
        after_second.len() == emitted.len() + 2,
        after_second.take(emitted.len() as int) == emitted,
        first.renders_as(after_second[emitted.len() as int]),
        second.renders_as(after_second[emitted.len() as int + 1]),
        drained(Seq::<Seq<Token>>::empty()) == None::<Seq<Seq<Token>>>,
{
    assert(after_second.drop_last().drop_last() == emitted);
    assert(after_second.drop_last().last() == after_second[emitted.len() as int]);
}

} // verus!
