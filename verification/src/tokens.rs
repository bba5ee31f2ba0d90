//! The token streams of `proc_macro2`, as verified code sees them.
//!
//! A [`TokenStream`] is opaque to the verifier. Its contents are named by
//! [`stream_tokens`], a sequence of [`Token`] values, and every function of
//! `proc_macro2` that the library calls is given a contract over that name.
//! None of the contracts in this module is proved: they restate what the
//! source of `proc_macro2` shows.
//!
//! The contracts speak of values from one source: the streams and spans of
//! the compiler inside a running macro, or those that `proc_macro2` makes on
//! its own outside of one. `proc_macro2` does not let the two meet.

use proc_macro2::{Delimiter, Group, Ident, Literal, Punct, Spacing, Span, TokenStream, TokenTree};
use vstd::prelude::*;

verus! {

/// Declares `proc_macro2::TokenStream`; nothing inside it is seen.
#[verifier::external_type_specification]
#[verifier::external_body]
pub struct ExTokenStream(TokenStream);

/// Declares `proc_macro2::Span`; nothing inside it is seen.
#[verifier::external_type_specification]
#[verifier::external_body]
pub struct ExSpan(Span);

/// Declares `proc_macro2::Delimiter` with its four variants.
#[verifier::external_type_specification]
pub struct ExDelimiter(Delimiter);

/// Declares `proc_macro2::Spacing` with its two variants.
#[verifier::external_type_specification]
pub struct ExSpacing(Spacing);

/// What one token tree is: its kind, its text and the span it carries.
pub enum Token {
    /// An identifier, by the text it prints as.
    Ident { name: Seq<char>, span: Span },
    /// One punctuation character, and whether the next token follows it
    /// without a gap.
    Punct { ch: char, spacing: Spacing, span: Span },
    /// A literal, by its source representation.
    Literal { repr: Seq<char>, span: Span },
    /// A delimited group with the token trees inside it. `span` is the span
    /// of the whole group.
    Group { delimiter: Delimiter, inner: Seq<Token>, span: Span },
}

/// The span that a token tree reports for itself.
pub open spec fn token_span(token: Token) -> Span {
    match token {
        Token::Ident { span, .. } => span,
        Token::Punct { span, .. } => span,
        Token::Literal { span, .. } => span,
        Token::Group { span, .. } => span,
    }
}

/// The spans of a run of token trees, one for each.
pub open spec fn token_spans(tokens: Seq<Token>) -> Seq<Span> {
    Seq::new(tokens.len(), |i: int| token_span(tokens[i]))
}

/// The characters that `proc_macro2` accepts in a [`Punct`].
pub open spec fn is_punct_char(ch: char) -> bool {
    ch == '!' || ch == '#' || ch == '$' || ch == '%' || ch == '&' || ch == '\'' || ch == '*' || ch
        == '+' || ch == ',' || ch == '-' || ch == '.' || ch == '/' || ch == ':' || ch == ';' || ch
        == '<' || ch == '=' || ch == '>' || ch == '?' || ch == '@' || ch == '^' || ch == '|' || ch
        == '~'
}

/// An ASCII letter.
pub open spec fn is_ascii_letter(ch: char) -> bool {
    ('a' <= ch && ch <= 'z') || ('A' <= ch && ch <= 'Z')
}

/// A name made of ASCII letters, digits and underscores that starts with a
/// letter, or with an underscore that more follows. Every such name is
/// accepted as an identifier.
pub open spec fn is_plain_ident(name: Seq<char>) -> bool {
    &&& name.len() > 0
    &&& is_ascii_letter(name[0]) || (name[0] == '_' && name.len() > 1)
    &&& forall|i: int|
        0 <= i < name.len() ==> is_ascii_letter(#[trigger] name[i]) || ('0' <= name[i] && name[i]
            <= '9') || name[i] == '_'
}

/// The token trees that a stream holds, in order.
pub uninterp spec fn stream_tokens(stream: TokenStream) -> Seq<Token>;

/// The source representation of the string literal that stands for `text`:
/// what `Literal::string` makes of it, quotes and escapes included.
pub uninterp spec fn string_literal_repr(text: Seq<char>) -> Seq<char>;

/// `TokenStream::new` returns a stream without token trees.
pub assume_specification[ TokenStream::new ]() -> (stream: TokenStream)
    ensures
        stream_tokens(stream) == Seq::<Token>::empty(),
;

/// `TokenStream::is_empty` tells whether the stream holds no token tree.
pub assume_specification[ TokenStream::is_empty ](stream: &TokenStream) -> (empty: bool)
    ensures
        empty == (stream_tokens(*stream).len() == 0),
;

/// Cloning a `TokenStream` yields a stream with the same token trees.
pub assume_specification[ <TokenStream as Clone>::clone ](stream: &TokenStream) -> (copy:
    TokenStream)
    ensures
        stream_tokens(copy) == stream_tokens(*stream),
;

/// `Span::call_site` returns the span of the running macro's invocation.
/// Which span that is depends on the invocation, so nothing is stated of it.
pub assume_specification[ Span::call_site ]() -> (span: Span)
;

/// Wraps `Span::join`, which gives one span that covers both where the
/// compiler supports that. Nothing is stated of the result.
#[verifier::external_body]
pub(crate) fn joined_span(first: Span, last: Span) -> (joined: Option<Span>) {
    first.join(last)
}

/// Wraps `Extend<TokenTree>::extend` for `TokenStream`: the token trees of
/// `other` are appended to `tokens`, in order, behind those already there.
#[verifier::external_body]
pub(crate) fn append(tokens: &mut TokenStream, other: TokenStream)
    ensures
        stream_tokens(*final(tokens)) == stream_tokens(*old(tokens)) + stream_tokens(other),
{
    tokens.extend(other);
}

/// Wraps `Ident::new` and appends the identifier: `tokens` grows by one
/// identifier with the given name and span. `Ident::new` panics on a name
/// that is no identifier, so only plain names are admitted.
#[verifier::external_body]
pub(crate) fn push_ident(tokens: &mut TokenStream, name: &str, span: Span)
    requires
        is_plain_ident(name@),
    ensures
        stream_tokens(*final(tokens)) == stream_tokens(*old(tokens)).push(
            Token::Ident { name: name@, span },
        ),
{
    tokens.extend([TokenTree::Ident(Ident::new(name, span))]);
}

/// Wraps `Punct::new` and `Punct::set_span`, and appends the result:
/// `tokens` grows by one punctuation character with the given spacing and
/// span. `Punct::new` panics on a character outside its list.
#[verifier::external_body]
pub(crate) fn push_punct(tokens: &mut TokenStream, ch: char, spacing: Spacing, span: Span)
    requires
        is_punct_char(ch),
    ensures
        stream_tokens(*final(tokens)) == stream_tokens(*old(tokens)).push(
            Token::Punct { ch, spacing, span },
        ),
{
    let mut punct = Punct::new(ch, spacing);
    punct.set_span(span);
    tokens.extend([TokenTree::Punct(punct)]);
}

/// Wraps `Literal::string` and `Literal::set_span`, and appends the result:
/// `tokens` grows by one string literal that stands for `text` and carries
/// the given span.
#[verifier::external_body]
pub(crate) fn push_string_literal(tokens: &mut TokenStream, text: &str, span: Span)
    ensures
        stream_tokens(*final(tokens)) == stream_tokens(*old(tokens)).push(
            Token::Literal { repr: string_literal_repr(text@), span },
        ),
{
    let mut literal = Literal::string(text);
    literal.set_span(span);
    tokens.extend([TokenTree::Literal(literal)]);
}

/// Wraps `Group::new` and `Group::set_span`, and appends the result:
/// `tokens` grows by one group that holds the token trees of `inner` between
/// the given brackets and carries the given span.
#[verifier::external_body]
pub(crate) fn push_group(
    tokens: &mut TokenStream,
    delimiter: Delimiter,
    inner: TokenStream,
    span: Span,
)
    ensures
        stream_tokens(*final(tokens)) == stream_tokens(*old(tokens)).push(
            Token::Group { delimiter, inner: stream_tokens(inner), span },
        ),
{
    let mut group = Group::new(delimiter, inner);
    group.set_span(span);
    tokens.extend([TokenTree::Group(group)]);
}

/// Walks the stream with `IntoIterator::into_iter` and hands out what
/// `TokenTree::span` returns for each token tree, in order.
#[verifier::external_body]
pub(crate) fn top_level_spans(stream: &TokenStream) -> (spans: Vec<Span>)
    ensures
        spans@ == token_spans(stream_tokens(*stream)),
{
    stream.clone().into_iter().map(|tree| tree.span()).collect()
}

} // verus!
