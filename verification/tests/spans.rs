use manyhow::span_ranged::{
    SpanRangedToSpanRange, ToTokensToSpanRange, ToTokensTupleToSpanRange,
};
use manyhow::{to_tokens_span_range, SpanRanged};
use proc_macro2::{Span, TokenStream};

fn tokens(source: &str) -> TokenStream {
    source.parse().unwrap()
}

#[test]
fn test() {
    let one = tokens("1");
    ToTokensToSpanRange::FIRST_ARG_MUST_IMPLEMENT_SpanRanged_OR_ToTokens(&one);
    let pair = (tokens("1"), tokens("2"));
    ToTokensTupleToSpanRange::FIRST_ARG_MUST_IMPLEMENT_SpanRanged_OR_ToTokens(&pair);
}

#[test]
fn span_ranges_of_spans() {
    let span = Span::call_site();
    span.span_range();
    (&span).span_range();
    Some(span).span_range();
    None::<Span>.span_range();
    (span, span).span_range();
    (span..span).span_range();
    SpanRangedToSpanRange::FIRST_ARG_MUST_IMPLEMENT_SpanRanged_OR_ToTokens(&span);
    let _ = span.span_joined();
    let _ = span.joined();
}

#[test]
fn span_ranges_of_tokens() {
    to_tokens_span_range(&tokens("a + b"));
    to_tokens_span_range(&tokens("a"));
    to_tokens_span_range(&TokenStream::new());
    let pair = (TokenStream::new(), TokenStream::new());
    ToTokensTupleToSpanRange::FIRST_ARG_MUST_IMPLEMENT_SpanRanged_OR_ToTokens(&pair);
}

