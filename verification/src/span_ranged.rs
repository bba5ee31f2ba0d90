//! Span ranges: the first and the last span of a value that covers several
//! tokens, so that a message can underline all of it.

use crate::tokens::{joined_span, stream_tokens, token_span, top_level_spans, Token};
use core::ops::Range;
use proc_macro2::{Span, TokenStream};
use vstd::prelude::*;

verus! {

/// Whether `range` runs from the first to the last of `tokens`. Over no
/// token at all a range covers nothing: its two ends are one span.
pub open spec fn covers(range: Range<Span>, tokens: Seq<Token>) -> bool {
    if tokens.len() == 0 {
        range.start == range.end
    } else {
        range.start == token_span(tokens[0]) && range.end == token_span(tokens.last())
    }
}

/// A value that knows the range of spans it covers.
///
/// `start` and `end` are the same for a single token or a single [`Span`].
pub trait SpanRanged {
    /// Whether `range` is a range that this value may report.
    spec fn is_span_range(&self, range: Range<Span>) -> bool;

    /// The range from the first to the last span of `self`.
    fn span_range(&self) -> (range: Range<Span>)
        ensures
            self.is_span_range(range),
    ;

    /// [`Self::span_range`] as one span, where the compiler can join spans.
    fn span_joined(&self) -> Option<Span> {
        let range = self.span_range();
        joined_span(range.start, range.end)
    }

    /// The older name of [`Self::span_joined`].
    fn joined(&self) -> Option<Span> {
        self.span_joined()
    }
}

impl<T: SpanRanged> SpanRanged for &T {
    open spec fn is_span_range(&self, range: Range<Span>) -> bool {
        (**self).is_span_range(range)
    }

    fn span_range(&self) -> (range: Range<Span>) {
        let range = (*self).span_range();
        assert(self.is_span_range(range));
        range
    }
}

impl<T: SpanRanged> SpanRanged for Option<T> {
    open spec fn is_span_range(&self, range: Range<Span>) -> bool {
        match self {
            Some(inner) => inner.is_span_range(range),
            None => range.start == range.end,
        }
    }

    fn span_range(&self) -> (range: Range<Span>) {
        let range = match self {
            Some(inner) => inner.span_range(),
            None => Span::call_site().span_range(),
        };
        assert(self.is_span_range(range));
        range
    }
}

impl<A: SpanRanged, B: SpanRanged> SpanRanged for (A, B) {
    open spec fn is_span_range(&self, range: Range<Span>) -> bool {
        exists|first: Range<Span>, last: Range<Span>|
            #![trigger self.0.is_span_range(first), self.1.is_span_range(last)]
            self.0.is_span_range(first) && self.1.is_span_range(last) && range.start == first.start
                && range.end == last.end
    }

    fn span_range(&self) -> (range: Range<Span>) {
        let first = self.0.span_range();
        let last = self.1.span_range();
        let range = Range { start: first.start, end: last.end };
        assert(self.is_span_range(range));
        range
    }
}

impl SpanRanged for Span {
    open spec fn is_span_range(&self, range: Range<Span>) -> bool {
        range.start == *self && range.end == *self
    }

    fn span_range(&self) -> (range: Range<Span>) {
        let range = Range { start: *self, end: *self };
        assert(self.is_span_range(range));
        range
    }
}

impl<T: SpanRanged> SpanRanged for Range<T> {
    open spec fn is_span_range(&self, range: Range<Span>) -> bool {
        exists|first: Range<Span>, last: Range<Span>|
            #![trigger self.start.is_span_range(first), self.end.is_span_range(last)]
            self.start.is_span_range(first) && self.end.is_span_range(last) && range.start
                == first.start && range.end == last.end
    }

    fn span_range(&self) -> (range: Range<Span>) {
        let first = self.start.span_range();
        let last = self.end.span_range();
        let range = Range { start: first.start, end: last.end };
        assert(self.is_span_range(range));
        range
    }
}

/// The range from the first to the last token tree of `tokens`; the call
/// site, twice, where `tokens` is empty.
pub fn to_tokens_span_range(tokens: &TokenStream) -> (range: Range<Span>)
    ensures
        covers(range, stream_tokens(*tokens)),
{
    let spans = top_level_spans(tokens);
    if spans.len() == 0 {
        let site = Span::call_site();
        Range { start: site, end: site }
    } else {
        Range { start: spans[0], end: spans[spans.len() - 1] }
    }
}

/// The range from the first token tree of `first` to the last token tree of
/// `last`. Where `first` is empty the range starts at the call site; where
/// `last` is empty it ends where it starts.
pub open spec fn covers_pair(range: Range<Span>, first: Seq<Token>, last: Seq<Token>) -> bool {
    &&& first.len() > 0 ==> range.start == token_span(first[0])
    &&& if last.len() > 0 {
        range.end == token_span(last.last())
    } else {
        range.end == range.start
    }
}

/// Gives a [`SpanRanged`] value the method that span arguments are read
/// with.
pub trait SpanRangedToSpanRange {
    /// Whether `range` is a range that this value may report.
    spec fn is_range_of_spans(&self, range: Range<Span>) -> bool;

    /// The range of spans of `self`.
    #[allow(non_snake_case)]
    fn FIRST_ARG_MUST_IMPLEMENT_SpanRanged_OR_ToTokens(&self) -> (range: Range<Span>)
        ensures
            self.is_range_of_spans(range),
    ;
}

impl<T: SpanRanged> SpanRangedToSpanRange for T {
    open spec fn is_range_of_spans(&self, range: Range<Span>) -> bool {
        self.is_span_range(range)
    }

    #[allow(non_snake_case)]
    fn FIRST_ARG_MUST_IMPLEMENT_SpanRanged_OR_ToTokens(&self) -> (range: Range<Span>) {
        self.span_range()
    }
}

/// Gives tokens the method that span arguments are read with.
pub trait ToTokensToSpanRange {
    /// Whether `range` is a range that these tokens may report.
    spec fn is_range_of_tokens(&self, range: Range<Span>) -> bool;

    /// The range from the first to the last token tree of `self`.
    #[allow(non_snake_case)]
    fn FIRST_ARG_MUST_IMPLEMENT_SpanRanged_OR_ToTokens(&self) -> (range: Range<Span>)
        ensures
            self.is_range_of_tokens(range),
    ;
}

impl ToTokensToSpanRange for TokenStream {
    open spec fn is_range_of_tokens(&self, range: Range<Span>) -> bool {
        covers(range, stream_tokens(*self))
    }

    #[allow(non_snake_case)]
    fn FIRST_ARG_MUST_IMPLEMENT_SpanRanged_OR_ToTokens(&self) -> (range: Range<Span>) {
        to_tokens_span_range(self)
    }
}

/// Gives a pair of tokens the method that span arguments are read with.
pub trait ToTokensTupleToSpanRange {
    /// Whether `range` is a range that this pair may report.
    spec fn is_range_of_pair(&self, range: Range<Span>) -> bool;

    /// The range from the first token tree of the first half to the last
    /// token tree of the second.
    #[allow(non_snake_case)]
    fn FIRST_ARG_MUST_IMPLEMENT_SpanRanged_OR_ToTokens(&self) -> (range: Range<Span>)
        ensures
            self.is_range_of_pair(range),
    ;
}

impl ToTokensTupleToSpanRange for (TokenStream, TokenStream) {
    open spec fn is_range_of_pair(&self, range: Range<Span>) -> bool {
        covers_pair(range, stream_tokens(self.0), stream_tokens(self.1))
    }

    #[allow(non_snake_case)]
    fn FIRST_ARG_MUST_IMPLEMENT_SpanRanged_OR_ToTokens(&self) -> (range: Range<Span>) {
        let first = top_level_spans(&self.0);
        let last = top_level_spans(&self.1);
        let start = if first.len() == 0 {
            Span::call_site()
        } else {
            first[0]
        };
        let end = if last.len() == 0 {
            start
        } else {
            last[last.len() - 1]
        };
        Range { start, end }
    }
}

} // verus!
