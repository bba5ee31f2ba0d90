//! The errors of `syn` and `darling`, which render themselves as tokens.
//!
//! Such an error holds one message or more, and renders as one invocation
//! of `compile_error!` for each. What the messages say belongs to the error.
//! Where they point does not: an error remembers the thread it was made on,
//! and points to the call site when it is rendered on another. So the
//! contracts here fix the messages of a rendering, and leave its spans open.
//!
//! `darling` renders its errors like this when it is built without its
//! feature `diagnostics`, as it is for this crate.

use crate::error::{pushed, reports, Error, ErrorMessage, ToTokensError};
use crate::tokens::{append, stream_tokens, Token};
use darling_core::Error as DarlingError;
use proc_macro2::TokenStream;
use syn::Error as SynError;
use vstd::prelude::*;

verus! {

/// Declares `syn::Error`; nothing inside it is seen.
#[verifier::external_type_specification]
#[verifier::external_body]
pub struct ExSynError(SynError);

/// Declares `darling_core::Error`; nothing inside it is seen.
#[verifier::external_type_specification]
#[verifier::external_body]
pub struct ExDarlingError(DarlingError);

/// The messages that an error of `syn` holds, in order.
pub uninterp spec fn syn_messages(error: SynError) -> Seq<Seq<char>>;

/// The messages that an error of `darling` reports, in order: one for each
/// error gathered in it.
pub uninterp spec fn darling_messages(error: DarlingError) -> Seq<Seq<char>>;

/// `syn::Error::to_compile_error` renders each message of the error, in
/// order, as `::core::compile_error! { "message" }`. An error holds at least
/// one message.
pub assume_specification[ SynError::to_compile_error ](error: &SynError) -> (tokens:
    TokenStream)
    ensures
        reports(syn_messages(*error), stream_tokens(tokens)),
;

/// `syn::Error::into_compile_error` renders as `to_compile_error` does.
pub assume_specification[ SynError::into_compile_error ](error: SynError) -> (tokens:
    TokenStream)
    ensures
        reports(syn_messages(error), stream_tokens(tokens)),
;

/// A copy of an error of `darling` reports the same messages.
pub assume_specification[ <DarlingError as Clone>::clone ](error: &DarlingError) -> (copy:
    DarlingError)
    ensures
        darling_messages(copy) == darling_messages(*error),
;

/// `darling_core::Error::write_errors` turns the error, and the errors
/// gathered in it, into one error of `syn` with a message for each, and
/// renders that: one `::core::compile_error! { "message" }` for each.
pub assume_specification[ DarlingError::write_errors ](error: DarlingError) -> (tokens:
    TokenStream)
    ensures
        reports(darling_messages(error), stream_tokens(tokens)),
;

/// Wraps `syn::Error::new_spanned`: an error that holds the given text as
/// its one message, and points to the given tokens.
#[verifier::external_body]
fn spanned_syn_error(tokens: TokenStream, text: String) -> (error: SynError)
    ensures
        syn_messages(error) == seq![text@],
{
    SynError::new_spanned(tokens, text)
}

impl ToTokensError for SynError {
    /// An error of `syn` renders as a report of its messages.
    open spec fn renders_as(&self, tokens: Seq<Token>) -> bool {
        reports(syn_messages(*self), tokens)
    }

    fn to_tokens(&self, tokens: &mut TokenStream) {
        let rendered = self.to_compile_error();
        append(tokens, rendered);
        assert(self.renders_as(stream_tokens(rendered)));
    }
}

impl ToTokensError for DarlingError {
    /// An error of `darling` renders as a report of its messages.
    open spec fn renders_as(&self, tokens: Seq<Token>) -> bool {
        reports(darling_messages(*self), tokens)
    }

    fn to_tokens(&self, tokens: &mut TokenStream) {
        let rendered = self.clone().write_errors();
        append(tokens, rendered);
        assert(self.renders_as(stream_tokens(rendered)));
    }
}

impl From<SynError> for Error {
    /// A collection that holds a rendering of `error` alone.
    fn from(error: SynError) -> (collection: Self)
        ensures
            pushed(Seq::empty(), error, collection@),
    {
        Error::from(error)
    }
}

/// What the conversion gives is stated at `from` itself.
impl vstd::std_specs::convert::FromSpecImpl<SynError> for Error {
    open spec fn obeys_from_spec() -> bool {
        false
    }

    open spec fn from_spec(error: SynError) -> Self {
        arbitrary()
    }
}

impl From<DarlingError> for Error {
    /// A collection that holds a rendering of `error` alone.
    fn from(error: DarlingError) -> (collection: Self)
        ensures
            pushed(Seq::empty(), error, collection@),
    {
        Error::from(error)
    }
}

/// What the conversion gives is stated at `from` itself.
impl vstd::std_specs::convert::FromSpecImpl<DarlingError> for Error {
    open spec fn obeys_from_spec() -> bool {
        false
    }

    open spec fn from_spec(error: DarlingError) -> Self {
        arbitrary()
    }
}

impl From<ErrorMessage> for SynError {
    /// An error of `syn` that says what `value` says and points to where
    /// `value` points: its one message is the text of `value`.
    fn from(value: ErrorMessage) -> (error: Self)
        ensures
            syn_messages(error) == seq![value@.text()],
    {
        spanned_syn_error(value.to_token_stream(), value.render())
    }
}

/// What the conversion gives is stated at `from` itself.
impl vstd::std_specs::convert::FromSpecImpl<ErrorMessage> for SynError {
    open spec fn obeys_from_spec() -> bool {
        false
    }

    open spec fn from_spec(value: ErrorMessage) -> Self {
        arbitrary()
    }
}

} // verus!
