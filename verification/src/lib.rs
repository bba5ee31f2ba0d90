//! Error handling for procedural macros.
//!
//! A procedural macro can only hand tokens back to the compiler, on success
//! and on failure alike. This library lets the implementation of a macro
//! return a `Result` instead: the drivers [`function`], [`attribute`] and
//! [`derive`] call the implementation and turn what it returns into one
//! token stream. Errors are rendered as invocations of `compile_error!`, a
//! dummy stream stands in for the output that is missing, and an [`Emitter`]
//! collects errors that should be reported without giving up.
//!
//! A driver hands the input to the macro's implementation, together with a
//! dummy stream and a fresh [`Emitter`]. It returns the output where the
//! implementation succeeded, the dummy and the rendered error where it
//! failed, and in both cases, at the end, whatever the emitter still holds.
//!
//! Token streams are those of `proc_macro2`. What a stream holds is named by
//! [`tokens::stream_tokens`], and every contract of the library is stated
//! over that name.

pub mod dispatch;
pub mod error;
pub mod foreign;
pub mod item;
pub mod macros;
pub mod parse_to_tokens;
pub mod render;
pub mod span_ranged;
pub mod text;
pub mod tokens;

pub use error::{
    Attachment, Emitter, Error, ErrorMessage, JoinToTokensError, ResultExt, SilentError,
    ToTokensError,
};
pub use span_ranged::{to_tokens_span_range, SpanRanged};

use crate::error::{concat, pushed};
use crate::tokens::{stream_tokens, Token};
use proc_macro2::TokenStream;
use vstd::prelude::*;

verus! {

/// What an implementation returned, once brought to one shape: the tokens
/// of its output, or what each of its errors renders as.
pub type Outcome = Result<Seq<Token>, Seq<Seq<Token>>>;

/// The outcome that a converted output stands for.
pub open spec fn outcome_of(result: Result<TokenStream, Error>) -> Outcome {
    match result {
        Ok(tokens) => Ok(stream_tokens(tokens)),
        Err(errors) => Err(errors@),
    }
}

/// Marks the types that hold a token stream.
pub trait AnyTokenStream: Clone + From<TokenStream> + Into<TokenStream> + Default {

}

impl AnyTokenStream for TokenStream {

}

/// What a macro implementation may return: a token stream, or a `Result`
/// with an output of that kind and an error that renders as tokens.
pub trait MacroOutput {
    /// Whether `outcome` is what this value converts to.
    spec fn converts_to(self, outcome: Outcome) -> bool;

    /// Brings the value to the shape `Result<TokenStream, Error>`.
    fn convert(self) -> (result: Result<TokenStream, Error>)
        ensures
            self.converts_to(outcome_of(result)),
    ;
}

impl MacroOutput for TokenStream {
    /// A token stream is a success with these tokens.
    open spec fn converts_to(self, outcome: Outcome) -> bool {
        outcome == Ok::<Seq<Token>, Seq<Seq<Token>>>(stream_tokens(self))
    }

    fn convert(self) -> (result: Result<TokenStream, Error>) {
        let result = Ok(self);
        assert(self.converts_to(outcome_of(result)));
        result
    }
}

impl<T: MacroOutput, E: ToTokensError + 'static> MacroOutput for Result<T, E> {
    /// A success converts as its value does; an error becomes a collection
    /// that holds it alone.
    open spec fn converts_to(self, outcome: Outcome) -> bool {
        match self {
            Ok(value) => value.converts_to(outcome),
            Err(error) => outcome matches Err(errors) && pushed(Seq::empty(), error, errors),
        }
    }

    fn convert(self) -> (result: Result<TokenStream, Error>) {
        let result = match self {
            Ok(value) => value.convert(),
            Err(error) => Err(Error::from(error)),
        };
        assert(self.converts_to(outcome_of(result)));
        result
    }
}

/// The dummy that an implementation starts with: the given tokens where the
/// flag is set, nothing otherwise.
pub open spec fn seed(tokens: Seq<Token>, as_dummy: bool) -> Seq<Token> {
    if as_dummy {
        tokens
    } else {
        Seq::empty()
    }
}

/// The tokens that a driver returns: after a success the output, after a
/// failure the dummy and then the errors; behind either, what the emitter
/// still holds.
pub open spec fn assembled(outcome: Outcome, dummy: Seq<Token>, emitted: Seq<Seq<Token>>) -> Seq<
    Token,
> {
    match outcome {
        Ok(tokens) => tokens + concat(emitted),
        Err(errors) => dummy + concat(errors) + concat(emitted),
    }
}

/// Puts together what a driver returns, from what the implementation
/// returned, the dummy as the implementation left it, and the emitter.
pub fn assemble(result: Result<TokenStream, Error>, dummy: TokenStream, emitter: &Emitter) -> (tokens:
    TokenStream)
    ensures
        stream_tokens(tokens) == assembled(outcome_of(result), stream_tokens(dummy), emitter@),
{
    let mut tokens = match result {
        Ok(tokens) => tokens,
        Err(error) => {
            let mut tokens = dummy;
            error.to_tokens(&mut tokens);
            tokens
        },
    };
    emitter.to_tokens(&mut tokens);
    tokens
}

/// Drives a function-like macro.
///
/// `body` gets the input, a dummy stream and an emitter. With
/// `input_as_dummy` the dummy starts as a copy of the input, else empty. The
/// result is put together as [`assembled`] says.
pub fn function<Output: MacroOutput, Body: FnOnce(TokenStream, &mut TokenStream, &mut Emitter) -> Output>(
    input: TokenStream,
    input_as_dummy: bool,
    body: Body,
) -> (tokens: TokenStream)
    requires
        forall|dummy: &mut TokenStream, emitter: &mut Emitter|
            stream_tokens(*dummy) == seed(stream_tokens(input), input_as_dummy) && emitter@.len()
                == 0 ==> call_requires(body, (input, dummy, emitter)),
    ensures
        exists|dummy: &mut TokenStream, emitter: &mut Emitter, output: Output, outcome: Outcome|
            stream_tokens(*dummy) == seed(stream_tokens(input), input_as_dummy) && emitter@.len()
                == 0 && #[trigger] call_ensures(body, (input, dummy, emitter), output)
                && #[trigger] output.converts_to(outcome) && stream_tokens(tokens) == assembled(
                outcome,
                stream_tokens(*final(dummy)),
                final(emitter)@,
            ),
{
    let mut dummy = if input_as_dummy {
        input.clone()
    } else {
        TokenStream::new()
    };
    let mut emitter = Emitter::new();
    let output = body(input, &mut dummy, &mut emitter);
    let result = output.convert();
    proof {
        assert(output.converts_to(outcome_of(result)));
    }
    assemble(result, dummy, &emitter)
}

/// Drives a derive macro.
///
/// `body` gets the item, an empty dummy stream and an emitter. The result
/// is put together as [`assembled`] says.
pub fn derive<Output: MacroOutput, Body: FnOnce(TokenStream, &mut TokenStream, &mut Emitter) -> Output>(
    item: TokenStream,
    body: Body,
) -> (tokens: TokenStream)
    requires
        forall|dummy: &mut TokenStream, emitter: &mut Emitter|
            stream_tokens(*dummy).len() == 0 && emitter@.len() == 0 ==> call_requires(
                body,
                (item, dummy, emitter),
            ),
    ensures
        exists|dummy: &mut TokenStream, emitter: &mut Emitter, output: Output, outcome: Outcome|
            stream_tokens(*dummy).len() == 0 && emitter@.len() == 0 && #[trigger] call_ensures(
                body,
                (item, dummy, emitter),
                output,
            ) && #[trigger] output.converts_to(outcome) && stream_tokens(tokens) == assembled(
                outcome,
                stream_tokens(*final(dummy)),
                final(emitter)@,
            ),
{
    let mut dummy = TokenStream::new();
    let mut emitter = Emitter::new();
    let output = body(item, &mut dummy, &mut emitter);
    let result = output.convert();
    proof {
        assert(output.converts_to(outcome_of(result)));
    }
    assemble(result, dummy, &emitter)
}

/// Drives an attribute macro.
///
/// `body` gets the arguments of the attribute, the item under it, a dummy
/// stream and an emitter. With `item_as_dummy` the dummy starts as a copy of
/// the item, else empty. The result is put together as [`assembled`] says.
pub fn attribute<
    Output: MacroOutput,
    Body: FnOnce(TokenStream, TokenStream, &mut TokenStream, &mut Emitter) -> Output,
>(input: TokenStream, item: TokenStream, item_as_dummy: bool, body: Body) -> (tokens: TokenStream)
    requires
        forall|dummy: &mut TokenStream, emitter: &mut Emitter|
            stream_tokens(*dummy) == seed(stream_tokens(item), item_as_dummy) && emitter@.len()
                == 0 ==> call_requires(body, (input, item, dummy, emitter)),
    ensures
        exists|dummy: &mut TokenStream, emitter: &mut Emitter, output: Output, outcome: Outcome|
            stream_tokens(*dummy) == seed(stream_tokens(item), item_as_dummy) && emitter@.len()
                == 0 && #[trigger] call_ensures(body, (input, item, dummy, emitter), output)
                && #[trigger] output.converts_to(outcome) && stream_tokens(tokens) == assembled(
                outcome,
                stream_tokens(*final(dummy)),
                final(emitter)@,
            ),
{
    let mut dummy = if item_as_dummy {
        item.clone()
    } else {
        TokenStream::new()
    };
    let mut emitter = Emitter::new();
    let output = body(input, item, &mut dummy, &mut emitter);
    let result = output.convert();
    proof {
        assert(output.converts_to(outcome_of(result)));
    }
    assemble(result, dummy, &emitter)
}

/// Converting is the identity on what is already in shape: a bare token
/// stream converts to a success with its tokens, and so does a success that
/// holds it; an error converts to what [`Error::from`] makes of it, a
/// collection that holds it alone.
pub proof fn lemma_convert_round_trip<E: ToTokensError + 'static>(
    tokens: TokenStream,
    error: E,
    outcome: Outcome,
)
    ensures
        tokens.converts_to(outcome) <==> outcome == Ok::<Seq<Token>, Seq<Seq<Token>>>(
            stream_tokens(tokens),
        ),
        Ok::<TokenStream, E>(tokens).converts_to(outcome) <==> tokens.converts_to(outcome),
        Err::<TokenStream, E>(error).converts_to(outcome) <==> (outcome matches Err(errors)
            && pushed(Seq::empty(), error, errors)),
{
}

/// After a failure that left the dummy as it was seeded from the input,
/// with nothing emitted, a driver returns the input and then the rendered
/// error.
pub proof fn lemma_failure_keeps_seeded_dummy(input: Seq<Token>, errors: Seq<Seq<Token>>)
    ensures
        assembled(Err(errors), seed(input, true), Seq::empty()) == input + concat(errors),
{
}

/// After a failure a driver returns the dummy as the implementation left
/// it, and then the rendered error: where the implementation put other
/// tokens in place of the seeded input, those come out and the input does
/// not.
pub proof fn lemma_failure_returns_replaced_dummy(
    input: Seq<Token>,
    replaced: Seq<Token>,
    errors: Seq<Seq<Token>>,
)
    ensures
        assembled(Err(errors), replaced, Seq::empty()) == replaced + concat(errors),
        replaced != input ==> assembled(Err(errors), replaced, Seq::empty()) != assembled(
            Err(errors),
            seed(input, true),
            Seq::empty(),
        ),
{
    let behind = concat(errors) + concat(Seq::<Seq<Token>>::empty());
    if replaced + concat(errors) + concat(Seq::<Seq<Token>>::empty()) == input + concat(errors)
        + concat(Seq::<Seq<Token>>::empty()) {
        let left = replaced + behind;
        let right = input + behind;
        assert(left =~= replaced + concat(errors) + concat(Seq::<Seq<Token>>::empty()));
        assert(right =~= input + concat(errors) + concat(Seq::<Seq<Token>>::empty()));
        assert(left.len() == right.len());
        assert forall|i: int| 0 <= i < replaced.len() implies replaced[i] == input[i] by {
            assert(left[i] == replaced[i]);
            assert(right[i] == input[i]);
        }
        assert(replaced =~= input);
    }
}

/// Whatever the implementation returned, what the emitter still holds is
/// rendered once, at the end of what a driver returns.
pub proof fn lemma_emitted_comes_last(
    outcome: Outcome,
    dummy: Seq<Token>,
    emitted: Seq<Seq<Token>>,
)
    ensures
        assembled(outcome, dummy, emitted) == assembled(outcome, dummy, Seq::empty()) + concat(
            emitted,
        ),
{
}

} // verus!
