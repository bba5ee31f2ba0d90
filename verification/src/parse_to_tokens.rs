//! Drivers for inputs that are parsed before the implementation gets them.
//!
//! The drivers `function_parsed`, `derive_parsed` and `attribute_parsed` take
//! what `syn` made of each input. An input that could not be parsed ends the
//! run: the dummy comes back, with the report of the error behind it, and the
//! implementation is not called.
//!
//! The macros `function!`, `attribute!` and `derive!` go the same way in
//! steps: the traits here pick how a value is parsed, tried and turned into
//! tokens, the `*_transparent` drivers call the implementation, and `expand`
//! puts the result together.

use crate::error::{
    compile_error_tokens, concat, reports, Emitter, ErrorMessage, ToTokensError,
};
use crate::foreign::syn_messages;
use crate::render::lemma_plain_message_renders_as_it_stands;
use crate::tokens::{append, stream_tokens, Token};
use crate::{assemble, assembled, outcome_of, seed, MacroOutput, Outcome};
use core::convert::Infallible;
use core::marker::PhantomData;
use proc_macro2::{Span, TokenStream};
use syn::Error as SynError;
use vstd::prelude::*;

verus! {

/// Picks how an input of type `T` is read from tokens.
pub trait ManyhowParse<T> {
    /// Whether `result` is what reading `input` gives.
    spec fn parses_to(input: TokenStream, attr: bool, result: Result<T, TokenStream>) -> bool;

    /// Reads `input`; `attr` tells that `input` holds the arguments of an
    /// attribute.
    fn manyhow_parse(&self, input: TokenStream, attr: bool) -> (result: Result<T, TokenStream>)
        ensures
            Self::parses_to(input, attr, result),
    ;
}

/// Picks how a value of type `T` is turned into tokens.
pub trait ManyhowToTokens<T> {
    /// Whether `input` may turn into `tokens`.
    spec fn turns_into(input: T, tokens: Seq<Token>) -> bool;

    /// Appends the tokens of `input` to `tokens`.
    fn manyhow_to_tokens(&self, input: T, tokens: &mut TokenStream)
        ensures
            exists|added: Seq<Token>| #[trigger]
                Self::turns_into(input, added) && stream_tokens(*final(tokens)) == stream_tokens(
                    *old(tokens),
                ) + added,
    ;
}

/// Picks how a value of type `T` is split into success and failure.
pub trait ManyhowTry<T> {
    type Ok;

    type Err;

    /// Whether `result` is what `value` splits into.
    spec fn tries_to(value: T, result: Result<Self::Ok, Self::Err>) -> bool;

    /// Splits `value` into success and failure.
    fn manyhow_try(&self, value: T) -> (result: Result<Self::Ok, Self::Err>)
        ensures
            Self::tries_to(value, result),
    ;
}

/// Stands for the type `T` where no value of it is at hand.
pub struct WhatType<T>(PhantomData<T>);

impl<T> WhatType<T> {
    /// The one value of this type.
    pub closed spec fn marker() -> Self {
        WhatType(PhantomData)
    }

    /// The marker for the type of `_ty`.
    pub fn from(_ty: &T) -> (marker: Self)
        ensures
            marker == Self::marker(),
    {
        Self(PhantomData)
    }

    /// The marker for the type `T`.
    pub fn new() -> (marker: Self)
        ensures
            marker == Self::marker(),
    {
        Self(PhantomData)
    }
}

impl<T> Clone for WhatType<T> {
    fn clone(&self) -> (copy: Self)
        ensures
            copy == *self,
    {
        *self
    }
}

impl<T> Copy for WhatType<T> {

}

impl ManyhowParse<TokenStream> for WhatType<TokenStream> {
    /// Tokens are read as they are.
    open spec fn parses_to(input: TokenStream, attr: bool, result: Result<
        TokenStream,
        TokenStream,
    >) -> bool {
        result == Ok::<TokenStream, TokenStream>(input)
    }

    fn manyhow_parse(&self, input: TokenStream, attr: bool) -> (result: Result<
        TokenStream,
        TokenStream,
    >) {
        Ok(input)
    }
}

impl<E: ToTokensError> ManyhowToTokens<E> for WhatType<E> {
    /// An error turns into the tokens it renders as.
    open spec fn turns_into(input: E, tokens: Seq<Token>) -> bool {
        input.renders_as(tokens)
    }

    fn manyhow_to_tokens(&self, input: E, tokens: &mut TokenStream) {
        input.to_tokens(tokens);
        proof {
            let rendered = choose|rendered: Seq<Token>| #[trigger]
                input.renders_as(rendered) && stream_tokens(*tokens) == stream_tokens(*old(tokens))
                    + rendered;
            assert(Self::turns_into(input, rendered));
        }
    }
}

impl<T, E> ManyhowTry<Result<T, E>> for WhatType<Result<T, E>> {
    type Ok = T;

    type Err = E;

    /// A `Result` is split as it is.
    open spec fn tries_to(value: Result<T, E>, result: Result<T, E>) -> bool {
        result == value
    }

    fn manyhow_try(&self, value: Result<T, E>) -> (result: Result<T, E>) {
        value
    }
}

impl<T> ManyhowTry<T> for &WhatType<T> {
    type Ok = T;

    type Err = Infallible;

    /// Any other value is a success.
    open spec fn tries_to(value: T, result: Result<T, Infallible>) -> bool {
        result == Ok::<T, Infallible>(value)
    }

    fn manyhow_try(&self, value: T) -> (result: Result<T, Infallible>) {
        Ok(value)
    }
}

/// What is said behind the error of an attribute whose arguments are
/// missing.
pub open spec fn attribute_note() -> Seq<char> {
    "while parsing attribute argument (`#[... (...)]`)"@
}

/// The tokens that stand for an input that could not be parsed: the
/// rendered error, and behind it, for the arguments of an attribute that
/// were empty, a note that says which input was read. The note points to
/// `site`.
pub open spec fn failure_tokens(rendered: Seq<Token>, attr: bool, empty: bool, site: Span) -> Seq<
    Token,
> {
    if attr && empty {
        rendered + compile_error_tokens(attribute_note(), site, site)
    } else {
        rendered
    }
}

/// Whether `tokens` stand for an input that could not be parsed, given
/// the rendered error and a note that points to `site`.
pub open spec fn is_failure(
    tokens: Seq<Token>,
    rendered: Seq<Token>,
    attr: bool,
    empty: bool,
    site: Span,
) -> bool {
    tokens == failure_tokens(rendered, attr, empty, site)
}

/// Turns the rendered error of an input that could not be parsed into the
/// tokens that stand for the input. `attr` tells that the input held the
/// arguments of an attribute, `empty` that it held no token.
pub fn parse_failure(rendered: TokenStream, attr: bool, empty: bool) -> (tokens: TokenStream)
    ensures
        exists|site: Span| #[trigger]
            is_failure(stream_tokens(tokens), stream_tokens(rendered), attr, empty, site),
{
    let mut tokens = rendered;
    if attr && empty {
        let note = ErrorMessage::call_site("while parsing attribute argument (`#[... (...)]`)");
        note.to_tokens(&mut tokens);
        proof {
            reveal_strlit("while parsing attribute argument (`#[... (...)]`)");
            assert(attribute_note().last() == ')');
            lemma_plain_message_renders_as_it_stands(attribute_note());
            assert(note@.attachments =~= Seq::empty());
        }
        assert(stream_tokens(tokens) == stream_tokens(rendered) + note.rendered());
        assert(is_failure(
            stream_tokens(tokens),
            stream_tokens(rendered),
            attr,
            empty,
            note@.span.start,
        ));
    } else {
        let site = Span::call_site();
        assert(is_failure(stream_tokens(tokens), stream_tokens(rendered), attr, empty, site));
    }
    tokens
}

/// Hands on an input that was parsed, and turns the error of one that was
/// not into the tokens that stand for it: a report of the messages of the
/// error and, for the arguments of an attribute that were empty, the note
/// behind it. `input` holds the tokens that were parsed; `attr` tells that
/// they are the arguments of an attribute.
pub fn parsed_or_failure<T>(input: &TokenStream, parsed: Result<T, SynError>, attr: bool) -> (result:
    Result<T, TokenStream>)
    ensures
        parsed is Ok ==> result is Ok && result->Ok_0 == parsed->Ok_0,
        parsed is Err ==> result is Err && exists|rendered: Seq<Token>, empty: bool, site: Span|
            reports(syn_messages(parsed->Err_0), rendered) && empty == (stream_tokens(*input).len()
                == 0) && #[trigger] is_failure(
                stream_tokens(result->Err_0),
                rendered,
                attr,
                empty,
                site,
            ),
{
    let empty = input.is_empty();
    match parsed {
        Ok(value) => Ok(value),
        Err(error) => {
            let rendered = error.into_compile_error();
            let tokens = parse_failure(rendered, attr, empty);
            proof {
                let site = choose|site: Span|
                    is_failure(stream_tokens(tokens), stream_tokens(rendered), attr, empty, site);
                let result: Result<T, TokenStream> = Err(tokens);
                assert(is_failure(
                    stream_tokens(result->Err_0),
                    stream_tokens(rendered),
                    attr,
                    empty,
                    site,
                ));
            }
            Err(tokens)
        },
    }
}

/// What is handed back where all inputs were parsed: how the
/// implementation's result splits once its output, or its error, was turned
/// into tokens; what the emitter holds; and the dummy.
pub type Transparent<Output> = (Output, TokenStream, TokenStream);

/// The dummy that a driver starts with: the given tokens, or nothing.
pub open spec fn given_dummy(dummy: Option<TokenStream>) -> Seq<Token> {
    match dummy {
        Some(tokens) => stream_tokens(tokens),
        None => Seq::empty(),
    }
}

/// Drives a function-like macro whose input was parsed before.
///
/// Where the input could not be parsed, the result is the dummy and then
/// the tokens that stand for the input, and `body` is not called. Else
/// `body` gets the input, the dummy and a fresh emitter, and the result
/// holds what it returned, the tokens of what the emitter holds, and the
/// dummy.
pub fn function_transparent<Input, Output, Body: FnOnce(Input, &mut TokenStream, &mut Emitter) -> Output>(
    input: Result<Input, TokenStream>,
    dummy: Option<TokenStream>,
    body: Body,
) -> (result: Result<Transparent<Output>, TokenStream>)
    requires
        forall|value: Input, dummy_ref: &mut TokenStream, emitter: &mut Emitter|
            input == Ok::<Input, TokenStream>(value) && stream_tokens(*dummy_ref) == given_dummy(
                dummy,
            ) && emitter@.len() == 0 ==> call_requires(body, (value, dummy_ref, emitter)),
    ensures
        input is Err ==> result is Err && stream_tokens(result->Err_0) == given_dummy(dummy)
            + stream_tokens(input->Err_0),
        input is Ok ==> result is Ok && exists|dummy_ref: &mut TokenStream, emitter: &mut Emitter|
            stream_tokens(*dummy_ref) == given_dummy(dummy) && emitter@.len() == 0
                && #[trigger] call_ensures(
                body,
                (input->Ok_0, dummy_ref, emitter),
                result->Ok_0.0,
            ) && stream_tokens(result->Ok_0.2) == stream_tokens(*final(dummy_ref))
                && stream_tokens(result->Ok_0.1) == concat(final(emitter)@),
{
    let ghost old_input = input;
    let mut dummy = match dummy {
        Some(tokens) => tokens,
        None => TokenStream::new(),
    };
    let input = match input {
        Ok(input) => input,
        Err(tokens) => {
            append(&mut dummy, tokens);
            return Err(dummy);
        },
    };
    let ghost value = input;
    let mut emitter = Emitter::new();
    let output = body(input, &mut dummy, &mut emitter);
    let mut tokens = TokenStream::new();
    emitter.to_tokens(&mut tokens);
    proof {
        let result: Result<Transparent<Output>, TokenStream> = Ok((output, tokens, dummy));
        assert(result->Ok_0.0 == output && result->Ok_0.1 == tokens && result->Ok_0.2 == dummy);
        assert(old_input->Ok_0 == value);
        assert(stream_tokens(tokens) =~= concat(emitter@));
    }
    Ok((output, tokens, dummy))
}

/// Drives a derive macro whose item was parsed before.
///
/// Where the item could not be parsed, the result holds the tokens that
/// stand for it, and `body` is not called. Else `body` gets the item, an
/// empty dummy and a fresh emitter, and the result holds what it returned,
/// the tokens of what the emitter holds, and the dummy.
pub fn derive_transparent<Item, Output, Body: FnOnce(Item, &mut TokenStream, &mut Emitter) -> Output>(
    item: Result<Item, TokenStream>,
    body: Body,
) -> (result: Result<Transparent<Output>, TokenStream>)
    requires
        forall|value: Item, dummy_ref: &mut TokenStream, emitter: &mut Emitter|
            item == Ok::<Item, TokenStream>(value) && stream_tokens(*dummy_ref).len() == 0
                && emitter@.len() == 0 ==> call_requires(body, (value, dummy_ref, emitter)),
    ensures
        item is Err ==> result is Err && stream_tokens(result->Err_0) == stream_tokens(
            item->Err_0,
        ),
        item is Ok ==> result is Ok && exists|dummy_ref: &mut TokenStream, emitter: &mut Emitter|
            stream_tokens(*dummy_ref).len() == 0 && emitter@.len() == 0 && #[trigger] call_ensures(
                body,
                (item->Ok_0, dummy_ref, emitter),
                result->Ok_0.0,
            ) && stream_tokens(result->Ok_0.2) == stream_tokens(*final(dummy_ref))
                && stream_tokens(result->Ok_0.1) == concat(final(emitter)@),
{
    let ghost old_item = item;
    let mut dummy = TokenStream::new();
    let item = match item {
        Ok(item) => item,
        Err(tokens) => {
            append(&mut dummy, tokens);
            return Err(dummy);
        },
    };
    let ghost value = item;
    let mut emitter = Emitter::new();
    let output = body(item, &mut dummy, &mut emitter);
    let mut tokens = TokenStream::new();
    emitter.to_tokens(&mut tokens);
    proof {
        let result: Result<Transparent<Output>, TokenStream> = Ok((output, tokens, dummy));
        assert(result->Ok_0.0 == output && result->Ok_0.1 == tokens && result->Ok_0.2 == dummy);
        assert(old_item->Ok_0 == value);
        assert(stream_tokens(tokens) =~= concat(emitter@));
    }
    Ok((output, tokens, dummy))
}

/// Drives an attribute macro whose arguments and item were parsed before.
///
/// Where the arguments could not be parsed, or else the item, the result
/// is the dummy and then the tokens that stand for that input, and `body` is
/// not called. Else `body` gets both, the dummy and a fresh emitter, and the
/// result holds what it returned, the tokens of what the emitter holds, and
/// the dummy.
pub fn attribute_transparent<
    Input,
    Item,
    Output,
    Body: FnOnce(Input, Item, &mut TokenStream, &mut Emitter) -> Output,
>(
    input: Result<Input, TokenStream>,
    item: Result<Item, TokenStream>,
    dummy: Option<TokenStream>,
    body: Body,
) -> (result: Result<Transparent<Output>, TokenStream>)
    requires
        forall|arguments: Input, value: Item, dummy_ref: &mut TokenStream, emitter: &mut Emitter|
            input == Ok::<Input, TokenStream>(arguments) && item == Ok::<Item, TokenStream>(value)
                && stream_tokens(*dummy_ref) == given_dummy(dummy) && emitter@.len() == 0
                ==> call_requires(body, (arguments, value, dummy_ref, emitter)),
    ensures
        input is Err ==> result is Err && stream_tokens(result->Err_0) == given_dummy(dummy)
            + stream_tokens(input->Err_0),
        input is Ok && item is Err ==> result is Err && stream_tokens(result->Err_0)
            == given_dummy(dummy) + stream_tokens(item->Err_0),
        input is Ok && item is Ok ==> result is Ok && exists|
            dummy_ref: &mut TokenStream,
            emitter: &mut Emitter,
        |
            stream_tokens(*dummy_ref) == given_dummy(dummy) && emitter@.len() == 0
                && #[trigger] call_ensures(
                body,
                (input->Ok_0, item->Ok_0, dummy_ref, emitter),
                result->Ok_0.0,
            ) && stream_tokens(result->Ok_0.2) == stream_tokens(*final(dummy_ref))
                && stream_tokens(result->Ok_0.1) == concat(final(emitter)@),
{
    let ghost old_input = input;
    let ghost old_item = item;
    let mut dummy = match dummy {
        Some(tokens) => tokens,
        None => TokenStream::new(),
    };
    let input = match input {
        Ok(input) => input,
        Err(tokens) => {
            append(&mut dummy, tokens);
            return Err(dummy);
        },
    };
    let item = match item {
        Ok(item) => item,
        Err(tokens) => {
            append(&mut dummy, tokens);
            return Err(dummy);
        },
    };
    let ghost arguments = input;
    let ghost value = item;
    let mut emitter = Emitter::new();
    let output = body(input, item, &mut dummy, &mut emitter);
    let mut tokens = TokenStream::new();
    emitter.to_tokens(&mut tokens);
    proof {
        let result: Result<Transparent<Output>, TokenStream> = Ok((output, tokens, dummy));
        assert(result->Ok_0.0 == output && result->Ok_0.1 == tokens && result->Ok_0.2 == dummy);
        assert(old_input->Ok_0 == arguments && old_item->Ok_0 == value);
        assert(stream_tokens(tokens) =~= concat(emitter@));
    }
    Ok((output, tokens, dummy))
}

/// What a macro hands to the compiler at the end: the tokens that stand
/// for an input that could not be parsed; or the output; or the dummy and
/// then the error. Behind an output, and behind an error, comes what the
/// emitter held.
pub open spec fn expansion(
    driven: Result<(Result<Seq<Token>, Seq<Token>>, Seq<Token>, Seq<Token>), Seq<Token>>,
) -> Seq<Token> {
    match driven {
        Err(failure) => failure,
        Ok((Ok(output), emitted, _)) => output + emitted,
        Ok((Err(error), emitted, dummy)) => dummy + error + emitted,
    }
}

/// Puts together what a macro hands to the compiler, from what its driver
/// returned. The implementation's output, or its error, comes as the tokens
/// it was turned into.
pub fn expand(driven: Result<Transparent<Result<TokenStream, TokenStream>>, TokenStream>) -> (tokens:
    TokenStream)
    ensures
        stream_tokens(tokens) == expansion(
            match driven {
                Err(failure) => Err(stream_tokens(failure)),
                Ok((Ok(output), emitted, dummy)) => Ok(
                    (Ok(stream_tokens(output)), stream_tokens(emitted), stream_tokens(dummy)),
                ),
                Ok((Err(error), emitted, dummy)) => Ok(
                    (Err(stream_tokens(error)), stream_tokens(emitted), stream_tokens(dummy)),
                ),
            },
        ),
{
    match driven {
        Err(tokens) => tokens,
        Ok((output, emitted, dummy)) => {
            match output {
                Err(error) => {
                    let mut tokens = dummy;
                    append(&mut tokens, error);
                    append(&mut tokens, emitted);
                    tokens
                },
                Ok(output) => {
                    let mut tokens = output;
                    append(&mut tokens, emitted);
                    tokens
                },
            }
        },
    }
}

/// On the path of the macros the emitter comes as the tokens it held, and
/// the error as the tokens it was turned into. What is handed to the
/// compiler is what a driver for tokens returns for the same outcome.
pub proof fn lemma_expansion_is_assembled(
    output: Seq<Token>,
    error: Seq<Token>,
    dummy: Seq<Token>,
    emitted: Seq<Seq<Token>>,
)
    ensures
        expansion(Ok((Ok(output), concat(emitted), dummy))) == assembled(
            Ok(output),
            dummy,
            emitted,
        ),
        expansion(Ok((Err(error), concat(emitted), dummy))) == assembled(
            Err(seq![error]),
            dummy,
            emitted,
        ),
{
    assert(seq![error].drop_last() == Seq::<Seq<Token>>::empty());
    assert(concat(seq![error]) =~= error) by {
        reveal_with_fuel(concat, 2);
    }
}

/// Whether `tokens` are `dummy` and, behind it, the tokens that stand for an
/// input that could not be parsed.
pub open spec fn is_failure_behind(
    tokens: Seq<Token>,
    dummy: Seq<Token>,
    rendered: Seq<Token>,
    attr: bool,
    empty: bool,
    site: Span,
) -> bool {
    tokens == dummy + failure_tokens(rendered, attr, empty, site)
}

/// Whether `tokens` are what a driver returns for an input that `syn` could
/// not parse: the dummy, then a report of the messages of `error`, then, for
/// the arguments of an attribute that were empty, the note.
pub open spec fn fails_with(
    tokens: Seq<Token>,
    dummy: Seq<Token>,
    error: SynError,
    attr: bool,
    empty: bool,
) -> bool {
    exists|rendered: Seq<Token>, site: Span|
        reports(syn_messages(error), rendered) && #[trigger] is_failure_behind(
            tokens,
            dummy,
            rendered,
            attr,
            empty,
            site,
        )
}

/// Ends a run at an input that could not be parsed: the dummy, and behind
/// it the tokens that stand for the input.
fn fail(dummy: TokenStream, input: &TokenStream, error: SynError, attr: bool) -> (tokens:
    TokenStream)
    ensures
        fails_with(
            stream_tokens(tokens),
            stream_tokens(dummy),
            error,
            attr,
            stream_tokens(*input).len() == 0,
        ),
{
    let empty = input.is_empty();
    let rendered = error.into_compile_error();
    let failure = parse_failure(rendered, attr, empty);
    let mut tokens = dummy;
    append(&mut tokens, failure);
    proof {
        let site = choose|site: Span|
            is_failure(stream_tokens(failure), stream_tokens(rendered), attr, empty, site);
        assert(is_failure_behind(
            stream_tokens(tokens),
            stream_tokens(dummy),
            stream_tokens(rendered),
            attr,
            empty,
            site,
        ));
    }
    tokens
}

/// Drives a function-like macro whose input `syn` was asked to parse.
///
/// `input` holds the tokens of the input and `parsed` what parsing them
/// gave. Where they could not be parsed, the result is the dummy and then
/// the report of the error, and `body` is not called. Else `body` gets the
/// parsed input, the dummy and a fresh emitter, and the result is put
/// together as [`assembled`] says. With `input_as_dummy` the dummy starts as
/// a copy of `input`, else empty.
pub fn function_parsed<
    Input,
    Output: MacroOutput,
    Body: FnOnce(Input, &mut TokenStream, &mut Emitter) -> Output,
>(input: TokenStream, parsed: Result<Input, SynError>, input_as_dummy: bool, body: Body) -> (tokens:
    TokenStream)
    requires
        forall|dummy: &mut TokenStream, emitter: &mut Emitter|
            parsed is Ok && stream_tokens(*dummy) == seed(stream_tokens(input), input_as_dummy)
                && emitter@.len() == 0 ==> call_requires(body, (parsed->Ok_0, dummy, emitter)),
    ensures
        parsed is Err ==> fails_with(
            stream_tokens(tokens),
            seed(stream_tokens(input), input_as_dummy),
            parsed->Err_0,
            false,
            stream_tokens(input).len() == 0,
        ),
        parsed is Ok ==> exists|
            dummy: &mut TokenStream,
            emitter: &mut Emitter,
            output: Output,
            outcome: Outcome,
        |
            stream_tokens(*dummy) == seed(stream_tokens(input), input_as_dummy) && emitter@.len()
                == 0 && #[trigger] call_ensures(body, (parsed->Ok_0, dummy, emitter), output)
                && #[trigger] output.converts_to(outcome) && stream_tokens(tokens) == assembled(
                outcome,
                stream_tokens(*final(dummy)),
                final(emitter)@,
            ),
{
    let mut dummy = if input_as_dummy {
        input.clone()
    } else {
        TokenStream::new()
    };
    let ghost given = parsed;
    let value = match parsed {
        Ok(value) => value,
        Err(error) => {
            return fail(dummy, &input, error, false);
        },
    };
    let mut emitter = Emitter::new();
    let output = body(value, &mut dummy, &mut emitter);
    let result = output.convert();
    proof {
        assert(given->Ok_0 == value);
        assert(output.converts_to(outcome_of(result)));
    }
    assemble(result, dummy, &emitter)
}

/// Drives a derive macro whose item `syn` was asked to parse.
///
/// `item` holds the tokens of the item and `parsed` what parsing them gave.
/// Where they could not be parsed, the result is the report of the error,
/// and `body` is not called. Else `body` gets the parsed item, an empty dummy
/// and a fresh emitter, and the result is put together as [`assembled`]
/// says.
pub fn derive_parsed<
    Item,
    Output: MacroOutput,
    Body: FnOnce(Item, &mut TokenStream, &mut Emitter) -> Output,
>(item: TokenStream, parsed: Result<Item, SynError>, body: Body) -> (tokens: TokenStream)
    requires
        forall|dummy: &mut TokenStream, emitter: &mut Emitter|
            parsed is Ok && stream_tokens(*dummy).len() == 0 && emitter@.len() == 0
                ==> call_requires(body, (parsed->Ok_0, dummy, emitter)),
    ensures
        parsed is Err ==> fails_with(
            stream_tokens(tokens),
            Seq::empty(),
            parsed->Err_0,
            false,
            stream_tokens(item).len() == 0,
        ),
        parsed is Ok ==> exists|
            dummy: &mut TokenStream,
            emitter: &mut Emitter,
            output: Output,
            outcome: Outcome,
        |
            stream_tokens(*dummy).len() == 0 && emitter@.len() == 0 && #[trigger] call_ensures(
                body,
                (parsed->Ok_0, dummy, emitter),
                output,
            ) && #[trigger] output.converts_to(outcome) && stream_tokens(tokens) == assembled(
                outcome,
                stream_tokens(*final(dummy)),
                final(emitter)@,
            ),
{
    let mut dummy = TokenStream::new();
    let ghost given = parsed;
    let value = match parsed {
        Ok(value) => value,
        Err(error) => {
            return fail(dummy, &item, error, false);
        },
    };
    let mut emitter = Emitter::new();
    let output = body(value, &mut dummy, &mut emitter);
    let result = output.convert();
    proof {
        assert(given->Ok_0 == value);
        assert(output.converts_to(outcome_of(result)));
    }
    assemble(result, dummy, &emitter)
}

/// Drives an attribute macro whose arguments and item `syn` was asked to
/// parse.
///
/// `input` and `item` hold the tokens of the arguments and of the item,
/// `parsed_input` and `parsed_item` what parsing them gave. With
/// `item_as_dummy` the dummy starts as a copy of `item`, else empty.
///
/// Where the arguments could not be parsed, the result is the dummy, then
/// the report of that error, then, if there were no arguments at all, the
/// note that says so. Else, where the item could not be parsed, the result
/// is the dummy and then the report of that error. In both cases `body` is
/// not called and only the first error is reported. Else `body` gets both,
/// the dummy and a fresh emitter, and the result is put together as
/// [`assembled`] says.
pub fn attribute_parsed<
    Input,
    Item,
    Output: MacroOutput,
    Body: FnOnce(Input, Item, &mut TokenStream, &mut Emitter) -> Output,
>(
    input: TokenStream,
    parsed_input: Result<Input, SynError>,
    item: TokenStream,
    parsed_item: Result<Item, SynError>,
    item_as_dummy: bool,
    body: Body,
) -> (tokens: TokenStream)
    requires
        forall|dummy: &mut TokenStream, emitter: &mut Emitter|
            parsed_input is Ok && parsed_item is Ok && stream_tokens(*dummy) == seed(
                stream_tokens(item),
                item_as_dummy,
            ) && emitter@.len() == 0 ==> call_requires(
                body,
                (parsed_input->Ok_0, parsed_item->Ok_0, dummy, emitter),
            ),
    ensures
        parsed_input is Err ==> fails_with(
            stream_tokens(tokens),
            seed(stream_tokens(item), item_as_dummy),
            parsed_input->Err_0,
            true,
            stream_tokens(input).len() == 0,
        ),
        parsed_input is Ok && parsed_item is Err ==> fails_with(
            stream_tokens(tokens),
            seed(stream_tokens(item), item_as_dummy),
            parsed_item->Err_0,
            false,
            stream_tokens(item).len() == 0,
        ),
        parsed_input is Ok && parsed_item is Ok ==> exists|
            dummy: &mut TokenStream,
            emitter: &mut Emitter,
            output: Output,
            outcome: Outcome,
        |
            stream_tokens(*dummy) == seed(stream_tokens(item), item_as_dummy) && emitter@.len()
                == 0 && #[trigger] call_ensures(
                body,
                (parsed_input->Ok_0, parsed_item->Ok_0, dummy, emitter),
                output,
            ) && #[trigger] output.converts_to(outcome) && stream_tokens(tokens) == assembled(
                outcome,
                stream_tokens(*final(dummy)),
                final(emitter)@,
            ),
{
    let mut dummy = if item_as_dummy {
        item.clone()
    } else {
        TokenStream::new()
    };
    let ghost given_input = parsed_input;
    let ghost given_item = parsed_item;
    let arguments = match parsed_input {
        Ok(value) => value,
        Err(error) => {
            return fail(dummy, &input, error, true);
        },
    };
    let value = match parsed_item {
        Ok(value) => value,
        Err(error) => {
            return fail(dummy, &item, error, false);
        },
    };
    let mut emitter = Emitter::new();
    let output = body(arguments, value, &mut dummy, &mut emitter);
    let result = output.convert();
    proof {
        assert(given_input->Ok_0 == arguments && given_item->Ok_0 == value);
        assert(output.converts_to(outcome_of(result)));
    }
    assemble(result, dummy, &emitter)
}

/// Where the arguments of an attribute could not be parsed, the result of
/// the driver starts with the dummy, goes on with at least one invocation of
/// `compile_error!` for the error, and ends with the note exactly if there
/// were no arguments.
pub proof fn lemma_failed_arguments(
    tokens: Seq<Token>,
    dummy: Seq<Token>,
    error: SynError,
    empty: bool,
)
    requires
        fails_with(tokens, dummy, error, true, empty),
    ensures
        exists|rendered: Seq<Token>, site: Span|
            #![trigger is_failure_behind(tokens, dummy, rendered, true, empty, site)]
            reports(syn_messages(error), rendered) && rendered.len() >= 8 && tokens == dummy
                + rendered + (if empty {
                compile_error_tokens(attribute_note(), site, site)
            } else {
                Seq::empty()
            }),
        tokens.len() >= dummy.len() + 8,
        tokens.subrange(0, dummy.len() as int) == dummy,
{
    let (rendered, site) = choose|rendered: Seq<Token>, site: Span|
        reports(syn_messages(error), rendered) && #[trigger] is_failure_behind(
            tokens,
            dummy,
            rendered,
            true,
            empty,
            site,
        );
    crate::error::lemma_report_is_not_empty(syn_messages(error), rendered);
    assert(tokens =~= dummy + rendered + (if empty {
        compile_error_tokens(attribute_note(), site, site)
    } else {
        Seq::empty()
    }));
    assert(tokens.subrange(0, dummy.len() as int) =~= dummy);
}

} // verus!
