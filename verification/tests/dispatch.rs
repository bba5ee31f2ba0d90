use manyhow::dispatch::{
    call_with_dummy, call_with_dummy_and_emitter, call_with_emitter, call_with_emitter_and_dummy,
    call_with_inputs,
};
use manyhow::{Emitter, ErrorMessage};
use proc_macro2::TokenStream;

fn tokens(source: &str) -> TokenStream {
    source.parse().unwrap()
}

fn state() -> (TokenStream, Emitter) {
    let mut emitter = Emitter::new();
    emitter.emit(ErrorMessage::call_site("before"));
    (tokens("dummy"), emitter)
}

fn emitted(emitter: &mut Emitter) -> String {
    let mut stream = TokenStream::new();
    emitter.to_tokens(&mut stream);
    stream.to_string()
}

fn only_before() -> String {
    tokens("::core::compile_error! { \"before\" }").to_string()
}

fn before_and_more() -> String {
    tokens("::core::compile_error! { \"before\" } ::core::compile_error! { \"more\" }").to_string()
}

#[test]
fn implementation_with_dummy_and_emitter() {
    let (mut dummy, mut emitter) = state();
    let output = call_with_dummy_and_emitter(
        |input: u8, dummy: &mut TokenStream, emitter: &mut Emitter| {
            dummy.extend(tokens("changed"));
            emitter.emit(ErrorMessage::call_site("more"));
            input + 1
        },
        1,
        &mut dummy,
        &mut emitter,
    );
    assert_eq!(output, 2);
    assert_eq!(dummy.to_string(), "dummy changed");
    assert_eq!(emitted(&mut emitter), before_and_more());
}

#[test]
fn implementation_with_emitter_and_dummy() {
    let (mut dummy, mut emitter) = state();
    let output = call_with_emitter_and_dummy(
        |input: u8, emitter: &mut Emitter, dummy: &mut TokenStream| {
            dummy.extend(tokens("changed"));
            emitter.emit(ErrorMessage::call_site("more"));
            input + 1
        },
        1,
        &mut dummy,
        &mut emitter,
    );
    assert_eq!(output, 2);
    assert_eq!(dummy.to_string(), "dummy changed");
    assert_eq!(emitted(&mut emitter), before_and_more());
}

#[test]
fn implementation_with_dummy_alone() {
    let (mut dummy, mut emitter) = state();
    let output = call_with_dummy(
        |input: u8, dummy: &mut TokenStream| {
            *dummy = tokens("replaced");
            input + 1
        },
        1,
        &mut dummy,
        &mut emitter,
    );
    assert_eq!(output, 2);
    assert_eq!(dummy.to_string(), "replaced");
    assert_eq!(emitted(&mut emitter), only_before());
}

#[test]
fn implementation_with_emitter_alone() {
    let (mut dummy, mut emitter) = state();
    let output = call_with_emitter(
        |input: u8, emitter: &mut Emitter| {
            emitter.emit(ErrorMessage::call_site("more"));
            input + 1
        },
        1,
        &mut dummy,
        &mut emitter,
    );
    assert_eq!(output, 2);
    assert_eq!(dummy.to_string(), "dummy");
    assert_eq!(emitted(&mut emitter), before_and_more());
}

#[test]
fn implementation_with_inputs_alone() {
    let (mut dummy, mut emitter) = state();
    let output = call_with_inputs(
        |(input, item): (u8, u8)| input + item,
        (1, 2),
        &mut dummy,
        &mut emitter,
    );
    assert_eq!(output, 3);
    assert_eq!(dummy.to_string(), "dummy");
    assert_eq!(emitted(&mut emitter), only_before());
}
