use manyhow::{Emitter, Error, ErrorMessage, JoinToTokensError, ResultExt, SilentError, ToTokensError};
use proc_macro2::{Span, TokenStream};

fn tokens(source: &str) -> TokenStream {
    source.parse().unwrap()
}

fn reported(text: &str) -> String {
    let mut source = String::from("::core::compile_error! { ");
    source.push_str(&format!("{:?}", text));
    source.push_str(" }");
    tokens(&source).to_string()
}

#[test]
fn error_error_message() {
    let error_message = ErrorMessage::new(Span::call_site(), "test message")
        .help("try to call your dog")
        .note("you could use the banana phone")
        .warning("be careful")
        .error("you cannot reach them");
    assert_eq!(
        error_message.to_token_stream().to_string(),
        tokens(
            "::core::compile_error! { \"test message\\n\\n  = help: try to call your dog\\n  = note: you could use the banana phone\\n  = warning: be careful\\n  = error: you cannot reach them\\n\" }"
        )
        .to_string()
    );
}

#[test]
fn macro_rules_error_message() {
    assert_eq!(ErrorMessage::call_site("test").render(), "test");
    assert_eq!(ErrorMessage::call_site("test").render(), "test");
    assert_eq!(
        ErrorMessage::call_site("test")
            .attachment("error", &format!("hello {} {a}", 1 + 4, a = ""))
            .render(),
        "test\n\n  = error: hello 5 \n"
    );
    assert_eq!(
        ErrorMessage::call_site("test")
            .attachment("error", &format!("hello {} {a}", 1 + 4, a = ""))
            .render(),
        "test\n\n  = error: hello 5 \n"
    );
    assert_eq!(
        ErrorMessage::call_site("test")
            .attachment("error", &format!("hello {} {a}", 1 + 4, a = ""))
            .attachment("hint", "a hint")
            .render(),
        "test\n\n  = error: hello 5 \n  = hint: a hint\n"
    );
}

#[test]
fn bail() {
    fn format() -> Result<(), ErrorMessage> {
        Err(ErrorMessage::call_site("format"))
    }
    fn format_one() -> Result<(), ErrorMessage> {
        Err(ErrorMessage::call_site(&format!("format {}", 1)))
    }
    fn format_named() -> Result<(), ErrorMessage> {
        let b = "ho";
        Err(ErrorMessage::call_site(&format!("format {} {a} {} {b}", 1, 2, a = 4)))
    }
    assert_eq!(format().err().unwrap().render(), "format");
    assert_eq!(format_one().err().unwrap().render(), "format 1");
    assert_eq!(format_named().err().unwrap().render(), "format 1 4 2 ho");
}

#[test]
fn emit() {
    let mut emitter = Emitter::new();
    emitter.extend(vec![ErrorMessage::call_site("an error message").attachment("error", "with attachments")]);
    let span = Span::call_site();
    emitter.extend(vec![ErrorMessage::new(span, "error message")]);
    let error = syn::Error::new(Span::call_site(), "an error");
    emitter.extend(vec![error]);
    assert!(!emitter.is_empty());
}

#[test]
fn render_trims_the_message() {
    assert_eq!(ErrorMessage::call_site("message \t\n ").render(), "message");
    assert_eq!(ErrorMessage::call_site("  message").render(), "  message");
    assert_eq!(ErrorMessage::call_site("").render(), "");
    assert_eq!(ErrorMessage::call_site(" \n").note("n").render(), "\n\n  = note: n\n");
}

#[test]
fn render_aligns_later_lines() {
    assert_eq!(
        ErrorMessage::call_site("message").help("first\nsecond\nthird").render(),
        "message\n\n  = help: first\n        second\n        third\n"
    );
    assert_eq!(
        ErrorMessage::call_site("message").attachment("a", "x\ny").render(),
        "message\n\n  = a: x\n     y\n"
    );
}

#[test]
fn render_splits_lines_as_text_does() {
    assert_eq!(
        ErrorMessage::call_site("m").note("one\r\ntwo\n").render(),
        "m\n\n  = note: one\n        two\n"
    );
    assert_eq!(
        ErrorMessage::call_site("m").note("one\n\ntwo").render(),
        "m\n\n  = note: one\n        \n        two\n"
    );
    assert_eq!(ErrorMessage::call_site("m").note("one\r").render(), "m\n\n  = note: one\r\n");
    assert_eq!(ErrorMessage::call_site("m").note("\n").render(), "m\n\n  = note: \n");
}

#[test]
fn render_of_an_empty_attachment() {
    assert_eq!(ErrorMessage::call_site("m").note("").render(), "m\n\n  = note: \n");
}

#[test]
fn render_counts_the_label_in_bytes() {
    assert_eq!(
        ErrorMessage::call_site("m").attachment("é", "a\nb").render(),
        "m\n\n  = é: a\n      b\n"
    );
}

#[test]
fn render_shows_attachments_in_order() {
    let text = ErrorMessage::call_site("m")
        .help("h1\nh2")
        .note("n1")
        .warning("w1\nw2")
        .render();
    let help = text.find("\n  = help: h1").unwrap();
    let note = text.find("\n  = note: n1").unwrap();
    let warning = text.find("\n  = warning: w1").unwrap();
    assert!(help < note && note < warning);
}

#[test]
fn labels_of_the_short_forms() {
    assert_eq!(ErrorMessage::call_site("m").error("x").render(), "m\n\n  = error: x\n");
    assert_eq!(ErrorMessage::call_site("m").warning("x").render(), "m\n\n  = warning: x\n");
    assert_eq!(ErrorMessage::call_site("m").note("x").render(), "m\n\n  = note: x\n");
    assert_eq!(ErrorMessage::call_site("m").help("x").render(), "m\n\n  = help: x\n");
}

#[test]
fn message_renders_as_compile_error() {
    let message = ErrorMessage::call_site("a \"quoted\" message");
    assert_eq!(message.to_token_stream().to_string(), reported("a \"quoted\" message"));
    let mut stream = tokens("struct X;");
    message.to_tokens(&mut stream);
    assert_eq!(
        stream.to_string(),
        tokens("struct X; ::core::compile_error! { \"a \\\"quoted\\\" message\" }").to_string()
    );
}

#[test]
fn spanned_message_renders_like_any_other() {
    let message = ErrorMessage::spanned(&tokens("a + b"), "wrong sum");
    assert_eq!(message.into_token_stream().to_string(), reported("wrong sum"));
    let message = ErrorMessage::spanned(&TokenStream::new(), "nothing");
    assert_eq!(message.into_token_stream().to_string(), reported("nothing"));
}

#[test]
fn silent_error_renders_nothing() {
    assert!(SilentError.to_token_stream().is_empty());
    let error: Error = SilentError.into();
    assert!(error.to_token_stream().is_empty());
    assert!(Error::from(SilentError).to_token_stream().is_empty());
}

#[test]
fn collection_renders_in_order() {
    let mut error = Error::from(SilentError);
    error.extend(vec![ErrorMessage::call_site("d1"), ErrorMessage::call_site("d2")]);
    error.push(ErrorMessage::call_site("d3"));
    let mut expected = reported("d1");
    expected.push(' ');
    expected.push_str(&reported("d2"));
    expected.push(' ');
    expected.push_str(&reported("d3"));
    assert_eq!(error.to_token_stream().to_string(), tokens(&expected).to_string());
}

#[test]
fn collection_from_a_message() {
    let error: Error = ErrorMessage::call_site("one").into();
    assert_eq!(error.to_token_stream().to_string(), reported("one"));
    let nested = Error::from(error);
    assert_eq!(nested.to_token_stream().to_string(), reported("one"));
}

#[test]
fn collection_from_foreign_errors() {
    let error: Error = syn::Error::new(Span::call_site(), "from syn").into();
    assert_eq!(error.to_token_stream().to_string(), reported("from syn"));
    let error: Error = darling_core::Error::custom("from darling").into();
    assert!(error.to_token_stream().to_string().contains("from darling"));
}

#[test]
fn foreign_errors_render_themselves() {
    let error = syn::Error::new(Span::call_site(), "from syn");
    assert_eq!(error.to_token_stream().to_string(), reported("from syn"));
    let mut stream = tokens("x");
    error.to_tokens(&mut stream);
    assert_eq!(stream.to_string(), tokens("x ::core::compile_error! { \"from syn\" }").to_string());
    let mut emitter = Emitter::new();
    emitter.emit(error);
    emitter.emit(darling_core::Error::custom("from darling"));
    let rendered = emitter.into_result().err().unwrap().into_token_stream().to_string();
    assert!(rendered.starts_with(&reported("from syn")));
    assert!(rendered.contains("from darling"));
    let mut collection = Error::from(syn::Error::new(Span::call_site(), "one"));
    collection.push(darling_core::Error::custom("two"));
    let rendered = collection.to_token_stream().to_string();
    assert!(rendered.starts_with(&reported("one")));
    assert!(rendered.contains("two"));
    let darling = darling_core::Error::custom("twice");
    assert_eq!(darling.to_token_stream().to_string(), darling.into_token_stream().to_string());
}

#[test]
fn message_into_a_syn_error() {
    let error: syn::Error = ErrorMessage::call_site("text").note("more").into();
    assert_eq!(error.to_string(), "text\n\n  = note: more\n");
}

#[test]
fn join_keeps_both() {
    let error = ErrorMessage::call_site("test").join(ErrorMessage::call_site("another"));
    let mut expected = reported("test");
    expected.push(' ');
    expected.push_str(&reported("another"));
    assert_eq!(error.to_token_stream().to_string(), tokens(&expected).to_string());
}

#[test]
fn emitter_drains_once() {
    let mut emitter = Emitter::new();
    assert!(emitter.is_empty());
    assert!(emitter.into_result().is_ok());
    emitter.emit(ErrorMessage::call_site("d1"));
    emitter.emit(ErrorMessage::call_site("d2"));
    assert!(!emitter.is_empty());
    let error = emitter.into_result().err().unwrap();
    let mut expected = reported("d1");
    expected.push(' ');
    expected.push_str(&reported("d2"));
    assert_eq!(error.to_token_stream().to_string(), tokens(&expected).to_string());
    assert!(emitter.is_empty());
    assert!(emitter.into_result().is_ok());
}

#[test]
fn emitter_renders_what_it_holds() {
    let mut emitter = Emitter::default();
    emitter.emit(ErrorMessage::call_site("kept"));
    let mut stream = tokens("fn f() {}");
    emitter.to_tokens(&mut stream);
    assert_eq!(
        stream.to_string(),
        tokens("fn f() {} ::core::compile_error! { \"kept\" }").to_string()
    );
    emitter.clear();
    assert!(emitter.is_empty());
    let mut stream = tokens("fn f() {}");
    emitter.to_tokens(&mut stream);
    assert_eq!(stream.to_string(), tokens("fn f() {}").to_string());
}

#[test]
fn context_adds_a_second_error() {
    let failed: Result<(), ErrorMessage> = Err(ErrorMessage::call_site("first"));
    let error = failed.context(ErrorMessage::call_site("second")).err().unwrap();
    let mut expected = reported("first");
    expected.push(' ');
    expected.push_str(&reported("second"));
    assert_eq!(error.to_token_stream().to_string(), tokens(&expected).to_string());
    let fine: Result<u8, ErrorMessage> = Ok(7);
    assert_eq!(fine.context(SilentError).ok(), Some(7));
    let fine: Result<u8, ErrorMessage> = Ok(8);
    assert_eq!(fine.context_with(|| -> SilentError { unreachable!() }).ok(), Some(8));
    let failed: Result<(), ErrorMessage> = Err(ErrorMessage::call_site("first"));
    let error = failed.context_with(|| ErrorMessage::call_site("late")).err().unwrap();
    assert!(error.to_token_stream().to_string().contains("late"));
}

#[test]
fn attachments_on_a_result() {
    let failed: Result<(), ErrorMessage> = Err(ErrorMessage::call_site("m"));
    let text = failed
        .attachment("hint", "a")
        .error("b")
        .warning("c")
        .note("d")
        .help("e")
        .err()
        .unwrap()
        .render();
    assert_eq!(
        text,
        "m\n\n  = hint: a\n  = error: b\n  = warning: c\n  = note: d\n  = help: e\n"
    );
    let fine: Result<u8, ErrorMessage> = Ok(1);
    assert_eq!(fine.help("unused").ok(), Some(1));
}

fn expected_rendering(msg: &str, attachments: &[(&'static str, String)]) -> String {
    let mut expected = String::from(msg.trim_end());
    if !attachments.is_empty() {
        expected.push_str("\n\n");
    }
    for (label, text) in attachments {
        let mut lines = text.lines();
        expected.push_str(&format!("  = {label}: {}\n", lines.next().unwrap_or("")));
        for line in lines {
            expected.push_str(&format!("    {}{line}\n", " ".repeat(label.len())));
        }
    }
    expected
}

fn texts_up_to(length: usize) -> Vec<String> {
    let alphabet = ['a', '\n', '\r', ' ', '\u{2003}'];
    let mut all = vec![String::new()];
    let mut last = vec![String::new()];
    for _ in 0..length {
        let mut next = Vec::new();
        for text in &last {
            for ch in alphabet {
                let mut longer = text.clone();
                longer.push(ch);
                next.push(longer);
            }
        }
        all.extend(next.iter().cloned());
        last = next;
    }
    all
}

#[test]
fn render_trims_and_splits_as_text_does() {
    for text in texts_up_to(4) {
        let attachments = [("note", text.clone()), ("hint", String::from("x\ny"))];
        let rendered = ErrorMessage::call_site(&text)
            .attachment("note", &text)
            .attachment("hint", "x\ny")
            .render();
        assert_eq!(rendered, expected_rendering(&text, &attachments), "for {text:?}");
        assert_eq!(ErrorMessage::call_site(&text).render(), text.trim_end(), "for {text:?}");
    }
}

fn listed_as_white_space(ch: char) -> bool {
    matches!(
        ch,
        '\u{9}'..='\u{d}'
            | ' '
            | '\u{85}'
            | '\u{a0}'
            | '\u{1680}'
            | '\u{2000}'..='\u{200a}'
            | '\u{2028}'
            | '\u{2029}'
            | '\u{202f}'
            | '\u{205f}'
            | '\u{3000}'
    )
}

#[test]
fn every_white_space_character_is_trimmed_and_no_other() {
    let mut trimmed = 0;
    for code in 0..=0x10ffff_u32 {
        if let Some(ch) = char::from_u32(code) {
            let mut chars = vec![ch];
            manyhow::text::trim_end_in_place(&mut chars);
            assert_eq!(chars.is_empty(), listed_as_white_space(ch), "for {ch:?}");
            if chars.is_empty() {
                trimmed += 1;
            }
        }
    }
    assert_eq!(trimmed, 25);
}

#[test]
fn message_into_a_syn_error_keeps_one_message() {
    let error: syn::Error = ErrorMessage::call_site("only").into();
    assert_eq!(error.into_iter().count(), 1);
}
