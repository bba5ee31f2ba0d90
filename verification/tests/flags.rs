use manyhow::macros::{
    check_flags, declared_kind, error, error_help, flags_replace, meaning_of, with_error,
    with_helpful_error, Declared, Fault, Meaning, Param, ProcMacroType, Settings,
};
use proc_macro2::{Span, TokenStream};

fn tokens(source: &str) -> TokenStream {
    source.parse().unwrap()
}

fn text(source: &str) -> String {
    tokens(source).to_string()
}

fn flag(name: &str) -> Param {
    Param { name: name.to_owned(), text: name.to_owned() }
}

fn flags(names: &[&str]) -> Vec<Param> {
    names.iter().map(|name| flag(name)).collect()
}

fn derive_flag() -> Param {
    Param { name: "proc_macro_derive".to_owned(), text: "proc_macro_derive(Trait)".to_owned() }
}

#[test]
fn dummy_flag_of_each_kind() {
    assert_eq!(ProcMacroType::Function.dummy_flag(), "input_as_dummy");
    assert_eq!(ProcMacroType::Derive.dummy_flag(), "");
    assert_eq!(ProcMacroType::Attribute.dummy_flag(), "item_as_dummy");
}

#[test]
fn kinds_by_name() {
    assert_eq!(ProcMacroType::from_name("proc_macro"), Some(ProcMacroType::Function));
    assert_eq!(ProcMacroType::from_name("proc_macro_attribute"), Some(ProcMacroType::Attribute));
    assert_eq!(ProcMacroType::from_name("proc_macro_derive"), Some(ProcMacroType::Derive));
    assert_eq!(ProcMacroType::from_name("proc_macr"), None);
    assert_eq!(ProcMacroType::from_name("proc_macro_"), None);
    assert_eq!(ProcMacroType::from_name(""), None);
    assert_eq!(ProcMacroType::from_name("test"), None);
}

#[test]
fn meaning_of_each_flag() {
    let (function, derive, attribute) =
        (ProcMacroType::Function, ProcMacroType::Derive, ProcMacroType::Attribute);
    for kind in [function, derive, attribute] {
        assert_eq!(meaning_of("impl_fn", kind), Meaning::ImplFn);
        assert_eq!(meaning_of("proc_macro", kind), Meaning::Kind);
        assert_eq!(meaning_of("proc_macro_attribute", kind), Meaning::Kind);
        assert_eq!(meaning_of("proc_macro_derive", kind), Meaning::Kind);
        assert_eq!(meaning_of("other", kind), Meaning::Wrong(Fault::Unknown));
    }
    assert_eq!(meaning_of("input_as_dummy", function), Meaning::AsDummy);
    assert_eq!(meaning_of("item_as_dummy", attribute), Meaning::AsDummy);
    assert_eq!(meaning_of("item_as_dummy", function), Meaning::Wrong(Fault::ItemAsDummyOnFunction));
    assert_eq!(
        meaning_of("input_as_dummy", attribute),
        Meaning::Wrong(Fault::InputAsDummyOnAttribute)
    );
    assert_eq!(meaning_of("input_as_dummy", derive), Meaning::Wrong(Fault::AsDummyOnDerive));
    assert_eq!(meaning_of("item_as_dummy", derive), Meaning::Wrong(Fault::AsDummyOnDerive));
}

#[test]
fn flags_written_again() {
    let given = vec![flag("impl_fn"), derive_flag(), flag("input_as_dummy")];
    assert_eq!(
        flags_replace(&given, 2, Some("item_as_dummy")),
        "(impl_fn, proc_macro_derive(Trait), item_as_dummy)"
    );
    assert_eq!(flags_replace(&given, 0, Some("x")), "(x, proc_macro_derive(Trait), input_as_dummy)");
    assert_eq!(flags_replace(&given, 2, None), "(impl_fn, proc_macro_derive(Trait))");
    assert_eq!(flags_replace(&given, 1, None), "(impl_fn, input_as_dummy)");
    assert_eq!(flags_replace(&given, 0, None), "(proc_macro_derive(Trait), input_as_dummy)");
    assert_eq!(flags_replace(&flags(&["only"]), 0, None), "");
    assert_eq!(flags_replace(&flags(&["only"]), 0, Some("other")), "(other)");
}

#[test]
fn accepted_flags() {
    assert_eq!(
        check_flags(ProcMacroType::Function, &flags(&[])).ok(),
        Some(Settings { as_dummy: false, impl_fn: None })
    );
    assert_eq!(
        check_flags(ProcMacroType::Function, &flags(&["proc_macro", "input_as_dummy"])).ok(),
        Some(Settings { as_dummy: true, impl_fn: None })
    );
    assert_eq!(
        check_flags(ProcMacroType::Attribute, &flags(&["impl_fn", "item_as_dummy", "impl_fn"])).ok(),
        Some(Settings { as_dummy: true, impl_fn: Some(2) })
    );
    assert_eq!(
        check_flags(ProcMacroType::Derive, &vec![derive_flag(), flag("impl_fn")]).ok(),
        Some(Settings { as_dummy: false, impl_fn: Some(1) })
    );
}

#[test]
fn item_as_dummy_on_a_function() {
    let rejection =
        check_flags(ProcMacroType::Function, &flags(&["impl_fn", "item_as_dummy"])).err().unwrap();
    assert_eq!(rejection.index, 1);
    assert_eq!(rejection.fault, Fault::ItemAsDummyOnFunction);
    assert_eq!(
        rejection.message,
        "`item_as_dummy` is only supported with `#[proc_macro_attribute]`"
    );
    assert_eq!(rejection.help, "try `#[manyhow(impl_fn, input_as_dummy)]` instead");
}

#[test]
fn input_as_dummy_on_an_attribute() {
    let rejection =
        check_flags(ProcMacroType::Attribute, &flags(&["input_as_dummy"])).err().unwrap();
    assert_eq!(rejection.index, 0);
    assert_eq!(rejection.fault, Fault::InputAsDummyOnAttribute);
    assert_eq!(rejection.message, "`input_as_dummy` is only supported with `#[proc_macro]`");
    assert_eq!(rejection.help, "try `#[manyhow(item_as_dummy)]` instead");
}

#[test]
fn as_dummy_on_a_derive() {
    let rejection =
        check_flags(ProcMacroType::Derive, &vec![derive_flag(), flag("item_as_dummy")]).err().unwrap();
    assert_eq!(rejection.index, 1);
    assert_eq!(rejection.fault, Fault::AsDummyOnDerive);
    assert_eq!(
        rejection.message,
        "only `#[proc_macro]` and `#[proc_macro_attribute]` support `*_as_dummy` flags"
    );
    assert_eq!(rejection.help, "try `#[manyhow(proc_macro_derive(Trait))]` instead");
    let rejection = check_flags(ProcMacroType::Derive, &flags(&["input_as_dummy"])).err().unwrap();
    assert_eq!(rejection.help, "try `#[manyhow]` instead");
}

#[test]
fn unknown_flag() {
    let rejection =
        check_flags(ProcMacroType::Function, &flags(&["input_as_dummy", "fast"])).err().unwrap();
    assert_eq!(rejection.index, 1);
    assert_eq!(rejection.fault, Fault::Unknown);
    assert_eq!(
        rejection.message,
        "only `proc_macro`, `proc_macro_attribute`, `proc_macro_derive`, `input_as_dummy`, and `impl_fn` are supported"
    );
    assert_eq!(rejection.help, "try `#[manyhow(input_as_dummy)]");
    let rejection = check_flags(ProcMacroType::Derive, &flags(&["fast"])).err().unwrap();
    assert_eq!(
        rejection.message,
        "only `proc_macro`, `proc_macro_attribute`, `proc_macro_derive`, ``, and `impl_fn` are supported"
    );
    assert_eq!(rejection.help, "try `#[manyhow]");
    let rejection = check_flags(ProcMacroType::Attribute, &flags(&["fast"])).err().unwrap();
    assert_eq!(
        rejection.message,
        "only `proc_macro`, `proc_macro_attribute`, `proc_macro_derive`, `item_as_dummy`, and `impl_fn` are supported"
    );
}

#[test]
fn first_refused_flag_is_reported() {
    let rejection = check_flags(
        ProcMacroType::Function,
        &flags(&["impl_fn", "first", "item_as_dummy", "second"]),
    )
    .err()
    .unwrap();
    assert_eq!(rejection.index, 1);
    assert_eq!(rejection.help, "try `#[manyhow(impl_fn, item_as_dummy, second)]");
}

#[test]
fn where_the_kind_is_declared() {
    let names = |names: &[&str]| names.iter().map(|name| name.to_string()).collect::<Vec<_>>();
    assert_eq!(declared_kind(&names(&[])), Declared::Nowhere);
    assert_eq!(declared_kind(&names(&["doc", "impl_fn"])), Declared::Nowhere);
    assert_eq!(
        declared_kind(&names(&["doc", "proc_macro", "impl_fn"])),
        Declared::Once { kind: ProcMacroType::Function, at: 1 }
    );
    assert_eq!(
        declared_kind(&names(&["proc_macro_derive"])),
        Declared::Once { kind: ProcMacroType::Derive, at: 0 }
    );
    assert_eq!(
        declared_kind(&names(&["proc_macro_attribute", "x", "proc_macro", "proc_macro_derive"])),
        Declared::Twice { first: 0, second: 2 }
    );
    assert_eq!(
        declared_kind(&names(&["proc_macro", "proc_macro"])),
        Declared::Twice { first: 0, second: 1 }
    );
}

#[test]
fn errors_as_tokens() {
    let span = Span::call_site();
    assert_eq!(
        error(span, "expected function").to_string(),
        text("::core::compile_error! { \"expected function\" }")
    );
    assert_eq!(
        error_help(span, "expected return type", "try adding `-> TokenStream`").to_string(),
        text("::core::compile_error! { \"expected return type\\n\\n  = help: try adding `-> TokenStream`\" }")
    );
    assert_eq!(
        with_error(tokens("fn f() {}"), span, "no").to_string(),
        text("fn f() {} ::core::compile_error! { \"no\" }")
    );
    assert_eq!(
        with_helpful_error(tokens("fn f() {}"), span, "no", "yes").to_string(),
        text("fn f() {} ::core::compile_error! { \"no\\n\\n  = help: yes\" }")
    );
}

#[test]
fn signature_of_each_kind() {
    let one = text("(__input: ::proc_macro::TokenStream) -> ::proc_macro::TokenStream");
    let two = text(
        "(__input: ::proc_macro::TokenStream, __item: ::proc_macro::TokenStream) -> ::proc_macro::TokenStream",
    );
    let mut stream = TokenStream::new();
    ProcMacroType::Function.to_signature(&mut stream);
    assert_eq!(stream.to_string(), one);
    let mut stream = TokenStream::new();
    ProcMacroType::Derive.to_signature(&mut stream);
    assert_eq!(stream.to_string(), one);
    let mut stream = TokenStream::new();
    ProcMacroType::Attribute.to_signature(&mut stream);
    assert_eq!(stream.to_string(), two);
    let mut stream = tokens("fn name");
    ProcMacroType::Function.to_signature(&mut stream);
    assert_eq!(stream.to_string(), text(&format!("fn name {one}")));
}

#[test]
fn call_of_each_driver() {
    let path = || tokens("module::implementation");
    assert_eq!(
        ProcMacroType::Function.to_tokens(path(), false).to_string(),
        text("::manyhow::function!(__input, module::implementation)")
    );
    assert_eq!(
        ProcMacroType::Function.to_tokens(path(), true).to_string(),
        text("::manyhow::function!(#[as_dummy] __input, module::implementation)")
    );
    assert_eq!(
        ProcMacroType::Derive.to_tokens(path(), false).to_string(),
        text("::manyhow::derive!(__input, module::implementation)")
    );
    assert_eq!(
        ProcMacroType::Attribute.to_tokens(path(), false).to_string(),
        text("::manyhow::attribute!(__input, __item, module::implementation)")
    );
    assert_eq!(
        ProcMacroType::Attribute.to_tokens(path(), true).to_string(),
        text("::manyhow::attribute!(__input, #[as_dummy] __item, module::implementation)")
    );
}
