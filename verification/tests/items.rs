use manyhow::item::{
    implementation_name, read_attributes, read_flags, read_item, Fault, FlagAt, ListFault, Shape,
    Tree,
};
use manyhow::macros::{declared_kind, help_without_impl_fn, Declared, Param};
use proc_macro2::{TokenStream, TokenTree};

fn trees(source: &str) -> Vec<Tree> {
    source
        .parse::<TokenStream>()
        .unwrap()
        .into_iter()
        .map(|tree| match tree {
            TokenTree::Ident(ident) => Tree::Ident(ident.to_string()),
            TokenTree::Punct(punct) => Tree::Punct(punct.as_char()),
            TokenTree::Literal(_) => Tree::Literal,
            TokenTree::Group(group) => Tree::Group(group.delimiter()),
        })
        .collect()
}

#[test]
fn shape_of_a_function() {
    assert_eq!(
        read_item(&trees("fn name(input: TokenStream) -> TokenStream { input }"), false),
        Ok(Shape::Function { start: 0, public: false, name: 1, body: 6 })
    );
    assert_eq!(
        read_item(
            &trees("#[proc_macro] #[doc = \"text\"] pub fn name(a: A) -> manyhow::Result<B> { body }"),
            true
        ),
        Ok(Shape::Function { start: 4, public: true, name: 6, body: 17 })
    );
}

#[test]
fn shape_of_a_use() {
    assert_eq!(
        read_item(&trees("use module::name;"), false),
        Ok(Shape::Use { start: 0, public: false, name: 4 })
    );
    assert_eq!(
        read_item(&trees("#[proc_macro] pub use name;"), false),
        Ok(Shape::Use { start: 2, public: true, name: 4 })
    );
}

#[test]
fn item_faults() {
    assert_eq!(read_item(&trees("use module::name;"), true), Err(Fault::ImplFnOnUse));
    assert_eq!(read_item(&trees("use module::{a, b};"), false), Err(Fault::UseOfSeveral { at: 4 }));
    assert_eq!(read_item(&trees("use module::name"), false), Err(Fault::Malformed));
    assert_eq!(read_item(&trees("use ;"), false), Err(Fault::Malformed));
    assert_eq!(read_item(&trees(""), false), Err(Fault::ExpectedFunction { found: None }));
    assert_eq!(read_item(&trees("#[a]"), false), Err(Fault::ExpectedFunction { found: None }));
    assert_eq!(
        read_item(&trees("struct X;"), false),
        Err(Fault::ExpectedFunction { found: Some(0) })
    );
    assert_eq!(
        read_item(&trees("pub(crate) fn f() -> T {}"), false),
        Err(Fault::ExpectedFunction { found: Some(1) })
    );
    assert_eq!(read_item(&trees("pub fn"), false), Err(Fault::ExpectedFunctionName { found: None }));
    assert_eq!(
        read_item(&trees("fn (a) -> T {}"), false),
        Err(Fault::ExpectedFunctionName { found: Some(1) })
    );
    assert_eq!(read_item(&trees("fn f<T>() -> T {}"), false), Err(Fault::Generics { at: 2 }));
    assert_eq!(read_item(&trees("fn f;"), false), Err(Fault::Malformed));
    assert_eq!(
        read_item(&trees("fn f(a: A) { a }"), false),
        Err(Fault::ExpectedReturnType { params: 2 })
    );
    assert_eq!(read_item(&trees("fn f(a: A) -> { a }"), false), Err(Fault::Malformed));
    assert_eq!(read_item(&trees("fn f(a: A) -> T"), false), Err(Fault::Malformed));
    assert_eq!(read_item(&trees("fn f(a: A) -> T { a } more"), false), Err(Fault::Malformed));
    assert_eq!(read_item(&trees("# fn f() -> T {}"), false), Err(Fault::Malformed));
}

#[test]
fn attributes_of_an_item() {
    assert_eq!(read_attributes(&trees("fn f() {}")), Ok(0));
    assert_eq!(read_attributes(&trees("#[a] #[b(c)] fn f() {}")), Ok(4));
    assert_eq!(read_attributes(&trees("#[a] # fn f() {}")), Err(Fault::Malformed));
    assert_eq!(read_attributes(&trees("#(a) fn f() {}")), Err(Fault::Malformed));
    assert_eq!(read_attributes(&trees("")), Ok(0));
}

#[test]
fn reports_for_items() {
    assert_eq!(Fault::ExpectedFunction { found: None }.message(), "expected function");
    assert_eq!(Fault::ExpectedFunctionName { found: None }.message(), "expected function name");
    assert_eq!(Fault::Generics { at: 0 }.message(), "proc macros cannot have generics");
    assert_eq!(Fault::ExpectedReturnType { params: 0 }.message(), "expected return type");
    assert_eq!(
        Fault::ExpectedReturnType { params: 0 }.help(),
        Some("try adding either `-> TokenStream` or `-> manyhow::Result`")
    );
    assert_eq!(
        Fault::UseOfSeveral { at: 0 }.message(),
        "only use statements for a single function, i.e., `use ...::fn_name;` are supported"
    );
    assert_eq!(Fault::UseOfSeveral { at: 0 }.help(), Some("try splitting the use statment"));
    assert_eq!(Fault::ImplFnOnUse.message(), "`impl_fn` is not supported on use statements");
    assert_eq!(Fault::ImplFnOnUse.help(), None);
    assert_eq!(Fault::Generics { at: 0 }.help(), None);
    assert_eq!(Fault::Malformed.message(), "expected a function or a use statement");
    let flags = vec![
        Param { name: "proc_macro".to_owned(), text: "proc_macro".to_owned() },
        Param { name: "impl_fn".to_owned(), text: "impl_fn".to_owned() },
    ];
    assert_eq!(help_without_impl_fn(&flags, 1), "try `#[manyhow(proc_macro)]");
}

#[test]
fn name_of_the_implementation() {
    assert_eq!(implementation_name("my_macro"), "my_macro_impl");
    assert_eq!(implementation_name(""), "_impl");
}

#[test]
fn lists_of_flags() {
    let flags = read_flags(&trees("proc_macro, impl_fn input_as_dummy,"));
    assert_eq!(
        flags.read,
        vec![
            FlagAt { name: 0, arguments: None },
            FlagAt { name: 2, arguments: None },
            FlagAt { name: 3, arguments: None },
        ]
    );
    assert_eq!(flags.fault, None);
    let flags = read_flags(&trees("impl_fn, proc_macro_derive(Trait, attributes(a)), other"));
    assert_eq!(
        flags.read,
        vec![
            FlagAt { name: 0, arguments: None },
            FlagAt { name: 2, arguments: Some(3) },
            FlagAt { name: 5, arguments: None },
        ]
    );
    assert_eq!(flags.fault, None);
    let flags = read_flags(&trees(""));
    assert!(flags.read.is_empty());
    assert_eq!(flags.fault, None);
}

#[test]
fn refused_lists_of_flags() {
    let flags = read_flags(&trees("impl_fn, 5, other"));
    assert_eq!(flags.read, vec![FlagAt { name: 0, arguments: None }]);
    assert_eq!(flags.fault, Some(ListFault::NotAFlag { at: 2 }));
    let flags = read_flags(&trees(", impl_fn"));
    assert!(flags.read.is_empty());
    assert_eq!(flags.fault, Some(ListFault::NotAFlag { at: 0 }));
    let flags = read_flags(&trees("impl_fn, proc_macro_derive, other"));
    assert_eq!(flags.read, vec![FlagAt { name: 0, arguments: None }]);
    assert_eq!(flags.fault, Some(ListFault::DeriveWithoutTrait { at: 3 }));
    let flags = read_flags(&trees("proc_macro_derive"));
    assert!(flags.read.is_empty());
    assert_eq!(flags.fault, Some(ListFault::DeriveWithoutTrait { at: 0 }));
    assert_eq!(
        ListFault::NotAFlag { at: 0 }.message(),
        "manyhow expects a comma seperated list of flags"
    );
    assert_eq!(ListFault::NotAFlag { at: 0 }.help(), "try `#[manyhow(impl_fn)]`");
    assert_eq!(
        ListFault::DeriveWithoutTrait { at: 0 }.message(),
        "`proc_macro_derive` expects `(TraitName)`"
    );
    assert_eq!(
        ListFault::DeriveWithoutTrait { at: 0 }.help(),
        "try `#[manyhow(proc_macro_derive(YourTraitName))]`"
    );
}

#[test]
fn reports_for_the_kind() {
    let none = declared_kind(&vec![]);
    assert_eq!(none, Declared::Nowhere);
    assert_eq!(
        none.message(),
        Some("expected proc_macro* attribute below `#[manyhow]` or a flag as parameter of the attribute")
    );
    assert!(none.help().unwrap().starts_with("try adding `#[proc_macro]`"));
    assert!(none.help().unwrap().ends_with("`#[manyhow(proc_macro_derive)]` "));
    let twice = Declared::Twice { first: 0, second: 1 };
    assert_eq!(twice.message(), Some("proc_macro kind specified multiple times"));
    assert_eq!(twice.help(), Some("try removing this"));
    let once = declared_kind(&vec!["proc_macro".to_owned()]);
    assert_eq!(once.message(), None);
    assert_eq!(once.help(), None);
}
