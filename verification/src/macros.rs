//! What the attribute `#[manyhow]` works out before it rewrites an item: the
//! kind of macro it stands on, the flags it accepts, and the tokens of the
//! entry point that it writes.

use crate::error::{compile_error_tokens, push_compile_error};
use crate::text::{push_text, same_text, string_of};
use crate::tokens::{
    append, push_group, push_ident, push_punct, stream_tokens, Token,
};
use proc_macro2::{Delimiter, Spacing, Span, TokenStream};
use vstd::prelude::*;

verus! {

/// The three kinds of procedural macro.
#[derive(Clone, Copy, Debug, PartialEq, Eq, Structural)]
pub enum ProcMacroType {
    /// `#[proc_macro]`
    Function,
    /// `#[proc_macro_derive(..)]`
    Derive,
    /// `#[proc_macro_attribute]`
    Attribute,
}

/// `::` at `site`.
pub open spec fn colon2(site: Span) -> Seq<Token> {
    seq![
        Token::Punct { ch: ':', spacing: Spacing::Joint, span: site },
        Token::Punct { ch: ':', spacing: Spacing::Alone, span: site },
    ]
}

/// The identifier `name` at `site`.
pub open spec fn word(name: Seq<char>, site: Span) -> Seq<Token> {
    seq![Token::Ident { name, span: site }]
}

/// The punctuation character `ch` at `site`, with a gap behind it.
pub open spec fn mark(ch: char, site: Span) -> Seq<Token> {
    seq![Token::Punct { ch, spacing: Spacing::Alone, span: site }]
}

/// `::proc_macro::TokenStream` at `site`.
pub open spec fn stream_type(site: Span) -> Seq<Token> {
    colon2(site) + word("proc_macro"@, site) + colon2(site) + word("TokenStream"@, site)
}

/// `name: ::proc_macro::TokenStream` at `site`.
pub open spec fn parameter(name: Seq<char>, site: Span) -> Seq<Token> {
    word(name, site) + mark(':', site) + stream_type(site)
}

/// `#[as_dummy]` at `site` where the flag is set, else nothing.
pub open spec fn dummy_mark(as_dummy: bool, site: Span) -> Seq<Token> {
    if as_dummy {
        mark('#', site) + seq![
            Token::Group { delimiter: Delimiter::Bracket, inner: word("as_dummy"@, site), span: site },
        ]
    } else {
        Seq::empty()
    }
}

impl ProcMacroType {
    /// The kind that an attribute of the given name declares.
    pub open spec fn named(name: Seq<char>) -> Option<ProcMacroType> {
        if name == "proc_macro"@ {
            Some(ProcMacroType::Function)
        } else if name == "proc_macro_attribute"@ {
            Some(ProcMacroType::Attribute)
        } else if name == "proc_macro_derive"@ {
            Some(ProcMacroType::Derive)
        } else {
            None
        }
    }

    /// The kind that an attribute of the given name declares, if it
    /// declares one.
    pub fn from_name(name: &str) -> (kind: Option<ProcMacroType>)
        ensures
            kind == Self::named(name@),
    {
        if same_text(name, "proc_macro") {
            Some(ProcMacroType::Function)
        } else if same_text(name, "proc_macro_attribute") {
            Some(ProcMacroType::Attribute)
        } else if same_text(name, "proc_macro_derive") {
            Some(ProcMacroType::Derive)
        } else {
            None
        }
    }

    /// The flag that makes an input of a macro of this kind its dummy;
    /// empty where the kind has no such flag.
    pub open spec fn dummy_flag_text(self) -> Seq<char> {
        match self {
            ProcMacroType::Function => "input_as_dummy"@,
            ProcMacroType::Derive => ""@,
            ProcMacroType::Attribute => "item_as_dummy"@,
        }
    }

    /// The flag that makes an input of a macro of this kind its dummy;
    /// empty where the kind has no such flag.
    pub fn dummy_flag(self) -> (flag: &'static str)
        ensures
            flag@ == self.dummy_flag_text(),
    {
        match self {
            ProcMacroType::Function => "input_as_dummy",
            ProcMacroType::Derive => "",
            ProcMacroType::Attribute => "item_as_dummy",
        }
    }

    /// The name of the macro that drives an implementation of this kind.
    pub open spec fn driver_text(self) -> Seq<char> {
        match self {
            ProcMacroType::Function => "function"@,
            ProcMacroType::Derive => "derive"@,
            ProcMacroType::Attribute => "attribute"@,
        }
    }

    /// The parameters and the result type of an entry point of this kind:
    /// `(__input: ::proc_macro::TokenStream) -> ::proc_macro::TokenStream`,
    /// with `__item` as a second parameter for an attribute.
    pub open spec fn signature(self, site: Span) -> Seq<Token> {
        let first = parameter("__input"@, site);
        let parameters = if self == ProcMacroType::Attribute {
            first + mark(',', site) + parameter("__item"@, site)
        } else {
            first
        };
        seq![Token::Group { delimiter: Delimiter::Parenthesis, inner: parameters, span: site }] + seq![
            Token::Punct { ch: '-', spacing: Spacing::Joint, span: site },
            Token::Punct { ch: '>', spacing: Spacing::Alone, span: site },
        ] + stream_type(site)
    }

    /// Appends the parameters and the result type of an entry point of
    /// this kind to `tokens`. All of them carry the span of the call site.
    pub fn to_signature(self, tokens: &mut TokenStream)
        ensures
            exists|site: Span|
                stream_tokens(*final(tokens)) == stream_tokens(*old(tokens)) + #[trigger]
                self.signature(site),
    {
        let site = Span::call_site();
        proof {
            reveal_strlit("__input");
            reveal_strlit("__item");
        }
        let mut parameters = TokenStream::new();
        push_parameter(&mut parameters, "__input", site);
        match self {
            ProcMacroType::Attribute => {
                push_punct(&mut parameters, ',', Spacing::Alone, site);
                push_parameter(&mut parameters, "__item", site);
                assert(stream_tokens(parameters) =~= parameter("__input"@, site) + mark(',', site)
                    + parameter("__item"@, site));
            },
            _ => {
                assert(stream_tokens(parameters) =~= parameter("__input"@, site));
            },
        }
        push_group(tokens, Delimiter::Parenthesis, parameters, site);
        push_punct(tokens, '-', Spacing::Joint, site);
        push_punct(tokens, '>', Spacing::Alone, site);
        push_stream_type(tokens, site);
        assert(stream_tokens(*tokens) =~= stream_tokens(*old(tokens)) + self.signature(site));
    }

    /// The call that drives the implementation at `impl_path`:
    /// `::manyhow::function!(__input, impl_path)`, with `derive` or
    /// `attribute` for the other kinds; an attribute has `__item` as a second
    /// input. With `as_dummy` the last input is marked `#[as_dummy]`.
    pub open spec fn call(self, impl_path: Seq<Token>, as_dummy: bool, site: Span) -> Seq<Token> {
        let inputs = if self == ProcMacroType::Attribute {
            word("__input"@, site) + mark(',', site) + dummy_mark(as_dummy, site) + word(
                "__item"@,
                site,
            )
        } else {
            dummy_mark(as_dummy, site) + word("__input"@, site)
        };
        colon2(site) + word("manyhow"@, site) + colon2(site) + word(self.driver_text(), site)
            + mark('!', site) + seq![
            Token::Group {
                delimiter: Delimiter::Parenthesis,
                inner: inputs + mark(',', site) + impl_path,
                span: site,
            },
        ]
    }

    /// The tokens of the call that drives the implementation at
    /// `impl_path`. What this function adds carries the span of the call
    /// site.
    pub fn to_tokens(self, impl_path: TokenStream, as_dummy: bool) -> (tokens: TokenStream)
        ensures
            exists|site: Span|
                stream_tokens(tokens) == #[trigger] self.call(
                    stream_tokens(impl_path),
                    as_dummy,
                    site,
                ),
    {
        let site = Span::call_site();
        proof {
            reveal_strlit("__input");
            reveal_strlit("__item");
            reveal_strlit("manyhow");
            reveal_strlit("function");
            reveal_strlit("derive");
            reveal_strlit("attribute");
        }
        let mut inputs = TokenStream::new();
        match self {
            ProcMacroType::Attribute => {
                push_ident(&mut inputs, "__input", site);
                push_punct(&mut inputs, ',', Spacing::Alone, site);
                push_dummy_mark(&mut inputs, as_dummy, site);
                push_ident(&mut inputs, "__item", site);
            },
            _ => {
                push_dummy_mark(&mut inputs, as_dummy, site);
                push_ident(&mut inputs, "__input", site);
            },
        }
        push_punct(&mut inputs, ',', Spacing::Alone, site);
        append(&mut inputs, impl_path);
        assert(stream_tokens(inputs) =~= (if self == ProcMacroType::Attribute {
            word("__input"@, site) + mark(',', site) + dummy_mark(as_dummy, site) + word(
                "__item"@,
                site,
            )
        } else {
            dummy_mark(as_dummy, site) + word("__input"@, site)
        }) + mark(',', site) + stream_tokens(impl_path));
        let mut tokens = TokenStream::new();
        push_punct(&mut tokens, ':', Spacing::Joint, site);
        push_punct(&mut tokens, ':', Spacing::Alone, site);
        push_ident(&mut tokens, "manyhow", site);
        push_punct(&mut tokens, ':', Spacing::Joint, site);
        push_punct(&mut tokens, ':', Spacing::Alone, site);
        match self {
            ProcMacroType::Function => push_ident(&mut tokens, "function", site),
            ProcMacroType::Derive => push_ident(&mut tokens, "derive", site),
            ProcMacroType::Attribute => push_ident(&mut tokens, "attribute", site),
        }
        push_punct(&mut tokens, '!', Spacing::Alone, site);
        push_group(&mut tokens, Delimiter::Parenthesis, inputs, site);
        assert(stream_tokens(tokens) =~= self.call(stream_tokens(impl_path), as_dummy, site));
        tokens
    }
}

/// Appends `::proc_macro::TokenStream` at `site`.
fn push_stream_type(tokens: &mut TokenStream, site: Span)
    ensures
        stream_tokens(*final(tokens)) == stream_tokens(*old(tokens)) + stream_type(site),
{
    proof {
        reveal_strlit("proc_macro");
        reveal_strlit("TokenStream");
    }
    push_punct(tokens, ':', Spacing::Joint, site);
    push_punct(tokens, ':', Spacing::Alone, site);
    push_ident(tokens, "proc_macro", site);
    push_punct(tokens, ':', Spacing::Joint, site);
    push_punct(tokens, ':', Spacing::Alone, site);
    push_ident(tokens, "TokenStream", site);
}

/// Appends `name: ::proc_macro::TokenStream` at `site`.
fn push_parameter(tokens: &mut TokenStream, name: &str, site: Span)
    requires
        crate::tokens::is_plain_ident(name@),
    ensures
        stream_tokens(*final(tokens)) == stream_tokens(*old(tokens)) + parameter(name@, site),
{
    push_ident(tokens, name, site);
    push_punct(tokens, ':', Spacing::Alone, site);
    push_stream_type(tokens, site);
}

/// Appends `#[as_dummy]` at `site` where the flag is set.
fn push_dummy_mark(tokens: &mut TokenStream, as_dummy: bool, site: Span)
    ensures
        stream_tokens(*final(tokens)) == stream_tokens(*old(tokens)) + dummy_mark(as_dummy, site),
{
    if as_dummy {
        proof {
            reveal_strlit("as_dummy");
        }
        push_punct(tokens, '#', Spacing::Alone, site);
        let mut inner = TokenStream::new();
        push_ident(&mut inner, "as_dummy", site);
        push_group(tokens, Delimiter::Bracket, inner, site);
    }
}

/// What separates an error from the help under it.
pub open spec fn help_heading() -> Seq<char> {
    "\n\n  = help: "@
}

/// The text of an error with a help under it.
pub open spec fn helpful_text(message: Seq<char>, help: Seq<char>) -> Seq<char> {
    message + help_heading() + help
}

/// The tokens that report `message` at `span`.
pub fn error(span: Span, message: &str) -> (tokens: TokenStream)
    ensures
        stream_tokens(tokens) == compile_error_tokens(message@, span, span),
{
    let mut tokens = TokenStream::new();
    push_compile_error(&mut tokens, message, span, span);
    tokens
}

/// The tokens that report `message` at `span`, with `help` under it.
pub fn error_help(span: Span, message: &str, help: &str) -> (tokens: TokenStream)
    ensures
        stream_tokens(tokens) == compile_error_tokens(helpful_text(message@, help@), span, span),
{
    let mut text: Vec<char> = Vec::new();
    push_text(&mut text, message);
    push_text(&mut text, "\n\n  = help: ");
    push_text(&mut text, help);
    let text = string_of(&text);
    let mut tokens = TokenStream::new();
    push_compile_error(&mut tokens, text.as_str(), span, span);
    tokens
}

/// `item`, and behind it the tokens that report `message` at `span`.
pub fn with_error(item: TokenStream, span: Span, message: &str) -> (tokens: TokenStream)
    ensures
        stream_tokens(tokens) == stream_tokens(item) + compile_error_tokens(message@, span, span),
{
    let mut tokens = item;
    append(&mut tokens, error(span, message));
    tokens
}

/// `item`, and behind it the tokens that report `message` at `span`, with
/// `help` under it.
pub fn with_helpful_error(item: TokenStream, span: Span, message: &str, help: &str) -> (tokens:
    TokenStream)
    ensures
        stream_tokens(tokens) == stream_tokens(item) + compile_error_tokens(
            helpful_text(message@, help@),
            span,
            span,
        ),
{
    let mut tokens = item;
    append(&mut tokens, error_help(span, message, help));
    tokens
}

/// One flag of the attribute: its name, and the text it was written as. For
/// a plain flag the two are the same; a flag with arguments is written with
/// them.
pub struct Param {
    pub name: String,
    pub text: String,
}

/// The names of the given flags.
pub open spec fn names_of(flags: Seq<Param>) -> Seq<Seq<char>> {
    Seq::new(flags.len(), |i: int| flags[i].name@)
}

/// The texts of the given flags.
pub open spec fn texts_of(flags: Seq<Param>) -> Seq<Seq<char>> {
    Seq::new(flags.len(), |i: int| flags[i].text@)
}

/// Why a flag is refused.
#[derive(Clone, Copy, Debug, PartialEq, Eq, Structural)]
pub enum Fault {
    /// `item_as_dummy` on a function-like macro.
    ItemAsDummyOnFunction,
    /// `input_as_dummy` on an attribute macro.
    InputAsDummyOnAttribute,
    /// `input_as_dummy` or `item_as_dummy` on a derive macro.
    AsDummyOnDerive,
    /// A flag that the attribute does not know.
    Unknown,
}

/// What a flag means on a macro of a given kind.
#[derive(Clone, Copy, Debug, PartialEq, Eq, Structural)]
pub enum Meaning {
    /// The flag declares the kind of the macro.
    Kind,
    /// The implementation gets a function of its own.
    ImplFn,
    /// The last input starts as the dummy.
    AsDummy,
    /// The flag is refused.
    Wrong(Fault),
}

/// What the flag `name` means on a macro of kind `kind`.
pub open spec fn meaning(name: Seq<char>, kind: ProcMacroType) -> Meaning {
    if name == "impl_fn"@ {
        Meaning::ImplFn
    } else if name == "item_as_dummy"@ {
        match kind {
            ProcMacroType::Attribute => Meaning::AsDummy,
            ProcMacroType::Function => Meaning::Wrong(Fault::ItemAsDummyOnFunction),
            ProcMacroType::Derive => Meaning::Wrong(Fault::AsDummyOnDerive),
        }
    } else if name == "input_as_dummy"@ {
        match kind {
            ProcMacroType::Function => Meaning::AsDummy,
            ProcMacroType::Attribute => Meaning::Wrong(Fault::InputAsDummyOnAttribute),
            ProcMacroType::Derive => Meaning::Wrong(Fault::AsDummyOnDerive),
        }
    } else if ProcMacroType::named(name) is Some {
        Meaning::Kind
    } else {
        Meaning::Wrong(Fault::Unknown)
    }
}

/// What the flag `name` means on a macro of kind `kind`.
pub fn meaning_of(name: &str, kind: ProcMacroType) -> (found: Meaning)
    ensures
        found == meaning(name@, kind),
{
    if same_text(name, "impl_fn") {
        Meaning::ImplFn
    } else if same_text(name, "item_as_dummy") {
        match kind {
            ProcMacroType::Attribute => Meaning::AsDummy,
            ProcMacroType::Function => Meaning::Wrong(Fault::ItemAsDummyOnFunction),
            ProcMacroType::Derive => Meaning::Wrong(Fault::AsDummyOnDerive),
        }
    } else if same_text(name, "input_as_dummy") {
        match kind {
            ProcMacroType::Function => Meaning::AsDummy,
            ProcMacroType::Attribute => Meaning::Wrong(Fault::InputAsDummyOnAttribute),
            ProcMacroType::Derive => Meaning::Wrong(Fault::AsDummyOnDerive),
        }
    } else {
        match ProcMacroType::from_name(name) {
            Some(_) => Meaning::Kind,
            None => Meaning::Wrong(Fault::Unknown),
        }
    }
}

/// The given texts with `, ` between them.
pub open spec fn joined(texts: Seq<Seq<char>>) -> Seq<char>
    decreases texts.len(),
{
    if texts.len() == 0 {
        Seq::empty()
    } else if texts.len() == 1 {
        texts[0]
    } else {
        joined(texts.drop_last()) + ", "@ + texts.last()
    }
}

/// The flags as they are written behind the name of the attribute: in
/// parentheses, with `, ` between them; nothing for no flag.
pub open spec fn listed(texts: Seq<Seq<char>>) -> Seq<char> {
    if texts.len() == 0 {
        Seq::empty()
    } else {
        "("@ + joined(texts) + ")"@
    }
}

/// The flags as they are written once the flag at `index` has given way to
/// `replacement`, or was taken out where there is none.
pub open spec fn replaced(texts: Seq<Seq<char>>, index: int, replacement: Option<Seq<char>>) -> Seq<
    char,
> {
    match replacement {
        Some(text) => listed(texts.update(index, text)),
        None => listed(texts.remove(index)),
    }
}

/// The views of the given strings.
pub open spec fn string_views(texts: Seq<String>) -> Seq<Seq<char>> {
    Seq::new(texts.len(), |i: int| texts[i]@)
}

/// The flags as they are written once the flag at `index` has given way to
/// `replacement`, or was taken out where there is none.
pub fn flags_replace(flags: &Vec<Param>, index: usize, replacement: Option<&str>) -> (text: String)
    requires
        index < flags.len(),
    ensures
        text@ == replaced(
            texts_of(flags@),
            index as int,
            match replacement {
                Some(text) => Some(text@),
                None => None,
            },
        ),
{
    let mut texts: Vec<String> = Vec::new();
    let mut i: usize = 0;
    while i < flags.len()
        invariant
            i <= flags.len(),
            string_views(texts@) == texts_of(flags@).take(i as int),
        decreases flags.len() - i,
    {
        let text = flags[i].text.clone();
        proof {
            assert(string_views(texts@.push(text)) == string_views(texts@).push(text@));
            assert(texts_of(flags@).take(i + 1) == texts_of(flags@).take(i as int).push(
                flags[i as int].text@,
            ));
        }
        texts.push(text);
        i += 1;
    }
    proof {
        assert(texts_of(flags@).take(i as int) == texts_of(flags@));
    }
    match replacement {
        Some(text) => {
            let text = text.to_owned();
            let ghost before = texts@;
            texts.set(index, text);
            assert(string_views(texts@) == string_views(before).update(index as int, text@));
        },
        None => {
            let ghost before = texts@;
            texts.remove(index);
            assert(string_views(texts@) == string_views(before).remove(index as int));
        },
    }
    let mut out: Vec<char> = Vec::new();
    if texts.len() == 0 {
        return string_of(&out);
    }
    out.push('(');
    proof {
        reveal_strlit("(");
        reveal_strlit(")");
        reveal_strlit(", ");
    }
    let ghost all = string_views(texts@);
    push_text(&mut out, texts[0].as_str());
    let mut j: usize = 1;
    while j < texts.len()
        invariant
            1 <= j <= texts.len(),
            all == string_views(texts@),
            out@ == "("@ + joined(all.take(j as int)),
        decreases texts.len() - j,
    {
        out.push(',');
        out.push(' ');
        push_text(&mut out, texts[j].as_str());
        proof {
            reveal_strlit(", ");
            assert(", "@ == seq![',', ' ']);
            assert(all.take(j + 1).drop_last() == all.take(j as int));
            assert(all.take(j + 1).last() == texts[j as int]@);
        }
        j += 1;
    }
    proof {
        assert(all.take(j as int) == all);
    }
    out.push(')');
    string_of(&out)
}

/// What a refused flag is answered with.
pub open spec fn fault_message(fault: Fault, kind: ProcMacroType) -> Seq<char> {
    match fault {
        Fault::ItemAsDummyOnFunction =>
            "`item_as_dummy` is only supported with `#[proc_macro_attribute]`"@,
        Fault::InputAsDummyOnAttribute => "`input_as_dummy` is only supported with `#[proc_macro]`"@,
        Fault::AsDummyOnDerive =>
            "only `#[proc_macro]` and `#[proc_macro_attribute]` support `*_as_dummy` flags"@,
        Fault::Unknown => "only `proc_macro`, `proc_macro_attribute`, `proc_macro_derive`, `"@
            + kind.dummy_flag_text() + "`, and `impl_fn` are supported"@,
    }
}

/// What is suggested in place of a refused flag at `index`.
pub open spec fn fault_help(fault: Fault, texts: Seq<Seq<char>>, index: int) -> Seq<char> {
    match fault {
        Fault::ItemAsDummyOnFunction => "try `#[manyhow"@ + replaced(
            texts,
            index,
            Some("input_as_dummy"@),
        ) + "]` instead"@,
        Fault::InputAsDummyOnAttribute => "try `#[manyhow"@ + replaced(
            texts,
            index,
            Some("item_as_dummy"@),
        ) + "]` instead"@,
        Fault::AsDummyOnDerive => "try `#[manyhow"@ + replaced(texts, index, None) + "]` instead"@,
        Fault::Unknown => "try `#[manyhow"@ + replaced(texts, index, None) + "]"@,
    }
}

/// A flag that was refused: where it stands among the flags, what is
/// reported for it, and what is suggested.
pub struct Rejection {
    pub index: usize,
    pub fault: Fault,
    pub message: String,
    pub help: String,
}

/// What the flags ask for.
#[derive(Clone, Copy, Debug, PartialEq, Eq, Structural)]
pub struct Settings {
    /// The last input of the macro starts as its dummy.
    pub as_dummy: bool,
    /// Where the flag `impl_fn` stands, if it was given: the last one.
    pub impl_fn: Option<usize>,
}

/// What the first `count` flags ask for.
pub open spec fn asked(names: Seq<Seq<char>>, kind: ProcMacroType, count: int) -> Settings
    decreases count,
{
    if count <= 0 {
        Settings { as_dummy: false, impl_fn: None }
    } else {
        let before = asked(names, kind, count - 1);
        match meaning(names[count - 1], kind) {
            Meaning::ImplFn => Settings { impl_fn: Some((count - 1) as usize), ..before },
            Meaning::AsDummy => Settings { as_dummy: true, ..before },
            _ => before,
        }
    }
}

/// Whether one of the first `count` flags is refused.
pub open spec fn refused_before(names: Seq<Seq<char>>, kind: ProcMacroType, count: int) -> bool {
    exists|i: int| 0 <= i < count && #[trigger] meaning(names[i], kind) is Wrong
}

/// The rejection of the flag at `index`.
fn reject(flags: &Vec<Param>, index: usize, fault: Fault, kind: ProcMacroType) -> (rejection:
    Rejection)
    requires
        index < flags.len(),
    ensures
        rejection.index == index,
        rejection.fault == fault,
        rejection.message@ == fault_message(fault, kind),
        rejection.help@ == fault_help(fault, texts_of(flags@), index as int),
{
    let mut message: Vec<char> = Vec::new();
    let mut help: Vec<char> = Vec::new();
    push_text(&mut help, "try `#[manyhow");
    match fault {
        Fault::ItemAsDummyOnFunction => {
            push_text(
                &mut message,
                "`item_as_dummy` is only supported with `#[proc_macro_attribute]`",
            );
            let list = flags_replace(flags, index, Some("input_as_dummy"));
            push_text(&mut help, list.as_str());
            push_text(&mut help, "]` instead");
        },
        Fault::InputAsDummyOnAttribute => {
            push_text(&mut message, "`input_as_dummy` is only supported with `#[proc_macro]`");
            let list = flags_replace(flags, index, Some("item_as_dummy"));
            push_text(&mut help, list.as_str());
            push_text(&mut help, "]` instead");
        },
        Fault::AsDummyOnDerive => {
            push_text(
                &mut message,
                "only `#[proc_macro]` and `#[proc_macro_attribute]` support `*_as_dummy` flags",
            );
            let list = flags_replace(flags, index, None);
            push_text(&mut help, list.as_str());
            push_text(&mut help, "]` instead");
        },
        Fault::Unknown => {
            push_text(
                &mut message,
                "only `proc_macro`, `proc_macro_attribute`, `proc_macro_derive`, `",
            );
            push_text(&mut message, kind.dummy_flag());
            push_text(&mut message, "`, and `impl_fn` are supported");
            let list = flags_replace(flags, index, None);
            push_text(&mut help, list.as_str());
            push_text(&mut help, "]");
        },
    }
    Rejection { index, fault, message: string_of(&message), help: string_of(&help) }
}

/// Reads the flags of the attribute on a macro of kind `kind`.
///
/// The flags are read in order. The first flag that is refused ends the
/// reading, and is reported with a suggestion; where none is refused the
/// result says what the flags ask for.
pub fn check_flags(kind: ProcMacroType, flags: &Vec<Param>) -> (result: Result<Settings, Rejection>)
    ensures
        result is Ok <==> !refused_before(names_of(flags@), kind, flags.len() as int),
        result matches Ok(settings) ==> settings == asked(
            names_of(flags@),
            kind,
            flags.len() as int,
        ),
        result matches Err(rejection) ==> {
            &&& rejection.index < flags.len()
            &&& !refused_before(names_of(flags@), kind, rejection.index as int)
            &&& meaning(flags[rejection.index as int].name@, kind) == Meaning::Wrong(
                rejection.fault,
            )
            &&& rejection.message@ == fault_message(rejection.fault, kind)
            &&& rejection.help@ == fault_help(
                rejection.fault,
                texts_of(flags@),
                rejection.index as int,
            )
        },
{
    let ghost names = names_of(flags@);
    let mut settings = Settings { as_dummy: false, impl_fn: None };
    let mut i: usize = 0;
    while i < flags.len()
        invariant
            i <= flags.len(),
            names == names_of(flags@),
            !refused_before(names, kind, i as int),
            settings == asked(names, kind, i as int),
        decreases flags.len() - i,
    {
        match meaning_of(flags[i].name.as_str(), kind) {
            Meaning::ImplFn => {
                settings.impl_fn = Some(i);
            },
            Meaning::AsDummy => {
                settings.as_dummy = true;
            },
            Meaning::Kind => {},
            Meaning::Wrong(fault) => {
                let rejection = reject(flags, i, fault, kind);
                proof {
                    assert(meaning(names[i as int], kind) is Wrong);
                    assert(refused_before(names, kind, flags.len() as int));
                }
                return Err(rejection);
            },
        }
        i += 1;
    }
    Ok(settings)
}

/// Where the kind of a macro is declared among the names of its attributes
/// and flags: nowhere, at one place, or, wrongly, at two.
#[derive(Clone, Copy, Debug, PartialEq, Eq, Structural)]
pub enum Declared {
    /// No name declares a kind.
    Nowhere,
    /// The name at `at`, and no other, declares the kind.
    Once { kind: ProcMacroType, at: usize },
    /// The names at `first` and at `second` both declare a kind, and no
    /// name before `second` but the one at `first` does.
    Twice { first: usize, second: usize },
}

/// Whether none of the names from `from` up to `to` declares a kind.
pub open spec fn none_declares(names: Seq<Seq<char>>, from: int, to: int) -> bool {
    forall|i: int| from <= i < to ==> #[trigger] ProcMacroType::named(names[i]) is None
}

/// Whether `declared` says where the kind is declared among `names`.
pub open spec fn declares(names: Seq<Seq<char>>, declared: Declared) -> bool {
    match declared {
        Declared::Nowhere => none_declares(names, 0, names.len() as int),
        Declared::Once { kind, at } => {
            &&& at < names.len()
            &&& ProcMacroType::named(names[at as int]) == Some(kind)
            &&& none_declares(names, 0, at as int)
            &&& none_declares(names, at + 1, names.len() as int)
        },
        Declared::Twice { first, second } => {
            &&& first < second < names.len()
            &&& ProcMacroType::named(names[first as int]) is Some
            &&& ProcMacroType::named(names[second as int]) is Some
            &&& none_declares(names, 0, first as int)
            &&& none_declares(names, first + 1, second as int)
        },
    }
}

/// Finds where the kind of a macro is declared among the names of its
/// attributes and flags, read in order.
pub fn declared_kind(names: &Vec<String>) -> (declared: Declared)
    ensures
        declares(string_views(names@), declared),
{
    let ghost all = string_views(names@);
    let mut found: Option<(ProcMacroType, usize)> = None;
    let mut i: usize = 0;
    while i < names.len()
        invariant
            i <= names.len(),
            all == string_views(names@),
            match found {
                None => none_declares(all, 0, i as int),
                Some((kind, at)) => {
                    &&& at < i
                    &&& ProcMacroType::named(all[at as int]) == Some(kind)
                    &&& none_declares(all, 0, at as int)
                    &&& none_declares(all, at + 1, i as int)
                },
            },
        decreases names.len() - i,
    {
        match ProcMacroType::from_name(names[i].as_str()) {
            None => {},
            Some(kind) => {
                match found {
                    Some((_, first)) => {
                        return Declared::Twice { first, second: i };
                    },
                    None => {
                        found = Some((kind, i));
                    },
                }
            },
        }
        i += 1;
    }
    match found {
        None => Declared::Nowhere,
        Some((kind, at)) => Declared::Once { kind, at },
    }
}

impl Declared {
    /// What is reported where the kind is declared nowhere, or twice;
    /// nothing where it is declared once.
    pub open spec fn message_text(self) -> Option<Seq<char>> {
        match self {
            Declared::Nowhere => Some(
                "expected proc_macro* attribute below `#[manyhow]` or a flag as parameter of the attribute"@,
            ),
            Declared::Once { .. } => None,
            Declared::Twice { .. } => Some("proc_macro kind specified multiple times"@),
        }
    }

    /// What is suggested under the report.
    pub open spec fn help_text(self) -> Option<Seq<char>> {
        match self {
            Declared::Nowhere => Some(
                "try adding `#[proc_macro]`, `#[proc_macro_attribute]`, or `#[proc_macro_derive]` below `#[manyhow]` or adding a flag to `#[manyhow]`, i.e., `#[manyhow(proc_macro)]`, `#[manyhow(proc_macro_attribute)]` or `#[manyhow(proc_macro_derive)]` "@,
            ),
            Declared::Once { .. } => None,
            Declared::Twice { .. } => Some("try removing this"@),
        }
    }

    /// What is reported where the kind is declared nowhere, or twice.
    pub fn message(self) -> (text: Option<&'static str>)
        ensures
            match text {
                Some(text) => self.message_text() == Some(text@),
                None => self.message_text() is None,
            },
    {
        match self {
            Declared::Nowhere => Some(
                "expected proc_macro* attribute below `#[manyhow]` or a flag as parameter of the attribute",
            ),
            Declared::Once { .. } => None,
            Declared::Twice { .. } => Some("proc_macro kind specified multiple times"),
        }
    }

    /// What is suggested under the report.
    pub fn help(self) -> (text: Option<&'static str>)
        ensures
            match text {
                Some(text) => self.help_text() == Some(text@),
                None => self.help_text() is None,
            },
    {
        match self {
            Declared::Nowhere => Some(
                "try adding `#[proc_macro]`, `#[proc_macro_attribute]`, or `#[proc_macro_derive]` below `#[manyhow]` or adding a flag to `#[manyhow]`, i.e., `#[manyhow(proc_macro)]`, `#[manyhow(proc_macro_attribute)]` or `#[manyhow(proc_macro_derive)]` ",
            ),
            Declared::Once { .. } => None,
            Declared::Twice { .. } => Some("try removing this"),
        }
    }
}

/// What is suggested where `impl_fn`, the flag at `index`, was given for a
/// `use`: the attribute without that flag.
pub open spec fn impl_fn_help(texts: Seq<Seq<char>>, index: int) -> Seq<char> {
    "try `#[manyhow"@ + replaced(texts, index, None) + "]"@
}

/// What is suggested where `impl_fn`, the flag at `index`, was given for a
/// `use`.
pub fn help_without_impl_fn(flags: &Vec<Param>, index: usize) -> (help: String)
    requires
        index < flags.len(),
    ensures
        help@ == impl_fn_help(texts_of(flags@), index as int),
{
    let mut help: Vec<char> = Vec::new();
    push_text(&mut help, "try `#[manyhow");
    let list = flags_replace(flags, index, None);
    push_text(&mut help, list.as_str());
    push_text(&mut help, "]");
    string_of(&help)
}

} // verus!
