//! The shape of what the attribute `#[manyhow]` reads: the list of its flags,
//! and the item under it, which is a function or a `use` of one.
//!
//! Both are read as the token trees they are made of. A tree is told apart by
//! its kind, an identifier also by its text and a punctuation character by
//! its character; nothing else of a tree matters here.

use crate::text::{push_text, same_text, string_of};
use proc_macro2::Delimiter;
use vstd::prelude::*;

verus! {

/// One token tree, as far as the shape of an item depends on it.
pub enum Tree {
    /// An identifier with its text.
    Ident(String),
    /// A punctuation character.
    Punct(char),
    /// A literal.
    Literal,
    /// A group between the given brackets.
    Group(Delimiter),
}

/// Whether `tree` is the identifier `word`.
pub open spec fn is_word(tree: Tree, word: Seq<char>) -> bool {
    tree matches Tree::Ident(text) && text@ == word
}

/// Whether `tree` is the punctuation character `ch`.
pub open spec fn is_punct(tree: Tree, ch: char) -> bool {
    tree matches Tree::Punct(found) && found == ch
}

/// Whether the tree at `at` is the identifier `word`.
pub open spec fn word_at(trees: Seq<Tree>, at: int, word: Seq<char>) -> bool {
    0 <= at < trees.len() && is_word(trees[at], word)
}

/// Whether the tree at `at` is the punctuation character `ch`.
pub open spec fn punct_at(trees: Seq<Tree>, at: int, ch: char) -> bool {
    0 <= at < trees.len() && is_punct(trees[at], ch)
}

/// Whether the tree at `at` is an identifier.
pub open spec fn ident_at(trees: Seq<Tree>, at: int) -> bool {
    0 <= at < trees.len() && trees[at] is Ident
}

/// Whether the tree at `at` is a group.
pub open spec fn group_at(trees: Seq<Tree>, at: int) -> bool {
    0 <= at < trees.len() && trees[at] is Group
}

/// Whether the tree at `at` is a group between the given brackets.
pub open spec fn delimited_at(trees: Seq<Tree>, at: int, delimiter: Delimiter) -> bool {
    0 <= at < trees.len() && trees[at] == Tree::Group(delimiter)
}

/// Whether the tree at `at` is the identifier `word`.
fn has_word(trees: &Vec<Tree>, at: usize, word: &str) -> (found: bool)
    ensures
        found == word_at(trees@, at as int, word@),
{
    if at >= trees.len() {
        return false;
    }
    match &trees[at] {
        Tree::Ident(text) => same_text(text.as_str(), word),
        _ => false,
    }
}

/// Whether the tree at `at` is the punctuation character `ch`.
fn has_punct(trees: &Vec<Tree>, at: usize, ch: char) -> (found: bool)
    ensures
        found == punct_at(trees@, at as int, ch),
{
    if at >= trees.len() {
        return false;
    }
    match &trees[at] {
        Tree::Punct(found) => *found == ch,
        _ => false,
    }
}

/// Whether the tree at `at` is an identifier.
fn has_ident(trees: &Vec<Tree>, at: usize) -> (found: bool)
    ensures
        found == ident_at(trees@, at as int),
{
    if at >= trees.len() {
        return false;
    }
    match &trees[at] {
        Tree::Ident(_) => true,
        _ => false,
    }
}

/// Whether the tree at `at` is a group.
fn has_group(trees: &Vec<Tree>, at: usize) -> (found: bool)
    ensures
        found == group_at(trees@, at as int),
{
    if at >= trees.len() {
        return false;
    }
    match &trees[at] {
        Tree::Group(_) => true,
        _ => false,
    }
}

/// Whether the tree at `at` is a group between the given brackets.
fn has_delimited(trees: &Vec<Tree>, at: usize, delimiter: Delimiter) -> (found: bool)
    ensures
        found == delimited_at(trees@, at as int, delimiter),
{
    if at >= trees.len() {
        return false;
    }
    match &trees[at] {
        Tree::Group(found) => match (found, delimiter) {
            (Delimiter::Parenthesis, Delimiter::Parenthesis) => true,
            (Delimiter::Brace, Delimiter::Brace) => true,
            (Delimiter::Bracket, Delimiter::Bracket) => true,
            (Delimiter::None, Delimiter::None) => true,
            _ => false,
        },
        _ => false,
    }
}

/// Where the attributes at the start of an item end: behind the last pair
/// of a `#` and a group in square brackets, counted from `from`.
pub open spec fn attributes_end(trees: Seq<Tree>, from: int) -> int
    decreases trees.len() - from,
{
    if 0 <= from && punct_at(trees, from, '#') && delimited_at(trees, from + 1, Delimiter::Bracket) {
        attributes_end(trees, from + 2)
    } else {
        from
    }
}

/// The first place from `from` on where a group in braces stands; the
/// number of trees where there is none.
pub open spec fn first_braced(trees: Seq<Tree>, from: int) -> int
    decreases trees.len() - from,
{
    if 0 <= from < trees.len() && !delimited_at(trees, from, Delimiter::Brace) {
        first_braced(trees, from + 1)
    } else if from < trees.len() {
        from
    } else {
        trees.len() as int
    }
}

/// How an item is made up. Places count token trees from the start of the
/// item; `start` is where the attributes of the item end.
#[derive(Clone, Copy, Debug, PartialEq, Eq, Structural)]
pub enum Shape {
    /// `use path::to::name;`, with `pub` before it where `public` is set.
    /// The path runs from behind `use` up to `name`, which is its last tree,
    /// and the semicolon follows.
    Use { start: usize, public: bool, name: usize },
    /// `fn name(..) -> Type {..}`, with `pub` before it where `public` is
    /// set. `name` is followed by the parameters and the arrow; the return
    /// type runs from behind the arrow up to `body`, which is the last tree.
    Function { start: usize, public: bool, name: usize, body: usize },
}

/// Why an item is refused. Places count token trees from the start of the
/// item.
#[derive(Clone, Copy, Debug, PartialEq, Eq, Structural)]
pub enum Fault {
    /// The trees are no item that the compiler hands to an attribute.
    Malformed,
    /// Neither `use` nor `fn` stands where the item should start; `found`
    /// is what stands there, if anything does.
    ExpectedFunction { found: Option<usize> },
    /// No name follows `fn`; `found` is what stands there, if anything
    /// does.
    ExpectedFunctionName { found: Option<usize> },
    /// Generics follow the name, at `at`.
    Generics { at: usize },
    /// No arrow follows the parameters, which stand at `params`.
    ExpectedReturnType { params: usize },
    /// The path of a `use` ends in something other than a name, at `at`.
    UseOfSeveral { at: usize },
    /// The flag `impl_fn` was given for a `use`.
    ImplFnOnUse,
}

/// The shape of a `use` that starts at `at`, behind the attributes that end
/// at `start`.
pub open spec fn use_shape(trees: Seq<Tree>, start: int, public: bool, at: int, impl_fn: bool) -> Result<
    Shape,
    Fault,
> {
    let last = trees.len() - 1;
    if impl_fn {
        Err(Fault::ImplFnOnUse)
    } else if last < at + 2 || !punct_at(trees, last, ';') {
        Err(Fault::Malformed)
    } else if !ident_at(trees, last - 1) {
        Err(Fault::UseOfSeveral { at: (last - 1) as usize })
    } else {
        Ok(Shape::Use { start: start as usize, public, name: (last - 1) as usize })
    }
}

/// The shape of a function that starts at `at`, behind the attributes that
/// end at `start`.
pub open spec fn function_shape(trees: Seq<Tree>, start: int, public: bool, at: int) -> Result<
    Shape,
    Fault,
> {
    let body = first_braced(trees, at + 5);
    if at >= trees.len() {
        Err(Fault::ExpectedFunction { found: None })
    } else if !word_at(trees, at, "fn"@) {
        Err(Fault::ExpectedFunction { found: Some(at as usize) })
    } else if at + 1 >= trees.len() {
        Err(Fault::ExpectedFunctionName { found: None })
    } else if !ident_at(trees, at + 1) {
        Err(Fault::ExpectedFunctionName { found: Some((at + 1) as usize) })
    } else if punct_at(trees, at + 2, '<') {
        Err(Fault::Generics { at: (at + 2) as usize })
    } else if !group_at(trees, at + 2) {
        Err(Fault::Malformed)
    } else if !(punct_at(trees, at + 3, '-') && punct_at(trees, at + 4, '>')) {
        Err(Fault::ExpectedReturnType { params: (at + 2) as usize })
    } else if body == at + 5 || body != trees.len() - 1 {
        Err(Fault::Malformed)
    } else {
        Ok(
            Shape::Function {
                start: start as usize,
                public,
                name: (at + 1) as usize,
                body: body as usize,
            },
        )
    }
}

/// The shape of an item: its attributes, then `pub` or not, then a `use` or
/// a function. `impl_fn` tells that the implementation is to get a function
/// of its own, which a `use` cannot have.
pub open spec fn shape_of(trees: Seq<Tree>, impl_fn: bool) -> Result<Shape, Fault> {
    let start = attributes_end(trees, 0);
    let public = word_at(trees, start, "pub"@);
    let at = if public {
        start + 1
    } else {
        start
    };
    if punct_at(trees, start, '#') {
        Err(Fault::Malformed)
    } else if word_at(trees, at, "use"@) {
        use_shape(trees, start, public, at, impl_fn)
    } else {
        function_shape(trees, start, public, at)
    }
}

/// Finds where the attributes at the start of an item end.
fn skip_attributes(trees: &Vec<Tree>) -> (end: usize)
    ensures
        end == attributes_end(trees@, 0),
        end <= trees.len(),
{
    let mut at: usize = 0;
    while at < trees.len() && has_punct(trees, at, '#') && has_delimited(
        trees,
        at + 1,
        Delimiter::Bracket,
    )
        invariant
            at <= trees.len(),
            attributes_end(trees@, 0) == attributes_end(trees@, at as int),
        decreases trees.len() - at,
    {
        at += 2;
    }
    at
}

/// Finds where the attributes at the start of an item end. The item is
/// refused where a `#` stands there without its brackets.
pub fn read_attributes(trees: &Vec<Tree>) -> (result: Result<usize, Fault>)
    ensures
        match result {
            Ok(end) => end == attributes_end(trees@, 0) && end <= trees.len() && !punct_at(
                trees@,
                end as int,
                '#',
            ),
            Err(fault) => fault == Fault::Malformed && punct_at(
                trees@,
                attributes_end(trees@, 0),
                '#',
            ),
        },
{
    let end = skip_attributes(trees);
    if has_punct(trees, end, '#') {
        Err(Fault::Malformed)
    } else {
        Ok(end)
    }
}

/// Finds the first group in braces from `from` on.
fn find_braced(trees: &Vec<Tree>, from: usize) -> (at: usize)
    ensures
        at == first_braced(trees@, from as int),
        at <= trees.len(),
{
    if from >= trees.len() {
        return trees.len();
    }
    let mut at: usize = from;
    while at < trees.len() && !has_delimited(trees, at, Delimiter::Brace)
        invariant
            from <= at <= trees.len(),
            first_braced(trees@, from as int) == first_braced(trees@, at as int),
        decreases trees.len() - at,
    {
        at += 1;
    }
    at
}

/// Reads the shape of an item from its token trees.
///
/// The first thing that does not fit is what the item is refused for.
pub fn read_item(trees: &Vec<Tree>, impl_fn: bool) -> (result: Result<Shape, Fault>)
    requires
        trees.len() < usize::MAX - 8,
    ensures
        result == shape_of(trees@, impl_fn),
{
    let start = skip_attributes(trees);
    if has_punct(trees, start, '#') {
        return Err(Fault::Malformed);
    }
    let public = has_word(trees, start, "pub");
    let at = if public {
        start + 1
    } else {
        start
    };
    let len = trees.len();
    if has_word(trees, at, "use") {
        if impl_fn {
            return Err(Fault::ImplFnOnUse);
        }
        if len < at + 3 || !has_punct(trees, len - 1, ';') {
            return Err(Fault::Malformed);
        }
        if !has_ident(trees, len - 2) {
            return Err(Fault::UseOfSeveral { at: len - 2 });
        }
        return Ok(Shape::Use { start, public, name: len - 2 });
    }
    if at >= len {
        return Err(Fault::ExpectedFunction { found: None });
    }
    if !has_word(trees, at, "fn") {
        return Err(Fault::ExpectedFunction { found: Some(at) });
    }
    if at + 1 >= len {
        return Err(Fault::ExpectedFunctionName { found: None });
    }
    if !has_ident(trees, at + 1) {
        return Err(Fault::ExpectedFunctionName { found: Some(at + 1) });
    }
    if has_punct(trees, at + 2, '<') {
        return Err(Fault::Generics { at: at + 2 });
    }
    if !has_group(trees, at + 2) {
        return Err(Fault::Malformed);
    }
    if !(has_punct(trees, at + 3, '-') && has_punct(trees, at + 4, '>')) {
        return Err(Fault::ExpectedReturnType { params: at + 2 });
    }
    let body = find_braced(trees, at + 5);
    if body == at + 5 || body + 1 != len {
        return Err(Fault::Malformed);
    }
    Ok(Shape::Function { start, public, name: at + 1, body })
}

/// The name of the function that holds the implementation where it gets a
/// function of its own: the name of the macro with `_impl` behind it.
pub open spec fn impl_name(name: Seq<char>) -> Seq<char> {
    name + "_impl"@
}

/// The name of the function that holds the implementation where it gets a
/// function of its own.
pub fn implementation_name(name: &str) -> (text: String)
    ensures
        text@ == impl_name(name@),
{
    let mut out: Vec<char> = Vec::new();
    push_text(&mut out, name);
    push_text(&mut out, "_impl");
    string_of(&out)
}

/// One flag in the list of flags: where its name stands and, for a flag
/// with arguments, where they stand.
#[derive(Clone, Copy, Debug, PartialEq, Eq, Structural)]
pub struct FlagAt {
    pub name: usize,
    pub arguments: Option<usize>,
}

/// Why a list of flags is refused.
#[derive(Clone, Copy, Debug, PartialEq, Eq, Structural)]
pub enum ListFault {
    /// Something other than a name stands where a flag should, at `at`.
    NotAFlag { at: usize },
    /// `proc_macro_derive` is not followed by the name of a trait in
    /// brackets; `at` is what follows it, or the flag itself where nothing
    /// does.
    DeriveWithoutTrait { at: usize },
}

/// What reading a list of flags gives: the flags that were read, in
/// order, and what the list is refused for, if it is. Reading ends at the
/// first thing that does not fit.
pub type Reading = (Seq<FlagAt>, Option<ListFault>);

/// What reading the list from `from` on gives. A flag is a name, with a
/// comma behind it or not; `proc_macro_derive` is followed by a group.
pub open spec fn flags_from(trees: Seq<Tree>, from: int) -> Reading
    decreases trees.len() - from,
{
    if from < 0 || from >= trees.len() {
        (Seq::empty(), None)
    } else if !ident_at(trees, from) {
        (Seq::empty(), Some(ListFault::NotAFlag { at: from as usize }))
    } else if word_at(trees, from, "proc_macro_derive"@) && !group_at(trees, from + 1) {
        (
            Seq::empty(),
            Some(
                ListFault::DeriveWithoutTrait {
                    at: if from + 1 < trees.len() {
                        (from + 1) as usize
                    } else {
                        from as usize
                    },
                },
            ),
        )
    } else {
        let with_arguments = word_at(trees, from, "proc_macro_derive"@);
        let behind = if with_arguments {
            from + 2
        } else {
            from + 1
        };
        let next = if punct_at(trees, behind, ',') {
            behind + 1
        } else {
            behind
        };
        let flag = FlagAt {
            name: from as usize,
            arguments: if with_arguments {
                Some((from + 1) as usize)
            } else {
                None
            },
        };
        let rest = flags_from(trees, next);
        (seq![flag] + rest.0, rest.1)
    }
}

/// The flags of a list that were read, and what the list is refused for,
/// if it is.
pub struct Flags {
    pub read: Vec<FlagAt>,
    pub fault: Option<ListFault>,
}

/// Reads the list of flags from its token trees, up to the first thing
/// that does not fit.
pub fn read_flags(trees: &Vec<Tree>) -> (flags: Flags)
    requires
        trees.len() < usize::MAX - 8,
    ensures
        (flags.read@, flags.fault) == flags_from(trees@, 0),
{
    let mut read: Vec<FlagAt> = Vec::new();
    let mut at: usize = 0;
    while at < trees.len()
        invariant
            at <= trees.len() + 1,
            trees.len() < usize::MAX - 8,
            flags_from(trees@, 0) == (
                read@ + flags_from(trees@, at as int).0,
                flags_from(trees@, at as int).1,
            ),
        decreases trees.len() + 1 - at,
    {
        if !has_ident(trees, at) {
            proof {
                assert(read@ + Seq::<FlagAt>::empty() =~= read@);
            }
            return Flags { read, fault: Some(ListFault::NotAFlag { at }) };
        }
        let with_arguments = has_word(trees, at, "proc_macro_derive");
        if with_arguments && !has_group(trees, at + 1) {
            let fault = if at + 1 < trees.len() {
                at + 1
            } else {
                at
            };
            proof {
                assert(read@ + Seq::<FlagAt>::empty() =~= read@);
            }
            return Flags { read, fault: Some(ListFault::DeriveWithoutTrait { at: fault }) };
        }
        let behind = if with_arguments {
            at + 2
        } else {
            at + 1
        };
        let next = if has_punct(trees, behind, ',') {
            behind + 1
        } else {
            behind
        };
        let flag = FlagAt {
            name: at,
            arguments: if with_arguments {
                Some(at + 1)
            } else {
                None
            },
        };
        proof {
            let rest = flags_from(trees@, next as int);
            assert(flags_from(trees@, at as int) == (seq![flag] + rest.0, rest.1));
            assert(read@.push(flag) + rest.0 =~= read@ + (seq![flag] + rest.0));
        }
        read.push(flag);
        at = next;
    }
    proof {
        assert(read@ + Seq::<FlagAt>::empty() =~= read@);
    }
    Flags { read, fault: None }
}

impl Fault {
    /// What is reported for an item that is refused for this.
    pub open spec fn message_text(self) -> Seq<char> {
        match self {
            Fault::Malformed => "expected a function or a use statement"@,
            Fault::ExpectedFunction { .. } => "expected function"@,
            Fault::ExpectedFunctionName { .. } => "expected function name"@,
            Fault::Generics { .. } => "proc macros cannot have generics"@,
            Fault::ExpectedReturnType { .. } => "expected return type"@,
            Fault::UseOfSeveral { .. } =>
                "only use statements for a single function, i.e., `use ...::fn_name;` are supported"@,
            Fault::ImplFnOnUse => "`impl_fn` is not supported on use statements"@,
        }
    }

    /// What is suggested under the report, where something is. For
    /// `impl_fn` on a `use` the suggestion is the list of flags without it,
    /// which is not written here.
    pub open spec fn help_text(self) -> Option<Seq<char>> {
        match self {
            Fault::ExpectedReturnType { .. } => Some(
                "try adding either `-> TokenStream` or `-> manyhow::Result`"@,
            ),
            Fault::UseOfSeveral { .. } => Some("try splitting the use statment"@),
            _ => None,
        }
    }

    /// What is reported for an item that is refused for this.
    pub fn message(self) -> (text: &'static str)
        ensures
            text@ == self.message_text(),
    {
        match self {
            Fault::Malformed => "expected a function or a use statement",
            Fault::ExpectedFunction { .. } => "expected function",
            Fault::ExpectedFunctionName { .. } => "expected function name",
            Fault::Generics { .. } => "proc macros cannot have generics",
            Fault::ExpectedReturnType { .. } => "expected return type",
            Fault::UseOfSeveral { .. } =>
                "only use statements for a single function, i.e., `use ...::fn_name;` are supported",
            Fault::ImplFnOnUse => "`impl_fn` is not supported on use statements",
        }
    }

    /// What is suggested under the report, where something is.
    pub fn help(self) -> (text: Option<&'static str>)
        ensures
            match text {
                Some(text) => self.help_text() == Some(text@),
                None => self.help_text() is None,
            },
    {
        match self {
            Fault::ExpectedReturnType { .. } => Some(
                "try adding either `-> TokenStream` or `-> manyhow::Result`",
            ),
            Fault::UseOfSeveral { .. } => Some("try splitting the use statment"),
            _ => None,
        }
    }
}

impl ListFault {
    /// What is reported for a list of flags that is refused for this.
    pub open spec fn message_text(self) -> Seq<char> {
        match self {
            ListFault::NotAFlag { .. } => "manyhow expects a comma seperated list of flags"@,
            ListFault::DeriveWithoutTrait { .. } => "`proc_macro_derive` expects `(TraitName)`"@,
        }
    }

    /// What is suggested under the report.
    pub open spec fn help_text(self) -> Seq<char> {
        match self {
            ListFault::NotAFlag { .. } => "try `#[manyhow(impl_fn)]`"@,
            ListFault::DeriveWithoutTrait { .. } =>
                "try `#[manyhow(proc_macro_derive(YourTraitName))]`"@,
        }
    }

    /// What is reported for a list of flags that is refused for this.
    pub fn message(self) -> (text: &'static str)
        ensures
            text@ == self.message_text(),
    {
        match self {
            ListFault::NotAFlag { .. } => "manyhow expects a comma seperated list of flags",
            ListFault::DeriveWithoutTrait { .. } => "`proc_macro_derive` expects `(TraitName)`",
        }
    }

    /// What is suggested under the report.
    pub fn help(self) -> (text: &'static str)
        ensures
            text@ == self.help_text(),
    {
        match self {
            ListFault::NotAFlag { .. } => "try `#[manyhow(impl_fn)]`",
            ListFault::DeriveWithoutTrait { .. } =>
                "try `#[manyhow(proc_macro_derive(YourTraitName))]`",
        }
    }
}

} // verus!
