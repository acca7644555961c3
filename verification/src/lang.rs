//! The languages and kinds of item that can be searched for, each with its
//! grammar and its query pattern.

use vstd::prelude::*;
use vstd::std_specs::convert::FromSpecImpl;
use crate::error::SearchError;
use crate::syntax::grammar_number;
use crate::text::chars_of;

verus! {

/// A programming language whose sources can be searched.
#[derive(Clone, Copy, Debug, PartialEq, Eq, Structural)]
pub enum ProgLanguage {
    Python,
    Rust,
}

/// A kind of item, together with the language it belongs to.
#[derive(Clone, Copy, Debug, PartialEq, Eq, Structural)]
pub enum ProgItem {
    Rust(RustProgItem),
    Python(PythonProgItem),
}

/// The kinds of item of Python sources.
#[derive(Clone, Copy, Debug, PartialEq, Eq, Structural)]
pub enum PythonProgItem {
    Function,
    Class,
    Method,
    Decorator,
    Generator,
    Comprehension,
}

/// The kinds of item of Rust sources.
#[derive(Clone, Copy, Debug, PartialEq, Eq, Structural)]
pub enum RustProgItem {
    Function,
    Struct,
    Enum,
    Trait,
    Impl,
    Macro,
    Const,
    Static,
    TypeAlias,
}

/// The language that a kind of item belongs to.
pub open spec fn language_of(item: ProgItem) -> ProgLanguage {
    match item {
        ProgItem::Rust(_) => ProgLanguage::Rust,
        ProgItem::Python(_) => ProgLanguage::Python,
    }
}

impl From<ProgItem> for ProgLanguage {
    /// The language of a kind of item.
    fn from(value: ProgItem) -> (language: Self) {
        match value {
            ProgItem::Rust(_) => ProgLanguage::Rust,
            ProgItem::Python(_) => ProgLanguage::Python,
        }
    }
}

impl FromSpecImpl<ProgItem> for ProgLanguage {
    open spec fn obeys_from_spec() -> bool {
        true
    }

    open spec fn from_spec(value: ProgItem) -> Self {
        language_of(value)
    }
}

/// The small letter of a capital letter of the ASCII alphabet; any other
/// character itself.
pub open spec fn ascii_lowercase(c: char) -> char {
    if 'A' <= c <= 'Z' {
        ((c as u8) + 32) as char
    } else {
        c
    }
}

/// A text with its ASCII capital letters made small.
pub open spec fn lowercased(text: Seq<char>) -> Seq<char> {
    text.map_values(|c: char| ascii_lowercase(c))
}

/// The language that a name stands for, whatever the case of its letters:
/// `python` or `rust`.
pub open spec fn language_named(name: Seq<char>) -> Option<ProgLanguage> {
    if lowercased(name) == "python"@ {
        Some(ProgLanguage::Python)
    } else if lowercased(name) == "rust"@ {
        Some(ProgLanguage::Rust)
    } else {
        None
    }
}

/// Makes a capital letter of the ASCII alphabet small.
fn to_ascii_lowercase(c: char) -> (small: char)
    ensures
        small == ascii_lowercase(c),
{
    if 'A' <= c && c <= 'Z' {
        ((c as u8) + 32) as char
    } else {
        c
    }
}

/// Tells whether `name` is `word` but for the case of its ASCII letters.
pub fn is_name(name: &Vec<char>, word: &str) -> (same: bool)
    ensures
        same == (lowercased(name@) == word@),
{
    let letters = chars_of(word);
    if letters.len() != name.len() {
        return false;
    }
    let mut i: usize = 0;
    while i < name.len()
        invariant
            i <= name.len(),
            letters.len() == name.len(),
            letters@ == word@,
            forall|j: int| 0 <= j < i ==> ascii_lowercase(name@[j]) == letters@[j],
        decreases name.len() - i,
    {
        if to_ascii_lowercase(name[i]) != letters[i] {
            assert(lowercased(name@)[i as int] != word@[i as int]);
            return false;
        }
        i += 1;
    }
    assert(lowercased(name@) =~= word@);
    true
}

impl core::str::FromStr for ProgLanguage {
    type Err = SearchError;

    /// The language that `s` names, in capital or small letters; a
    /// `Configuration` error where `s` names none.
    fn from_str(s: &str) -> (language: Result<Self, Self::Err>)
        ensures
            language == match language_named(s@) {
                Some(named) => Ok::<ProgLanguage, SearchError>(named),
                None => Err::<ProgLanguage, SearchError>(SearchError::Configuration),
            },
    {
        match ProgLanguage::from_name(s) {
            Some(language) => Ok(language),
            None => Err(SearchError::Configuration),
        }
    }
}

impl ProgLanguage {
    /// The language that `name` stands for, in capital or small letters.
    pub fn from_name(name: &str) -> (language: Option<ProgLanguage>)
        ensures
            language == language_named(name@),
    {
        let letters = chars_of(name);
        if is_name(&letters, "python") {
            Some(ProgLanguage::Python)
        } else if is_name(&letters, "rust") {
            Some(ProgLanguage::Rust)
        } else {
            None
        }
    }

    /// The grammar that parses sources of this language: that of Python
    /// for Python, that of Rust for Rust.
    pub fn tree_sitter_language(&self) -> (grammar: tree_sitter::Language)
        ensures
            grammar_number(grammar) == grammar_index(*self),
    {
        match self {
            ProgLanguage::Python => tree_sitter_python::language(),
            ProgLanguage::Rust => tree_sitter_rust::language(),
        }
    }

    /// The file extensions of sources of this language.
    pub fn file_extensions(&self) -> (extensions: Vec<&'static str>)
        ensures
            names_of(extensions@) == extensions_of(*self),
    {
        let mut extensions: Vec<&'static str> = Vec::new();
        match self {
            ProgLanguage::Python => {
                extensions.push("py");
            },
            ProgLanguage::Rust => {
                extensions.push("rs");
            },
        }
        assert(names_of(extensions@) =~= extensions_of(*self));
        extensions
    }

    /// The names of the directories that hold no sources of this language
    /// worth searching.
    pub fn get_excluded_directories(&self) -> (excluded: Vec<&'static str>)
        ensures
            names_of(excluded@) == excluded_directories_of(*self),
    {
        let mut excluded: Vec<&'static str> = Vec::new();
        match self {
            ProgLanguage::Python => {
                excluded.push("site-packages");
                excluded.push("venv");
                excluded.push("__pycache__");
                excluded.push(".pytest_cache");
            },
            ProgLanguage::Rust => {
                excluded.push("target");
                excluded.push(".cargo");
            },
        }
        assert(names_of(excluded@) =~= excluded_directories_of(*self));
        excluded
    }
}

/// The number of the grammar of a language.
pub open spec fn grammar_index(language: ProgLanguage) -> int {
    match language {
        ProgLanguage::Python => 0,
        ProgLanguage::Rust => 1,
    }
}

/// The texts of a list of names.
pub open spec fn names_of(names: Seq<&'static str>) -> Seq<Seq<char>> {
    names.map_values(|name: &'static str| name@)
}

/// The file extensions of the sources of a language.
pub open spec fn extensions_of(language: ProgLanguage) -> Seq<Seq<char>> {
    match language {
        ProgLanguage::Python => seq!["py"@],
        ProgLanguage::Rust => seq!["rs"@],
    }
}

/// The directories that are left out when sources of a language are looked for.
pub open spec fn excluded_directories_of(language: ProgLanguage) -> Seq<Seq<char>> {
    match language {
        ProgLanguage::Python => seq![
            "site-packages"@,
            "venv"@,
            "__pycache__"@,
            ".pytest_cache"@,
        ],
        ProgLanguage::Rust => seq!["target"@, ".cargo"@],
    }
}

/// The query pattern that finds the items of a kind in a syntax tree. The
/// patterns are given as they are; whether the grammar of the language has
/// the node types that a pattern names is for the parser library to say,
/// and a search with a pattern that does not fit ends in a `Configuration`
/// error.
pub open spec fn query_pattern(item: ProgItem) -> Seq<char> {
    match item {
        ProgItem::Python(kind) => match kind {
            PythonProgItem::Function => "(function_definition) @item"@,
            PythonProgItem::Class => "(class_definition) @item"@,
            PythonProgItem::Method => "(class_definition method_definition) @item"@,
            PythonProgItem::Decorator => "(decorator) @item"@,
            PythonProgItem::Generator => "(function_definition yield) @item"@,
            PythonProgItem::Comprehension =>
                "(list_comprehension set_comprehension dictionary_comprehension) @item"@,
        },
        ProgItem::Rust(kind) => match kind {
            RustProgItem::Function => "(function_item) @item"@,
            RustProgItem::Struct => "(struct_item) @item"@,
            RustProgItem::Enum => "(enum_item) @item"@,
            RustProgItem::Trait => "(trait_item) @item"@,
            RustProgItem::Impl => "(impl_item) @item"@,
            RustProgItem::Macro => "(macro_definition) @item"@,
            RustProgItem::Const => "(const_item) @item"@,
            RustProgItem::Static => "(static_item) @item"@,
            RustProgItem::TypeAlias => "(type_alias) @item"@,
        },
    }
}

impl ProgItem {
    /// The query pattern for this kind of item, in the S-expression syntax
    /// of the parser library.
    pub fn to_sexpr(&self) -> (pattern: String)
        ensures
            pattern@ == query_pattern(*self),
    {
        let text: &'static str = match self {
            ProgItem::Python(kind) => match kind {
                PythonProgItem::Function => "(function_definition) @item",
                PythonProgItem::Class => "(class_definition) @item",
                PythonProgItem::Method => "(class_definition method_definition) @item",
                PythonProgItem::Decorator => "(decorator) @item",
                PythonProgItem::Generator => "(function_definition yield) @item",
                PythonProgItem::Comprehension =>
                    "(list_comprehension set_comprehension dictionary_comprehension) @item",
            },
            ProgItem::Rust(kind) => match kind {
                RustProgItem::Function => "(function_item) @item",
                RustProgItem::Struct => "(struct_item) @item",
                RustProgItem::Enum => "(enum_item) @item",
                RustProgItem::Trait => "(trait_item) @item",
                RustProgItem::Impl => "(impl_item) @item",
                RustProgItem::Macro => "(macro_definition) @item",
                RustProgItem::Const => "(const_item) @item",
                RustProgItem::Static => "(static_item) @item",
                RustProgItem::TypeAlias => "(type_alias) @item",
            },
        };
        text.to_owned()
    }
}

} // verus!
