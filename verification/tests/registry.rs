use mechatyper::lang::{ProgItem, ProgLanguage, PythonProgItem, RustProgItem};

#[test]
fn each_kind_has_its_pattern() {
    let python = [
        (PythonProgItem::Function, "(function_definition) @item"),
        (PythonProgItem::Class, "(class_definition) @item"),
        (PythonProgItem::Method, "(class_definition method_definition) @item"),
        (PythonProgItem::Decorator, "(decorator) @item"),
        (PythonProgItem::Generator, "(function_definition yield) @item"),
        (
            PythonProgItem::Comprehension,
            "(list_comprehension set_comprehension dictionary_comprehension) @item",
        ),
    ];
    for (kind, pattern) in python {
        assert_eq!(ProgItem::Python(kind).to_sexpr(), pattern);
        assert_eq!(ProgLanguage::from(ProgItem::Python(kind)), ProgLanguage::Python);
    }
    let rust = [
        (RustProgItem::Function, "(function_item) @item"),
        (RustProgItem::Struct, "(struct_item) @item"),
        (RustProgItem::Enum, "(enum_item) @item"),
        (RustProgItem::Trait, "(trait_item) @item"),
        (RustProgItem::Impl, "(impl_item) @item"),
        (RustProgItem::Macro, "(macro_definition) @item"),
        (RustProgItem::Const, "(const_item) @item"),
        (RustProgItem::Static, "(static_item) @item"),
        (RustProgItem::TypeAlias, "(type_alias) @item"),
    ];
    for (kind, pattern) in rust {
        assert_eq!(ProgItem::Rust(kind).to_sexpr(), pattern);
        assert_eq!(ProgLanguage::from(ProgItem::Rust(kind)), ProgLanguage::Rust);
    }
}

#[test]
fn each_language_has_its_extensions_and_excluded_directories() {
    assert_eq!(ProgLanguage::Python.file_extensions(), vec!["py"]);
    assert_eq!(ProgLanguage::Rust.file_extensions(), vec!["rs"]);
    assert_eq!(
        ProgLanguage::Python.get_excluded_directories(),
        vec!["site-packages", "venv", "__pycache__", ".pytest_cache"]
    );
    assert_eq!(ProgLanguage::Rust.get_excluded_directories(), vec!["target", ".cargo"]);
}

#[test]
fn each_language_has_its_grammar() {
    assert_eq!(ProgLanguage::Python.tree_sitter_language(), tree_sitter_python::language());
    assert_eq!(ProgLanguage::Rust.tree_sitter_language(), tree_sitter_rust::language());
}
