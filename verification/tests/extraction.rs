use mechatyper::error::SearchError;
use mechatyper::lang::{ProgItem, ProgLanguage, PythonProgItem, RustProgItem};
use mechatyper::search::{
    extract_items, extract_sexpr_from_string, grammar_taken, items_from_matches, locate,
    parse_code, query_or_error, tree_or_error, CapturedNode, ItemEnd,
};

#[test]
fn test_extract_sexpr_from_string() {
    let code = r#"
import math

class CircleCalculator:
    def __init__(self, radius):
        self.radius = radius
        self.pi = 3.1415

    def calc_area(self):
        r = self.radius
        pi = self.pi
        a = pi * r * r
        return a

    def calc_circumference(self):
        r = self.radius
        pi = 3.1415
        c = 2 * pi * r
        return c"#;

    let functions =
        extract_sexpr_from_string(code, "", &ProgItem::Python(PythonProgItem::Function));
    let functions = functions.unwrap();
    for function in &functions {
        println!("{}", function.definition);
    }
    assert_eq!(functions.len(), 3);
    assert_eq!(
        functions[0].definition,
        "    def __init__(self, radius):\n        self.radius = radius\n        self.pi = 3.1415"
    );
    assert_eq!((functions[0].start_pos, functions[0].end_pos), (4, 6));
    assert_eq!((functions[1].start_pos, functions[1].end_pos), (8, 12));
    assert_eq!((functions[2].start_pos, functions[2].end_pos), (14, 18));
    assert_eq!(functions[2].end_byte, code.len());
}

#[test]
fn two_functions_and_one_class_give_two_functions() {
    let code = "def one():\n    return 1\n\nclass Two:\n    x = 2\n\ndef three():\n    return 3\n";
    let functions =
        extract_sexpr_from_string(code, "m.py", &ProgItem::Python(PythonProgItem::Function))
            .unwrap();
    assert_eq!(functions.len(), 2);
    assert_eq!(functions[0].definition, "def one():\n    return 1");
    assert_eq!(functions[1].definition, "def three():\n    return 3");
    assert_eq!(functions[0].filename, "m.py");
    let classes =
        extract_sexpr_from_string(code, "m.py", &ProgItem::Python(PythonProgItem::Class)).unwrap();
    assert_eq!(classes.len(), 1);
    assert_eq!((classes[0].start_pos, classes[0].end_pos), (3, 4));
    assert_eq!(classes[0].start_byte, 25);
}

#[test]
fn rust_items_are_found() {
    let code = "struct A;\n\nimpl A {\n    fn f(&self) -> u32 { 1 } // one\n}\n\nenum E { X }\n";
    let functions =
        extract_sexpr_from_string(code, "a.rs", &ProgItem::Rust(RustProgItem::Function)).unwrap();
    assert_eq!(functions.len(), 1);
    assert_eq!(functions[0].definition, "    fn f(&self) -> u32 { 1 }");
    assert_eq!((functions[0].start_pos, functions[0].end_pos), (3, 3));
    assert_eq!(functions[0].start_byte, 20);
    assert_eq!(functions[0].end_byte, 48);
    let enums =
        extract_sexpr_from_string(code, "a.rs", &ProgItem::Rust(RustProgItem::Enum)).unwrap();
    assert_eq!(enums.len(), 1);
    assert_eq!(enums[0].definition, "enum E { X }");
}

#[test]
fn a_pattern_that_the_grammar_lacks_is_a_configuration_error() {
    let found = extract_sexpr_from_string(
        "class A:\n    pass\n",
        "a.py",
        &ProgItem::Python(PythonProgItem::Method),
    );
    assert_eq!(found.err(), Some(SearchError::Configuration));
}

#[test]
fn source_is_parsed_with_the_grammar_of_the_item() {
    let parsed = parse_code("fn main() {}\n", &ProgItem::Rust(RustProgItem::Function));
    let (language, tree) = parsed.ok().unwrap();
    assert_eq!(language, ProgLanguage::Rust.tree_sitter_language());
    assert_eq!(tree.root_node().kind(), "source_file");
    let parsed = parse_code("x = 1\n", &ProgItem::Python(PythonProgItem::Function));
    let (language, tree) = parsed.ok().unwrap();
    assert_eq!(language, ProgLanguage::Python.tree_sitter_language());
    assert_eq!(tree.root_node().kind(), "module");
}

fn node(index: u32, start_byte: usize, end_byte: usize, start_row: usize, end_row: usize)
    -> CapturedNode {
    CapturedNode { index, start_byte, end_byte, start_row, end_row }
}

#[test]
fn an_item_begins_with_its_line_and_ends_with_its_node() {
    let source = "a = 1\n  @dec def f(): pass  # tail\nb\n";
    let item = locate(source, "f.py", &node(0, 13, 26, 1, 1), ItemEnd::AtNodeEnd).unwrap();
    assert_eq!(item.definition, "  @dec def f(): pass");
    assert_eq!(item.start_byte, 6);
    assert_eq!(item.end_byte, 26);
    assert_eq!((item.start_pos, item.end_pos), (1, 1));
    assert_eq!(item.filename, "f.py");
    let first = locate(source, "f.py", &node(0, 4, 5, 0, 0), ItemEnd::AtNodeEnd).unwrap();
    assert_eq!(first.definition, "a = 1");
    assert_eq!(first.start_byte, 0);
    let at_line_start = locate(source, "f.py", &node(0, 6, 6, 1, 1), ItemEnd::AtNodeEnd).unwrap();
    assert_eq!(at_line_start.definition, "");
    assert_eq!(at_line_start.start_byte, 6);
}

#[test]
fn a_node_that_is_not_in_the_text_does_not_resolve() {
    let source = "x = '\u{e9}\u{4e2d}'\n";
    assert!(locate(source, "f", &node(0, 0, source.len(), 0, 1), ItemEnd::AtNodeEnd).is_some());
    assert!(locate(source, "f", &node(0, 0, source.len() + 1, 0, 1), ItemEnd::AtNodeEnd).is_none());
    assert!(locate(source, "f", &node(0, 6, 7, 0, 0), ItemEnd::AtNodeEnd).is_none());
    assert!(locate(source, "f", &node(0, 5, 6, 0, 0), ItemEnd::AtNodeEnd).is_none());
    assert!(locate(source, "f", &node(0, 6, 6, 0, 0), ItemEnd::AtNodeEnd).is_none());
    assert!(locate(source, "f", &node(0, 5, 4, 0, 0), ItemEnd::AtNodeEnd).is_none());
    assert!(locate(source, "f", &node(0, 0, 4, 1, 0), ItemEnd::AtNodeEnd).is_none());
    let whole = locate(source, "f", &node(0, 5, 10, 0, 0), ItemEnd::AtNodeEnd).unwrap();
    assert_eq!(whole.definition, "x = '\u{e9}\u{4e2d}");
}

#[test]
fn each_match_gives_the_first_node_of_each_name() {
    let source = "ab\ncd\nef\n";
    let matches = vec![
        vec![node(1, 3, 5, 1, 1), node(0, 0, 2, 0, 0), node(0, 6, 8, 2, 2)],
        vec![],
        vec![node(2, 0, 1, 0, 0)],
        vec![node(1, 7, 8, 2, 2)],
    ];
    let indices = vec![Some(0), Some(1)];
    let items = items_from_matches(source, "f", &indices, &matches, ItemEnd::AtNodeEnd).unwrap();
    let found: Vec<(&str, usize)> =
        items.iter().map(|item| (item.definition.as_str(), item.start_pos)).collect();
    assert_eq!(found, vec![("ab", 0), ("cd", 1), ("ef", 2)]);
}

#[test]
fn a_capture_that_does_not_resolve_is_a_capture_mismatch() {
    let source = "ab\ncd\n";
    let indices = vec![Some(0)];
    let matches = vec![vec![node(0, 0, 2, 0, 0)], vec![node(0, 3, 9, 1, 1)]];
    let found = items_from_matches(source, "f", &indices, &matches, ItemEnd::AtNodeEnd);
    assert_eq!(found.err(), Some(SearchError::CaptureMismatch));
    let unused = vec![vec![node(0, 0, 2, 0, 0), node(0, 3, 9, 1, 1)]];
    let kept = items_from_matches(source, "f", &indices, &unused, ItemEnd::AtNodeEnd);
    assert_eq!(kept.unwrap().len(), 1);
}

#[test]
fn a_name_without_number_is_a_capture_mismatch_once_there_is_a_match() {
    let source = "ab\n";
    let indices = vec![Some(0), None];
    let matches = vec![vec![node(0, 0, 2, 0, 0)]];
    let found = items_from_matches(source, "f", &indices, &matches, ItemEnd::AtNodeEnd);
    assert_eq!(found.err(), Some(SearchError::CaptureMismatch));
    let none = items_from_matches(source, "f", &indices, &Vec::new(), ItemEnd::AtNodeEnd);
    assert_eq!(none.unwrap().len(), 0);
}

#[test]
fn every_pattern_compiles_or_is_refused() {
    let python = [
        (PythonProgItem::Function, true),
        (PythonProgItem::Class, true),
        (PythonProgItem::Method, false),
        (PythonProgItem::Decorator, true),
        (PythonProgItem::Generator, false),
        (PythonProgItem::Comprehension, false),
    ];
    for (kind, fits) in python {
        let found = extract_sexpr_from_string("x = 1\n", "a.py", &ProgItem::Python(kind));
        match found {
            Ok(items) => assert!(fits && items.is_empty(), "{:?}", kind),
            Err(error) => {
                assert!(!fits, "{:?}", kind);
                assert_eq!(error, SearchError::Configuration);
            }
        }
    }
    let rust = [
        (RustProgItem::Function, true),
        (RustProgItem::Struct, true),
        (RustProgItem::Enum, true),
        (RustProgItem::Trait, true),
        (RustProgItem::Impl, true),
        (RustProgItem::Macro, true),
        (RustProgItem::Const, true),
        (RustProgItem::Static, true),
        (RustProgItem::TypeAlias, false),
    ];
    for (kind, fits) in rust {
        let found = extract_sexpr_from_string("const X: u8 = 1;\n", "a.rs", &ProgItem::Rust(kind));
        match found {
            Ok(items) => {
                assert!(fits, "{:?}", kind);
                let expected = if kind == RustProgItem::Const { 1 } else { 0 };
                assert_eq!(items.len(), expected, "{:?}", kind);
            }
            Err(error) => {
                assert!(!fits, "{:?}", kind);
                assert_eq!(error, SearchError::Configuration);
            }
        }
    }
}

#[test]
fn an_item_can_run_on_to_the_end_of_its_line() {
    let source = "a = 1\n  @dec def f(): pass  # tail\nb";
    let item = locate(source, "f.py", &node(0, 13, 26, 1, 1), ItemEnd::AtLineEnd).unwrap();
    assert_eq!(item.definition, "  @dec def f(): pass  # tail");
    assert_eq!((item.start_byte, item.end_byte), (6, 34));
    let at_end = locate(source, "f.py", &node(0, 6, 34, 1, 1), ItemEnd::AtLineEnd).unwrap();
    assert_eq!(at_end.definition, "  @dec def f(): pass  # tail");
    let last = locate(source, "f.py", &node(0, 35, 35, 2, 2), ItemEnd::AtLineEnd).unwrap();
    assert_eq!(last.definition, "b");
    assert_eq!((last.start_byte, last.end_byte), (35, 36));
    let on_feed = locate(source, "f.py", &node(0, 0, 5, 0, 0), ItemEnd::AtLineEnd).unwrap();
    assert_eq!(on_feed.definition, "a = 1");

    let code = "struct A;\n\nimpl A {\n    fn f(&self) -> u32 { 1 } // one\n}\n";
    let kind = ProgItem::Rust(RustProgItem::Function);
    let whole = extract_items(code, "a.rs", &kind, ItemEnd::AtLineEnd).unwrap();
    assert_eq!(whole[0].definition, "    fn f(&self) -> u32 { 1 } // one");
    let short = extract_items(code, "a.rs", &kind, ItemEnd::AtNodeEnd).unwrap();
    assert_eq!(short[0].definition, "    fn f(&self) -> u32 { 1 }");
}

#[test]
fn an_empty_source_holds_no_item() {
    let kind = ProgItem::Python(PythonProgItem::Function);
    assert!(extract_sexpr_from_string("", "e.py", &kind).unwrap().is_empty());
    assert!(extract_sexpr_from_string("\n\n", "e.py", &kind).unwrap().is_empty());
}

#[test]
fn offsets_are_counted_in_bytes_and_rows_in_lines() {
    let code = "# \u{e9}\u{4e2d}\u{1F600}\nclass \u{c4}:\n    def \u{fc}ber(self):\n        return '\u{df}'\n";
    let kind = ProgItem::Python(PythonProgItem::Function);
    let found = extract_sexpr_from_string(code, "u.py", &kind).unwrap();
    assert_eq!(found.len(), 1);
    assert_eq!(found[0].definition, "    def \u{fc}ber(self):\n        return '\u{df}'");
    assert_eq!((found[0].start_pos, found[0].end_pos), (2, 3));
    assert_eq!(found[0].start_byte, code.find("    def").unwrap());
    assert_eq!(found[0].end_byte, code.len() - 1);
    assert_eq!(&code[found[0].start_byte..found[0].end_byte], found[0].definition);
}

#[test]
fn a_decorated_function_begins_with_its_own_line() {
    let code = "import functools\n\n@functools.cache\ndef f(x): return x\n";
    let kind = ProgItem::Python(PythonProgItem::Function);
    let found = extract_sexpr_from_string(code, "d.py", &kind).unwrap();
    assert_eq!(found.len(), 1);
    assert_eq!(found[0].definition, "def f(x): return x");
    assert_eq!((found[0].start_pos, found[0].end_pos), (3, 3));
    let decorators =
        extract_sexpr_from_string(code, "d.py", &ProgItem::Python(PythonProgItem::Decorator))
            .unwrap();
    assert_eq!(decorators.len(), 1);
    assert_eq!(decorators[0].definition, "@functools.cache");
    let nested = "if True:\n    x = 1; y = lambda: 0\n    class A: pass\n";
    let classes =
        extract_sexpr_from_string(nested, "n.py", &ProgItem::Python(PythonProgItem::Class))
            .unwrap();
    assert_eq!(classes[0].definition, "    class A: pass");
    assert_eq!(classes[0].start_byte, 34);
}

#[test]
fn the_answers_of_the_parser_become_results() {
    let language = ProgLanguage::Python.tree_sitter_language();
    assert_eq!(grammar_taken(Ok(())), Ok(()));
    let mut parser = tree_sitter::Parser::new();
    assert_eq!(grammar_taken(parser.set_language(language)), Ok(()));

    assert_eq!(tree_or_error(language, None).err(), Some(SearchError::Parse));
    let tree = parser.parse("x = 1\n", None);
    assert!(tree.is_some());
    let (kept, grown) = tree_or_error(language, tree).ok().unwrap();
    assert_eq!(kept, language);
    assert_eq!(grown.root_node().kind(), "module");
    assert_eq!(grown.root_node().end_byte(), 6);

    let refused = tree_sitter::Query::new(language, "(no_such_node) @item");
    assert!(refused.is_err());
    assert_eq!(query_or_error(refused).err(), Some(SearchError::Configuration));
    let taken = tree_sitter::Query::new(language, "(function_definition) @item");
    let query = query_or_error(taken).ok().unwrap();
    assert_eq!(query.capture_names().len(), 1);
    assert_eq!(query.capture_names()[0], "item");
}

#[test]
fn a_source_with_a_syntax_error_is_a_parse_error() {
    let python = ProgItem::Python(PythonProgItem::Function);
    let rust = ProgItem::Rust(RustProgItem::Function);
    for source in ["def f(:\n    pass\n", "def f():\n    return (1\n", "class :\n", "x = = 1\n"] {
        assert_eq!(parse_code(source, &python).err(), Some(SearchError::Parse), "{:?}", source);
        assert_eq!(
            extract_sexpr_from_string(source, "m.py", &python).err(),
            Some(SearchError::Parse),
            "{:?}",
            source
        );
    }
    for source in ["fn main( {\n", "struct S { x: }\n", "fn f() { let = 1; }\n"] {
        assert_eq!(parse_code(source, &rust).err(), Some(SearchError::Parse), "{:?}", source);
        assert_eq!(
            extract_items(source, "m.rs", &rust, ItemEnd::AtLineEnd).err(),
            Some(SearchError::Parse),
            "{:?}",
            source
        );
    }
    assert!(parse_code("def f():\n    pass\n", &python).is_ok());
    assert!(parse_code("fn main() {}\n", &rust).is_ok());
    assert!(parse_code("", &python).is_ok());
}

#[test]
fn a_source_of_another_language_is_a_parse_error() {
    let rust_source = "fn main() { let x: u8 = 1; }\n";
    let python_source = "def f(x):\n    return [y for y in x if y]\n";
    let python = ProgItem::Python(PythonProgItem::Function);
    let rust = ProgItem::Rust(RustProgItem::Function);
    assert_eq!(parse_code(rust_source, &python).err(), Some(SearchError::Parse));
    assert_eq!(parse_code(python_source, &rust).err(), Some(SearchError::Parse));
    assert_eq!(
        extract_sexpr_from_string(python_source, "m.rs", &rust).err(),
        Some(SearchError::Parse)
    );
}

#[test]
fn a_source_that_cannot_be_parsed_fails_before_the_pattern_is_tried() {
    let method = ProgItem::Python(PythonProgItem::Method);
    assert_eq!(
        extract_sexpr_from_string("def f(:\n", "m.py", &method).err(),
        Some(SearchError::Parse)
    );
    assert_eq!(
        extract_sexpr_from_string("def f():\n    pass\n", "m.py", &method).err(),
        Some(SearchError::Configuration)
    );
}
