use mechatyper::code_cleaning::apply_indentation;
use mechatyper::patch::{patch_text, sort_changes};
use mechatyper::lang::{ProgItem, PythonProgItem, RustProgItem};
use mechatyper::search::{extract_sexpr_from_string, ItemChange, ItemDef};

fn change(definition: &str, start_pos: usize, end_pos: usize, after: &str) -> ItemChange {
    ItemChange {
        before: ItemDef {
            definition: definition.to_string(),
            start_pos,
            end_pos,
            start_byte: 0,
            end_byte: definition.len(),
            filename: "test_file.rs".to_string(),
        },
        after: after.to_string(),
    }
}

#[test]
fn test_apply_changes() {
    let initial_content = "fn example() {\n    println!(\"Hello, world!\");\n}\n";
    let changes = vec![ItemChange {
        before: ItemDef {
            definition: "fn example() {\n    println!(\"Hello, world!\");\n}\n".to_string(),
            start_pos: 0,
            end_pos: 2,
            start_byte: 0,
            end_byte: initial_content.len(),
            filename: "test_file.rs".to_string(),
        },
        after: "fn modified_example() {\n    println!(\"Hello, ChatGPT!\");\n}\n".to_string(),
    }];

    let outcome = patch_text(initial_content, &changes);

    assert_eq!(outcome.skipped, 0);
    assert_eq!(
        outcome.contents,
        "fn modified_example() {\n    println!(\"Hello, ChatGPT!\");\n}\n"
    );
}

#[test]
fn changes_are_applied_from_the_bottom_up() {
    let content = "a\nb\nc\nd\n";
    let changes = vec![
        change("a", 0, 0, "A1\nA2"),
        change("c\nd", 2, 3, "C"),
    ];
    let outcome = patch_text(content, &changes);
    assert_eq!(outcome.contents, "A1\nA2\nb\nC\n");
    assert_eq!(outcome.skipped, 0);
}

#[test]
fn the_order_of_disjoint_changes_does_not_matter() {
    let content = "zero\n  one\n  two\nthree\nfour\nfive\n";
    let a = || change("  one\n  two", 1, 2, "uno\n    dos\ntres");
    let b = || change("four", 4, 4, "");
    let c = || change("zero", 0, 0, "0");
    let expected = "0\n  uno\n      dos\n  tres\nthree\n\nfive\n";
    let orders: Vec<Vec<ItemChange>> = vec![
        vec![a(), b(), c()],
        vec![a(), c(), b()],
        vec![b(), a(), c()],
        vec![b(), c(), a()],
        vec![c(), a(), b()],
        vec![c(), b(), a()],
    ];
    for order in orders {
        let outcome = patch_text(content, &order);
        assert_eq!(outcome.contents, expected);
        assert_eq!(outcome.skipped, 0);
    }
}

#[test]
fn a_change_past_the_end_is_skipped_and_counted() {
    let content = "a\nb\n";
    let changes = vec![change("x", 2, 2, "X"), change("b", 1, 1, "B"), change("y", 1, 5, "Y")];
    let outcome = patch_text(content, &changes);
    assert_eq!(outcome.contents, "a\nB\n");
    assert_eq!(outcome.skipped, 2);
}

#[test]
fn a_change_whose_rows_run_backwards_is_skipped() {
    let outcome = patch_text("a\nb\n", &vec![change("b", 1, 0, "B")]);
    assert_eq!(outcome.contents, "a\nb\n");
    assert_eq!(outcome.skipped, 1);
}

#[test]
fn a_change_beyond_the_file_as_read_is_skipped_though_the_lines_have_grown() {
    let content = "a\nb\nc\n";
    let changes = vec![change("c", 2, 2, "1\n2\n3\n4\n5"), change("a", 0, 4, "A")];
    let outcome = patch_text(content, &changes);
    assert_eq!(outcome.contents, "a\nb\n1\n2\n3\n4\n5\n");
    assert_eq!(outcome.skipped, 1);
}

#[test]
fn an_overlapping_change_that_no_longer_fits_is_skipped() {
    let content = "a\nb\nc\nd\ne\n";
    let changes = vec![change("c\nd\ne", 2, 4, "X"), change("c\nd\ne", 2, 4, "Y")];
    let outcome = patch_text(content, &changes);
    assert_eq!(outcome.contents, "a\nb\nX\n");
    assert_eq!(outcome.skipped, 1);
}

#[test]
fn no_changes_leave_a_well_ended_file_as_it_is() {
    let outcome = patch_text("a\n\n  b\n", &Vec::new());
    assert_eq!(outcome.contents, "a\n\n  b\n");
    assert_eq!(outcome.skipped, 0);
}

#[test]
fn the_file_is_written_with_a_line_feed_after_each_line() {
    let outcome = patch_text("a\r\nb", &Vec::new());
    assert_eq!(outcome.contents, "a\nb\n");
    let outcome = patch_text("", &Vec::new());
    assert_eq!(outcome.contents, "");
}

#[test]
fn the_replacement_takes_the_indentation_of_the_item() {
    let content = "class A:\n    def f(self):\n        return 1\n\nx = 2\n";
    let changes = vec![change(
        "    def f(self):\n        return 1",
        1,
        2,
        "def f(self):\n    \"\"\"One.\"\"\"\n\n    return 1\n",
    )];
    let outcome = patch_text(content, &changes);
    assert_eq!(
        outcome.contents,
        "class A:\n    def f(self):\n        \"\"\"One.\"\"\"\n\n        return 1\n\nx = 2\n"
    );
}

#[test]
fn an_unchanged_definition_leaves_the_file_as_it_is() {
    let content = "import os\n\nclass A:\n    def f(self):\n        return 1\n\n    def g(self):\n        pass\n";
    let definition = "    def f(self):\n        return 1";
    let outcome = patch_text(content, &vec![change(definition, 3, 4, definition)]);
    assert_eq!(outcome.contents, content);
    assert_eq!(outcome.skipped, 0);
}

#[test]
fn changes_are_ordered_by_descending_start_and_stay_stable() {
    let changes = vec![
        change("a", 3, 3, "first"),
        change("b", 7, 8, "second"),
        change("c", 3, 4, "third"),
        change("d", 0, 0, "fourth"),
        change("e", 7, 7, "fifth"),
    ];
    let sorted = sort_changes(&changes);
    let order: Vec<&str> = sorted.iter().map(|c| c.after.as_str()).collect();
    assert_eq!(order, vec!["second", "fifth", "first", "third", "fourth"]);
    let mut expected = changes.clone();
    expected.sort_by(|a, b| b.before.start_pos.cmp(&a.before.start_pos));
    let expected_order: Vec<&str> = expected.iter().map(|c| c.after.as_str()).collect();
    assert_eq!(order, expected_order);
}

#[test]
fn indentation_law_on_four_spaces() {
    let indented = apply_indentation(
        "    def old():\n        pass\n",
        "def new():\n  first\n\n      deeper\n",
    );
    assert_eq!(indented, "    def new():\n      first\n\n          deeper\n");
}

#[test]
fn indentation_edge_cases() {
    assert_eq!(apply_indentation("", ""), "\n");
    assert_eq!(apply_indentation("x", "y"), "y\n");
    assert_eq!(apply_indentation("  x", "y\n"), "  y\n");
    assert_eq!(apply_indentation("\n\n\t x\n  y", "    a\n  b\n"), "\t   a\n\t b\n");
    assert_eq!(apply_indentation("  x", "a\n\n"), "  a\n");
    assert_eq!(apply_indentation("  x", "a\n\n\n"), "  a\n\n");
    assert_eq!(apply_indentation("  x", "a\n   \nb"), "  a\n   \n  b\n");
    assert_eq!(apply_indentation("   \n", "  a"), "a\n");
    assert_eq!(apply_indentation(" x", "\u{a0}\u{a0}a\n\u{a0}b"), " \u{a0}a\n b\n");
    assert_eq!(apply_indentation("x", "   \n \n"), "   \n \n");
}

#[test]
fn an_extracted_item_put_back_leaves_the_file_as_it_is() {
    let python = "import os\n\n\nclass A:\n    def f(self):\n        return 1\n\n    def g(self):\n        if True:\n            pass\n\n\ndef h():\n    return 2\n";
    let functions =
        extract_sexpr_from_string(python, "a.py", &ProgItem::Python(PythonProgItem::Function))
            .unwrap();
    assert_eq!(functions.len(), 3);
    for function in functions {
        let after = function.definition.clone();
        let outcome = patch_text(python, &vec![ItemChange { before: function, after }]);
        assert_eq!(outcome.contents, python);
        assert_eq!(outcome.skipped, 0);
    }

    let rust = "struct S {\n    x: u8,\n}\n\nimpl S {\n    fn x(&self) -> u8 {\n        self.x\n    }\n}\n";
    let all: Vec<ItemChange> =
        extract_sexpr_from_string(rust, "s.rs", &ProgItem::Rust(RustProgItem::Function))
            .unwrap()
            .into_iter()
            .chain(
                extract_sexpr_from_string(rust, "s.rs", &ProgItem::Rust(RustProgItem::Struct))
                    .unwrap(),
            )
            .map(|item| ItemChange { after: item.definition.clone(), before: item })
            .collect();
    assert_eq!(all.len(), 2);
    let outcome = patch_text(rust, &all);
    assert_eq!(outcome.contents, rust);
}
