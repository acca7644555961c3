use mechatyper::code_cleaning::{apply_indentation, extract_python_code};

#[test]
fn code_cleaning_test_apply_indentation_with_spaces() {
    let old_code = "    def old_function():\n        print('This is the old function')\n";
    let new_code = "def new_function():\n    print('This is the new function')\n";

    let expected_indented_new_code =
        "    def new_function():\n        print('This is the new function')\n";
    let indented_new_code = apply_indentation(old_code, new_code);

    assert_eq!(indented_new_code, expected_indented_new_code);
}

#[test]
fn code_cleaning_test_apply_indentation_with_tabs() {
    let old_code = "\tdef old_function():\n\t\tprint('This is the old function')\n";
    let new_code = "def new_function():\n\tprint('This is the new function')\n";

    let expected_indented_new_code =
        "\tdef new_function():\n\t\tprint('This is the new function')\n";
    let indented_new_code = apply_indentation(old_code, new_code);

    assert_eq!(indented_new_code, expected_indented_new_code);
}

#[test]
fn search_test_apply_indentation_with_spaces() {
    let old_code = "    def old_function():\n        print('This is the old function')\n";
    let new_code = "def new_function():\n    print('This is the new function')\n";

    let expected_indented_new_code =
        "    def new_function():\n        print('This is the new function')\n";
    let indented_new_code = apply_indentation(old_code, new_code);

    assert_eq!(indented_new_code, expected_indented_new_code);
}

#[test]
fn search_test_apply_indentation_with_tabs() {
    let old_code = "\tdef old_function():\n\t\tprint('This is the old function')\n";
    let new_code = "def new_function():\n\tprint('This is the new function')\n";

    let expected_indented_new_code =
        "\tdef new_function():\n\t\tprint('This is the new function')\n";
    let indented_new_code = apply_indentation(old_code, new_code);

    assert_eq!(indented_new_code, expected_indented_new_code);
}

#[test]
fn test_extract_python_code() {
    let code = extract_python_code(
        r#"
Sure! Here's a Python function that takes a list and returns the sum of its elements:

```python
def calculate_sum(lst):
return sum(lst)
```

You can use this function by passing your list as an argument to the function `calculate_sum()`. The `sum()` function takes an iterable (like a list) as input and returns the sum of its elements."#,
    );
    println!("{:?}", code);
    assert_eq!(code, Some("def calculate_sum(lst):\nreturn sum(lst)\n".to_string()));
}

#[test]
fn apply_indentation_concrete_case() {
    assert_eq!(
        apply_indentation("    def old():\n        pass\n", "def new():\n    pass\n"),
        "    def new():\n        pass\n"
    );
}
