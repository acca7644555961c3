use std::str::FromStr;

use mechatyper::actions::{
    CodeAction, CommonAction, LanguageItem, PythonAction, PythonItem, RustAction, RustItem,
    SimpleAction,
};
use mechatyper::error::SearchError;
use mechatyper::instructions::{GoodInstructions, InitialInstruction};
use mechatyper::lang::{ProgItem, ProgLanguage, PythonProgItem};
use mechatyper::patch::group_by_file;
use mechatyper::prompts::{
    chatgpt_wrong_answer, chatgpt_wrong_code_proposal, get_system_prompt, quickcheck_prompt,
    user_action_to_chatgpt_prompt, wrap_user_message,
};
use mechatyper::retry::{fill_in_code, AnswerStep, ReplyVerdict, RetryPolicy};
use mechatyper::search::{ItemChange, ItemDef};

#[test]
fn the_request_to_change_code_holds_the_action() {
    let item = ProgItem::Python(PythonProgItem::Function);
    let prompt = user_action_to_chatgpt_prompt(&item, "add docstrings");
    let expected = format!(
        r#"
Please {}:

<CODE>

Requirements:
Ensure the code remains functionally equivalent.
Return only the transformed code and do not include any explanations, comments, or additional text.
The output should be only code, ready to be used as a replacement for the original code.
Don't add special characters at the beginning or end.

Code:"#,
        "add docstrings"
    );
    assert_eq!(prompt, expected);
}

#[test]
fn the_complaint_about_code_holds_both_codes_and_the_error() {
    let prompt = chatgpt_wrong_code_proposal("old()", "new(", "unbalanced");
    let expected = format!(
        r#"
Hi ChatGPT. The code you provided:

{}

Cannot be parsed as programming code

{}

The error is

{}

Requirements:
- answer only with a proper code
- dont add comments"#,
        "old()", "new(", "unbalanced"
    );
    assert_eq!(prompt, expected);
}

#[test]
fn the_opening_request_holds_the_examples() {
    let prompt = get_system_prompt("EXAMPLES");
    assert!(prompt.starts_with("\nHi ChatGPT. I will paste a user prompt for a code assistant tool."));
    assert!(prompt.contains("using one of those variants\n\nEXAMPLES\n\nRequirements:\n"));
    assert!(prompt.contains(
        "SUPPORTED_ITEMS = {\"Rust\": [\"Struct\", \"Enum\", \"Function\"], \"Python\": [\"Function\", \"Class\"]}"
    ));
    assert!(prompt.ends_with("we are working on more."));
    assert_eq!(prompt.len(), get_system_prompt("").len() + "EXAMPLES".len());
}

#[test]
fn the_request_for_a_user_message_holds_examples_and_message() {
    let prompt = wrap_user_message("EXAMPLES", "document my functions");
    assert!(prompt.contains("one of these JSON structures\n\nEXAMPLES\n\nRequirements:"));
    assert!(prompt.contains(
        "SUPPORTED_ITEMS = {\"rust\": [\"struct\", \"enum\", \"function\"], \"python\": [\"function\", \"class\"]}"
    ));
    assert!(prompt.contains("\nUSER_MESSAGE = \"document my functions\"\n"));
    assert!(prompt.ends_with(
        "Parse this message into one of: ClarificationNeeded, GoodInstructions, UserError.\n"
    ));
}

#[test]
fn the_complaint_about_an_answer_holds_its_four_parts_in_order() {
    let prompt = chatgpt_wrong_answer("ANSWER", "EXAMPLES", "QUESTION", "ERROR");
    let answer = prompt.find("ANSWER").unwrap();
    let examples = prompt.find("EXAMPLES").unwrap();
    let question = prompt.find("QUESTION").unwrap();
    let error = prompt.find("ERROR").unwrap();
    assert!(answer < examples && examples < question && question < error);
    assert!(prompt.starts_with("\nHi ChatGPT. The answer you provided:\n\nANSWER\n\nDoesn't match the schemas:\n\nEXAMPLES\n\nOriginal question was:\n\nQUESTION\n\nError:\n\nERROR\n\nRequirements:"));
    assert!(prompt.ends_with("Please fix the issue and rewrite the answer so it matches the schema."));
}

#[test]
fn the_request_for_a_detector_ends_with_the_task() {
    let prompt = quickcheck_prompt("remove unwrap");
    assert!(prompt.starts_with("\nWrite a Python function that detects if a code snippet"));
    assert!(prompt.ends_with("~~~~~~~~~~~~\n\nTASK: remove unwrap\n\n```python\n"));
}

#[test]
fn a_simple_action_becomes_a_request() {
    let tail = ":\n\n<CODE>\n\n Ensure the code remains functionally equivalent. Return only the transformed code and do not include any explanations, comments, or additional text. The output should be only code, ready to be used as a replacement for the original code. Don't add special characters at the beginning or end. Code:";
    assert_eq!(
        SimpleAction::Refactor.to_chat_gpt_prompt(),
        format!(
            "Please refactor the following code to improve readability and maintainability{}",
            tail
        )
    );
    assert_eq!(
        SimpleAction::Other("rename x".to_string()).to_chat_gpt_prompt(),
        format!(
            "Please help me to transform the code. The desired custom action is 'rename x'{}",
            tail
        )
    );
    assert_eq!(
        SimpleAction::AddErrorHandling.to_chat_gpt_prompt(),
        format!("Please add error handling to the following code{}", tail)
    );
}

#[test]
fn a_code_action_becomes_a_request() {
    assert_eq!(
        CodeAction::CustomAction("rename x".to_string()).to_chat_gpt_prompt(),
        "Please help me to customly transform the code: <CODE>. The desired custom action is 'rename x'. Return the transformed code."
    );
    assert_eq!(
        CodeAction::CommonAction(CommonAction::default()).to_chat_gpt_prompt(),
        "Please refactor the following code to improve readability and maintainability: <CODE>. Ensure the code remains functionally equivalent. Return only the transformed code."
    );
    assert_eq!(
        CodeAction::CommonAction(CommonAction::Other("x".to_string())).to_chat_gpt_prompt(),
        "Please apply this change 'x' to the following code: <CODE>. Return only the simplified code."
    );
    assert_eq!(
        CodeAction::PythonAction(PythonAction::default()).to_chat_gpt_prompt(),
        "Please apply the following custom action to the given Python class: <CODE>. Custom action: Refactor Return only the modified code."
    );
    assert_eq!(
        CodeAction::PythonAction(PythonAction::UseStaticMethods).to_chat_gpt_prompt(),
        "Please refactor the following Python code: <CODE>, by converting methods that don't use instance variables to static methods. Return only the code with static methods."
    );
    assert_eq!(
        CodeAction::RustAction(RustAction::default()).to_chat_gpt_prompt(),
        "Please apply the following custom action to the given Rust function: <CODE>. Custom action: Refactor Return only the modified code."
    );
    assert_eq!(
        CodeAction::RustAction(RustAction::SimplifyMatchStatements).to_chat_gpt_prompt(),
        "Please simplify any complex match statements in the following Rust code: <CODE>, by using patterns and combining cases where possible. Return only the simplified Rust code."
    );
}

#[test]
fn items_and_languages_are_read_from_their_names() {
    assert_eq!(LanguageItem::from_str("Python.Class"), Ok(LanguageItem::Python(PythonItem::Class)));
    assert_eq!(LanguageItem::from_str("Rust.Enum"), Ok(LanguageItem::Rust(RustItem::Enum)));
    assert_eq!(LanguageItem::from_str("rust.enum"), Err(SearchError::Configuration));
    assert_eq!(PythonItem::from_str("FUNCTION"), Ok(PythonItem::Function));
    assert_eq!(PythonItem::from_str("Class"), Ok(PythonItem::Class));
    assert_eq!(PythonItem::from_str("struct"), Err(SearchError::Configuration));
    assert_eq!(RustItem::from_str("Struct"), Ok(RustItem::Struct));
    assert_eq!(RustItem::from_str("enum"), Ok(RustItem::Enum));
    assert_eq!(RustItem::from_str("funCtion"), Ok(RustItem::Function));
    assert_eq!(RustItem::from_str("class"), Err(SearchError::Configuration));
    assert_eq!(ProgLanguage::from_str("Python"), Ok(ProgLanguage::Python));
    assert_eq!(ProgLanguage::from_str("RUST"), Ok(ProgLanguage::Rust));
    assert_eq!(ProgLanguage::from_str("rust "), Err(SearchError::Configuration));
    assert_eq!(ProgLanguage::from_str(""), Err(SearchError::Configuration));
    assert_eq!(ProgLanguage::from_name("pYtHoN"), Some(ProgLanguage::Python));
    assert_eq!(ProgLanguage::from_name("p\u{1e9e}thon"), None);
}

#[test]
fn the_third_reply_that_does_not_parse_ends_the_attempts() {
    let policy = RetryPolicy::standard();
    assert_eq!(policy.max_attempts, 3);
    assert_eq!(policy.judge_reply(0, true), ReplyVerdict::Accept);
    assert_eq!(policy.judge_reply(2, true), ReplyVerdict::Accept);
    assert_eq!(policy.judge_reply(0, false), ReplyVerdict::Retry { failures: 1 });
    assert_eq!(policy.judge_reply(1, false), ReplyVerdict::Retry { failures: 2 });
    assert_eq!(policy.judge_reply(2, false), ReplyVerdict::GiveUp);
    assert_eq!(policy.judge_reply(usize::MAX, false), ReplyVerdict::GiveUp);
    let once = RetryPolicy { max_attempts: 1 };
    assert_eq!(once.judge_reply(0, false), ReplyVerdict::GiveUp);
    let never = RetryPolicy { max_attempts: 0 };
    assert_eq!(never.judge_reply(0, false), ReplyVerdict::GiveUp);
    assert_eq!(never.judge_reply(0, true), ReplyVerdict::Accept);
}

#[test]
fn an_answer_is_used_asked_for_again_or_given_up() {
    let policy = RetryPolicy::standard();
    assert_eq!(policy.judge_answer(0, true, None), AnswerStep::UseAnswer);
    assert_eq!(policy.judge_answer(3, true, Some(false)), AnswerStep::UseAnswer);
    assert_eq!(policy.judge_answer(0, false, Some(true)), AnswerStep::UseBlock);
    assert_eq!(policy.judge_answer(3, false, Some(true)), AnswerStep::UseBlock);
    assert_eq!(policy.judge_answer(0, false, Some(false)), AnswerStep::AskToFix);
    assert_eq!(policy.judge_answer(2, false, Some(false)), AnswerStep::AskToFix);
    assert_eq!(policy.judge_answer(3, false, Some(false)), AnswerStep::Fallback);
    assert_eq!(policy.judge_answer(0, false, None), AnswerStep::AskForCode);
    assert_eq!(policy.judge_answer(2, false, None), AnswerStep::AskForCode);
    assert_eq!(policy.judge_answer(3, false, None), AnswerStep::Fallback);
}

#[test]
fn code_goes_in_every_marked_place() {
    let cases = [
        ("Please fix:\n\n<CODE>\n\nCode:", "x = 1"),
        ("<CODE>", "y"),
        ("<CODE><CODE>", "ab"),
        ("a<CODE>b<CODE>", ""),
        ("<<CODE>>", "<CODE>"),
        ("<COD<CODE>E>", "z"),
        ("no marker", "z"),
        ("<CODE", "z"),
        ("", "z"),
        ("\u{e9}<CODE>\u{4e2d}", "\u{1F600}"),
    ];
    for (request, code) in cases {
        assert_eq!(fill_in_code(request, code), request.replace("<CODE>", code), "{:?}", request);
    }
    assert_eq!(fill_in_code("a<CODE>b", "X"), "aXb");
}

fn change(filename: &str, start_pos: usize, after: &str) -> ItemChange {
    ItemChange {
        before: ItemDef {
            definition: String::new(),
            start_pos,
            end_pos: start_pos,
            start_byte: 0,
            end_byte: 0,
            filename: filename.to_string(),
        },
        after: after.to_string(),
    }
}

#[test]
fn changes_are_parted_by_file() {
    let changes = vec![
        change("b.py", 1, "one"),
        change("a.py", 5, "two"),
        change("b.py", 9, "three"),
        change("c.py", 0, "four"),
        change("a.py", 2, "five"),
    ];
    let groups = group_by_file(&changes);
    let seen: Vec<(&str, Vec<&str>)> = groups
        .iter()
        .map(|g| (g.filename.as_str(), g.changes.iter().map(|c| c.after.as_str()).collect()))
        .collect();
    assert_eq!(
        seen,
        vec![
            ("b.py", vec!["one", "three"]),
            ("a.py", vec!["two", "five"]),
            ("c.py", vec!["four"]),
        ]
    );
    assert!(group_by_file(&Vec::new()).is_empty());
}

#[test]
fn instructions_are_plain_values() {
    let good = GoodInstructions {
        item: ProgItem::Python(PythonProgItem::Function),
        answer: "I understand".to_string(),
        user_message: "Create a Python function".to_string(),
        folder: Some("src".to_string()),
    };
    let copy = good.clone();
    assert_eq!(copy.item, good.item);
    assert_eq!(copy.folder, Some("src".to_string()));
    match InitialInstruction::GoodInstructions(copy) {
        InitialInstruction::GoodInstructions(inner) => assert_eq!(inner.answer, "I understand"),
        _ => unreachable!(),
    }
}

#[test]
fn each_failure_has_its_words() {
    assert_eq!(SearchError::Parse.message(), "Cannot parse code");
    assert_eq!(
        SearchError::CaptureMismatch.message(),
        "Cannot match query result indices with source code"
    );
    assert_eq!(
        SearchError::Configuration.message(),
        "Cannot use the query pattern with the grammar"
    );
    assert_eq!(SearchError::FileSystem.message(), "Cannot read or write the file system");
}
