//! The texts that are sent to the chat model.
//!
//! Each text is made of fixed parts with the caller's texts between them.

use vstd::prelude::*;
use vstd::string::StringExecFns;
use crate::lang::ProgItem;

verus! {

/// The request to turn a user prompt into instructions, up to the examples.
pub const SYSTEM_PROMPT_0: &'static str = r#"
Hi ChatGPT. I will paste a user prompt for a code assistant tool. The tool works by iterating through some folder,
find the items to be changed and applies the changes.

Your answer should be a JSON using one of those variants

"#;

/// The rules that follow the examples in the request for instructions.
pub const SYSTEM_PROMPT_1: &'static str = r#"

Requirements:
- answer only with a proper JSON that can be parsed into one of those variants
- please don't guess the programming language if it is not mentioned, ask for clarification
  using ClarificationNeeded variant
- users cannot select spefific classes
- don't guess the folder name, leave empty if it is not mentioned

SUPPORTED_ITEMS = {"Rust": ["Struct", "Enum", "Function"], "Python": ["Function", "Class"]}

if the user uses a different combination mention the ones that can be used and tell that
we are working on more."#;

/// The request to read one user message, up to the examples.
pub const USER_MESSAGE_PROMPT_0: &'static str = r#"
Hi ChatGPT. I will paste a user prompt for a code assistant tool. The tool works by iterating through some folder,
find the items to be changed and applies the changes.

Your answer should be one of these JSON structures

"#;

/// The rules between the examples and the user message.
pub const USER_MESSAGE_PROMPT_1: &'static str = r#"

Requirements:
- answer only with a proper JSON that can be parsed into one of those variants
- please don't guess the programming language if it is not mentioned, ask for clarification
  using ClarificationNeeded variant
- users cannot select spefific classes
- Currently only some combinations of language and items are supported (others are coming soon).

SUPPORTED_ITEMS = {"rust": ["struct", "enum", "function"], "python": ["function", "class"]}

if the user uses a different combination mention the ones that can be used and tell that
we are working on more.

USER_MESSAGE = ""#;

/// The end of the request, behind the user message.
pub const USER_MESSAGE_PROMPT_2: &'static str = r#""

Parse this message into one of: ClarificationNeeded, GoodInstructions, UserError.
"#;

/// The opening of the complaint about an answer.
pub const WRONG_ANSWER_PROMPT_0: &'static str = r#"
Hi ChatGPT. The answer you provided:

"#;

/// What stands between the answer and the examples.
pub const WRONG_ANSWER_PROMPT_1: &'static str = r#"

Doesn't match the schemas:

"#;

/// What stands between the examples and the question.
pub const WRONG_ANSWER_PROMPT_2: &'static str = r#"

Original question was:

"#;

/// What stands between the question and the error.
pub const WRONG_ANSWER_PROMPT_3: &'static str = r#"

Error:

"#;

/// The rules that close the complaint about an answer.
pub const WRONG_ANSWER_PROMPT_4: &'static str = r#"

Requirements:
- answer only with a proper JSON that can be parsed into one of those variants
- please don't guess the programming language if it is not mentioned, ask for clarification
  using ClarificationNeeded variant
- users cannot select spefific classes
- don't guess the folder name, leave empty if it is not mentioned

SUPPORTED_ITEMS = {"Rust": ["Struct", "Enum", "Function"], "Python": ["Function", "Class"]}

~~~~~~~~~~

Please fix the issue and rewrite the answer so it matches the schema."#;

/// The opening of the request to change code.
pub const USER_ACTION_PROMPT_0: &'static str = r#"
Please "#;

/// The rules that follow the action in the request to change code.
pub const USER_ACTION_PROMPT_1: &'static str = r#":

<CODE>

Requirements:
Ensure the code remains functionally equivalent.
Return only the transformed code and do not include any explanations, comments, or additional text.
The output should be only code, ready to be used as a replacement for the original code.
Don't add special characters at the beginning or end.

Code:"#;

/// The opening of the complaint about proposed code.
pub const WRONG_CODE_PROMPT_0: &'static str = r#"
Hi ChatGPT. The code you provided:

"#;

/// What stands between the old code and the new.
pub const WRONG_CODE_PROMPT_1: &'static str = r#"

Cannot be parsed as programming code

"#;

/// What stands between the new code and the error.
pub const WRONG_CODE_PROMPT_2: &'static str = r#"

The error is

"#;

/// The rules that close the complaint about proposed code.
pub const WRONG_CODE_PROMPT_3: &'static str = r#"

Requirements:
- answer only with a proper code
- dont add comments"#;

/// The request for a detector function, up to the task.
pub const QUICKCHECK_PROMPT_0: &'static str = r#"
Write a Python function that detects if a code snippet, representing a single function or class, is a good candidate for applying a specific change. The function should take the code snippet as input and return a boolean value indicating whether the code snippet meets the criteria for the change. Ensure that the function only checks the contents of the code snippet and does not actually modify it. The function should adhere to the following signature:

```python
def detect(code: str) -> bool:
    # Your code here
    pass
```

Please specify the specific change or condition you want the function to check for, and I will provide you with the corresponding Python code. Please note that the response should be provided as a code snippet only, without any additional comments or explanations.

Example 1:
Task: "remove unwrap from functions, convert them to use Result from anyhow crate"

should return a Python function:
```python
def detect(code: str) -> bool:
    return "unwrap" in code
```

Example 2:
Task: "split long functions (above 50 lines of code) to smaller functions"

should return a Python function:
```python
def detect(code: str) -> bool:
    return len(code.splitlines()) > 50
```

Example 3:
Task: "Refactor all Python functions"

no condition can be applied so the function should always return True:
```python
def detect(code: str) -> bool:
    return True
```

Requirements:
- return only Python code without any additional comments or explanations
- don't include any special characters before or after the code
- the function can be only applied to a specific code fragment like a function or a class
- you can use only standard library
- the function can return false positives so you can use many different conditions connected with "or"

~~~~~~~~~~~~

TASK: "#;

/// The end of the request, behind the task.
pub const QUICKCHECK_PROMPT_1: &'static str = r#"

```python
"#;

/// The request that opens a conversation, around the examples of answers.
pub open spec fn system_prompt(examples: Seq<char>) -> Seq<char> {
    SYSTEM_PROMPT_0@ + examples + SYSTEM_PROMPT_1@
}

/// The request that opens a conversation: it asks the model to answer a user
/// prompt with instructions in the form that `examples` shows.
pub fn get_system_prompt(examples: &str) -> (prompt: String)
    ensures
        prompt@ == system_prompt(examples@),
{
    let mut prompt = SYSTEM_PROMPT_0.to_owned();
    prompt.append(examples);
    prompt.append(SYSTEM_PROMPT_1);
    prompt
}

/// The request to read one user message, around the examples and the message.
pub open spec fn user_message_prompt(examples: Seq<char>, user_message: Seq<char>) -> Seq<char> {
    USER_MESSAGE_PROMPT_0@ + examples + USER_MESSAGE_PROMPT_1@ + user_message
        + USER_MESSAGE_PROMPT_2@
}

/// The request to turn `user_message` into instructions in the form that
/// `examples` shows.
pub fn wrap_user_message(examples: &str, user_message: &str) -> (prompt: String)
    ensures
        prompt@ == user_message_prompt(examples@, user_message@),
{
    let mut prompt = USER_MESSAGE_PROMPT_0.to_owned();
    prompt.append(examples);
    prompt.append(USER_MESSAGE_PROMPT_1);
    prompt.append(user_message);
    prompt.append(USER_MESSAGE_PROMPT_2);
    prompt
}

/// The complaint about an answer that could not be read.
pub open spec fn wrong_answer_prompt(
    chatgpt_answer: Seq<char>,
    examples: Seq<char>,
    original_question: Seq<char>,
    error_message: Seq<char>,
) -> Seq<char> {
    WRONG_ANSWER_PROMPT_0@ + chatgpt_answer + WRONG_ANSWER_PROMPT_1@ + examples
        + WRONG_ANSWER_PROMPT_2@ + original_question + WRONG_ANSWER_PROMPT_3@ + error_message
        + WRONG_ANSWER_PROMPT_4@
}

/// Tells the model that its answer could not be read as instructions: the
/// answer, the form that `examples` shows, the question and the error.
pub fn chatgpt_wrong_answer(
    chatgpt_answer: &str,
    examples: &str,
    original_question: &str,
    error_message: &str,
) -> (prompt: String)
    ensures
        prompt@ == wrong_answer_prompt(
            chatgpt_answer@,
            examples@,
            original_question@,
            error_message@,
        ),
{
    let mut prompt = WRONG_ANSWER_PROMPT_0.to_owned();
    prompt.append(chatgpt_answer);
    prompt.append(WRONG_ANSWER_PROMPT_1);
    prompt.append(examples);
    prompt.append(WRONG_ANSWER_PROMPT_2);
    prompt.append(original_question);
    prompt.append(WRONG_ANSWER_PROMPT_3);
    prompt.append(error_message);
    prompt.append(WRONG_ANSWER_PROMPT_4);
    prompt
}

/// The request to change the code that will stand in place of `<CODE>`.
pub open spec fn user_action_prompt(user_message: Seq<char>) -> Seq<char> {
    USER_ACTION_PROMPT_0@ + user_message + USER_ACTION_PROMPT_1@
}

/// Asks the model to do what `user_message` says to the code that the
/// caller puts in place of `<CODE>`. The request is the same for every kind
/// of item.
pub fn user_action_to_chatgpt_prompt(prog_item: &ProgItem, user_message: &str) -> (prompt: String)
    ensures
        prompt@ == user_action_prompt(user_message@),
{
    let mut prompt = USER_ACTION_PROMPT_0.to_owned();
    prompt.append(user_message);
    prompt.append(USER_ACTION_PROMPT_1);
    prompt
}

/// The complaint about code that could not be parsed.
pub open spec fn wrong_code_prompt(
    old_code: Seq<char>,
    new_code: Seq<char>,
    error_message: Seq<char>,
) -> Seq<char> {
    WRONG_CODE_PROMPT_0@ + old_code + WRONG_CODE_PROMPT_1@ + new_code + WRONG_CODE_PROMPT_2@
        + error_message + WRONG_CODE_PROMPT_3@
}

/// Tells the model that the code it proposed cannot be parsed.
pub fn chatgpt_wrong_code_proposal(
    old_code: &str,
    new_code: &str,
    error_message: &str,
) -> (prompt: String)
    ensures
        prompt@ == wrong_code_prompt(old_code@, new_code@, error_message@),
{
    let mut prompt = WRONG_CODE_PROMPT_0.to_owned();
    prompt.append(old_code);
    prompt.append(WRONG_CODE_PROMPT_1);
    prompt.append(new_code);
    prompt.append(WRONG_CODE_PROMPT_2);
    prompt.append(error_message);
    prompt.append(WRONG_CODE_PROMPT_3);
    prompt
}

/// The request for a function that picks the code worth changing.
pub open spec fn quickcheck_text(task: Seq<char>) -> Seq<char> {
    QUICKCHECK_PROMPT_0@ + task + QUICKCHECK_PROMPT_1@
}

/// Asks the model for a Python function that tells whether a piece of code
/// is a candidate for `task`.
pub fn quickcheck_prompt(task: &str) -> (prompt: String)
    ensures
        prompt@ == quickcheck_text(task@),
{
    let mut prompt = QUICKCHECK_PROMPT_0.to_owned();
    prompt.append(task);
    prompt.append(QUICKCHECK_PROMPT_1);
    prompt
}

} // verus!
