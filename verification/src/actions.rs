//! The actions that a user can ask for, and the request that each of them
//! becomes when it is put to the chat model.

use vstd::prelude::*;
use vstd::string::StringExecFns;
use crate::error::SearchError;
use crate::lang::{is_name, lowercased};
use crate::text::{chars_of, same_text};

verus! {

/// An action on code: one that the user words, or one of the known ones.
#[derive(Debug)]
pub enum CodeAction {
    CustomAction(String),
    CommonAction(CommonAction),
    PythonAction(PythonAction),
    RustAction(RustAction),
}

/// The short list of actions that the chat model can choose from.
#[derive(Debug)]
pub enum SimpleAction {
    /// For what matches no other action.
    Other(String),
    /// Refactor and simplify.
    Refactor,
    /// Add documentation.
    Document,
    /// Add docstrings.
    AddDocStrings,
    /// Split long functions.
    SplitLongFunctions,
    /// Remove unused code.
    RemoveDeadCode,
    /// Add proper error handling.
    AddErrorHandling,
}

/// The actions that fit code in any language.
#[derive(Debug)]
pub enum CommonAction {
    Other(String),
    Refactor,
    Document,
    AddDocStrings,
    SplitLongFunctions,
    RemoveDeadCode,
    AddErrorHandling,
    EncapsulateFields,
    ApplyFunctionalStyle,
    GeneralizeTypes,
    ValidateParameters,
    SimplifyConditionalStatements,
}

/// The actions that fit Python code.
#[derive(Debug)]
pub enum PythonAction {
    CustomFunctionAction(String),
    CustomClassAction(String),
    AddTypeAnnotations,
    ConvertPrintToLogging,
    ConvertOldFormatStrings,
    UseListComprehensions,
    ConvertToGenerator,
    ReplaceManualExceptions,
    UseUnderScoresInNumericLiterals,
    UseFormattedStringLiterals,
    ConvertToDataClass,
    ReplaceExplicitLoopsWithItertools,
    UseStaticMethods,
    RefactorNestedFunctions,
}

/// The actions that fit Rust code.
#[derive(Debug)]
pub enum RustAction {
    CustomStructAction(String),
    CustomFunctionAction(String),
    CustomEnumAction(String),
    ConvertEnumToStruct,
    AddErrorHandling,
    UseSerdeForSerialization,
    ImplementDisplayTrait,
    ImplementFromTrait,
    RefactorWithPatternMatching,
    OptimizeLifetimeAnnotations,
    ReplacePanicWithResult,
    UseMacrosForCodeReuse,
    UseBorrowingEffectively,
    UtilizeIteratorMethods,
    SimplifyMatchStatements,
}

/// A kind of item by its language, as a user names it.
#[derive(Clone, Copy, Debug, PartialEq, Eq, Structural)]
pub enum LanguageItem {
    Python(PythonItem),
    Rust(RustItem),
}

/// The kinds of Python item that a user can name.
#[derive(Clone, Copy, Debug, PartialEq, Eq, Structural)]
pub enum PythonItem {
    Function,
    Class,
}

/// The kinds of Rust item that a user can name.
#[derive(Clone, Copy, Debug, PartialEq, Eq, Structural)]
pub enum RustItem {
    Struct,
    Enum,
    Function,
}

/// How the request for a simple action begins.
pub const SIMPLE_REQUEST_HEAD: &'static str = "Please ";

/// The rules that close the request for a simple action.
pub const SIMPLE_REQUEST_TAIL: &'static str = ":\n\n<CODE>\n\n Ensure the code remains functionally equivalent. Return only the transformed code and do not include any explanations, comments, or additional text. The output should be only code, ready to be used as a replacement for the original code. Don't add special characters at the beginning or end. Code:";

/// What `SimpleAction::Refactor` asks for.
pub const SIMPLE_REFACTOR: &'static str = "refactor the following code to improve readability and maintainability";

/// What `SimpleAction::Document` asks for.
pub const SIMPLE_DOCUMENT: &'static str = "document the following code by adding appropriate comments";

/// What `SimpleAction::AddDocStrings` asks for.
pub const SIMPLE_ADD_DOC_STRINGS: &'static str = "add docstrings to the following code";

/// What `SimpleAction::SplitLongFunctions` asks for.
pub const SIMPLE_SPLIT_LONG_FUNCTIONS: &'static str = "split any long functions in the following code into smaller, more manageable functions";

/// What `SimpleAction::RemoveDeadCode` asks for.
pub const SIMPLE_REMOVE_DEAD_CODE: &'static str = "remove any dead or unreachable code in the following code";

/// What `SimpleAction::AddErrorHandling` asks for.
pub const SIMPLE_ADD_ERROR_HANDLING: &'static str = "add error handling to the following code";

/// What a simple action in the user's words asks for, up to those words.
pub const SIMPLE_OTHER_HEAD: &'static str = "help me to transform the code. The desired custom action is '";

/// What closes the user's words.
pub const SIMPLE_OTHER_TAIL: &'static str = "'";

/// The request for an action in the user's words, up to those words.
pub const CUSTOM_ACTION_HEAD: &'static str = "Please help me to customly transform the code: <CODE>. The desired custom action is '";

/// The end of the request for an action in the user's words.
pub const CUSTOM_ACTION_TAIL: &'static str = "'. Return the transformed code.";

/// The request of `CommonAction::Refactor`.
pub const COMMON_REFACTOR: &'static str = "Please refactor the following code to improve readability and maintainability: <CODE>. Ensure the code remains functionally equivalent. Return only the transformed code.";

/// The request of `CommonAction::Document`.
pub const COMMON_DOCUMENT: &'static str = "Please document the following code by adding appropriate comments: <CODE>. Explain the purpose and functionality of the code. Return only the documented code.";

/// The request of `CommonAction::AddDocStrings`.
pub const COMMON_ADD_DOC_STRINGS: &'static str = "Please add docstrings to the following code: <CODE>. Provide detailed explanations for functions and classes. Return only the code with added docstrings.";

/// The request of `CommonAction::SplitLongFunctions`.
pub const COMMON_SPLIT_LONG_FUNCTIONS: &'static str = "Please split any long functions in the following code into smaller, more manageable functions: <CODE>. Ensure that the functionality remains the same. Return only the transformed code.";

/// The request of `CommonAction::RemoveDeadCode`.
pub const COMMON_REMOVE_DEAD_CODE: &'static str = "Please remove any dead or unreachable code in the following code: <CODE>. Ensure that the remaining code is functional and clean. Return only the cleaned code.";

/// The request of `CommonAction::AddErrorHandling`.
pub const COMMON_ADD_ERROR_HANDLING: &'static str = "Please add error handling to the following code: <CODE>. Ensure that the code handles potential errors gracefully and provides informative error messages. Return only the code with error handling.";

/// The request of `CommonAction::EncapsulateFields`.
pub const COMMON_ENCAPSULATE_FIELDS: &'static str = "Please encapsulate the fields in the following code: <CODE>. Make sure to provide proper getters and setters where necessary. Return only the encapsulated code.";

/// The request of `CommonAction::ApplyFunctionalStyle`.
pub const COMMON_APPLY_FUNCTIONAL_STYLE: &'static str = "Please refactor the following code: <CODE>, to use a functional programming style. Replace loops with map and reduce operations where possible. Return only the transformed code.";

/// The request of `CommonAction::GeneralizeTypes`.
pub const COMMON_GENERALIZE_TYPES: &'static str = "Please refactor the following code: <CODE>, to use more generic types. This might involve replacing concrete types with interfaces or generics. Return only the transformed code.";

/// The request of `CommonAction::ValidateParameters`.
pub const COMMON_VALIDATE_PARAMETERS: &'static str = "Please add parameter validation to the functions in the following code: <CODE>. Ensure that the functions check for valid input before proceeding. Return only the code with parameter validation.";

/// The request of `CommonAction::SimplifyConditionalStatements`.
pub const COMMON_SIMPLIFY_CONDITIONAL_STATEMENTS: &'static str = "Please simplify the conditional statements in the following code: <CODE>. Reduce complexity and improve readability. Return only the simplified code.";

/// The request of `CommonAction::Other`, up to the user's words.
pub const COMMON_OTHER_HEAD: &'static str = "Please apply this change '";

/// The end of the request of `CommonAction::Other`.
pub const COMMON_OTHER_TAIL: &'static str = "' to the following code: <CODE>. Return only the simplified code.";

/// The request of `PythonAction::AddTypeAnnotations`.
pub const PYTHON_ADD_TYPE_ANNOTATIONS: &'static str = "Please add type annotations to the functions and variables in the following Python code: <CODE>. Return only the code with type annotations.";

/// The request of `PythonAction::ConvertPrintToLogging`.
pub const PYTHON_CONVERT_PRINT_TO_LOGGING: &'static str = "Please convert any print statements in the following Python code: <CODE>, to use the logging module. This will allow for more flexible control over log output. Return only the code using the logging module.";

/// The request of `PythonAction::ConvertOldFormatStrings`.
pub const PYTHON_CONVERT_OLD_FORMAT_STRINGS: &'static str = "Please convert any old-style formatted strings (e.g. %s) in the following Python code: <CODE>, to use f-strings. Return only the code with converted formatted strings.";

/// The request of `PythonAction::UseListComprehensions`.
pub const PYTHON_USE_LIST_COMPREHENSIONS: &'static str = "Please refactor the following Python code: <CODE>, to use list comprehensions instead of explicit loops for creating lists. Return only the code with list comprehensions.";

/// The request of `PythonAction::ConvertToGenerator`.
pub const PYTHON_CONVERT_TO_GENERATOR: &'static str = "Please convert any applicable functions in the following Python code: <CODE>, into generator functions using the 'yield' keyword. Return only the code with generator functions.";

/// The request of `PythonAction::ReplaceManualExceptions`.
pub const PYTHON_REPLACE_MANUAL_EXCEPTIONS: &'static str = "Please replace manual exception handling in the following Python code: <CODE>, with appropriate built-in exceptions. Return only the code with built-in exceptions.";

/// The request of `PythonAction::UseUnderScoresInNumericLiterals`.
pub const PYTHON_USE_UNDER_SCORES_IN_NUMERIC_LITERALS: &'static str = "Please improve the readability of large numbers in the following Python code: <CODE>, by using underscores as thousand separators. Return only the code with underscores in numeric literals.";

/// The request of `PythonAction::UseFormattedStringLiterals`.
pub const PYTHON_USE_FORMATTED_STRING_LITERALS: &'static str = "Please refactor the following Python code: <CODE>, to use formatted string literals (f-strings) for string formatting. Return only the code with formatted string literals.";

/// The request of `PythonAction::ConvertToDataClass`.
pub const PYTHON_CONVERT_TO_DATA_CLASS: &'static str = "Please convert the classes in the following Python code: <CODE>, to data classes using the '@dataclass' decorator from the 'dataclasses' module. Return only the code with data classes.";

/// The request of `PythonAction::ReplaceExplicitLoopsWithItertools`.
pub const PYTHON_REPLACE_EXPLICIT_LOOPS_WITH_ITERTOOLS: &'static str = "Please refactor the following Python code: <CODE>, to replace explicit loops with functions from the 'itertools' module where possible. Return only the code with itertools functions.";

/// The request of `PythonAction::UseStaticMethods`.
pub const PYTHON_USE_STATIC_METHODS: &'static str = "Please refactor the following Python code: <CODE>, by converting methods that don't use instance variables to static methods. Return only the code with static methods.";

/// The request of `PythonAction::RefactorNestedFunctions`.
pub const PYTHON_REFACTOR_NESTED_FUNCTIONS: &'static str = "Please refactor the following Python code: <CODE>, by moving deeply nested functions to the top level, and passing necessary data as parameters. Return only the refactored code.";

/// The request of `PythonAction::CustomFunctionAction`, up to the user's words.
pub const PYTHON_CUSTOM_FUNCTION_ACTION_HEAD: &'static str = "Please apply the following custom action to the given Python function: <CODE>. Custom action: ";

/// The end of the request of `PythonAction::CustomFunctionAction`.
pub const PYTHON_CUSTOM_FUNCTION_ACTION_TAIL: &'static str = " Return only the modified code.";

/// The request of `PythonAction::CustomClassAction`, up to the user's words.
pub const PYTHON_CUSTOM_CLASS_ACTION_HEAD: &'static str = "Please apply the following custom action to the given Python class: <CODE>. Custom action: ";

/// The end of the request of `PythonAction::CustomClassAction`.
pub const PYTHON_CUSTOM_CLASS_ACTION_TAIL: &'static str = " Return only the modified code.";

/// The request of `RustAction::ConvertEnumToStruct`.
pub const RUST_CONVERT_ENUM_TO_STRUCT: &'static str = "Please convert any enums in the following Rust code: <CODE>, to structs. Provide implementations for any necessary functions that were part of the enum. Return only the code with enums converted to structs.";

/// The request of `RustAction::AddErrorHandling`.
pub const RUST_ADD_ERROR_HANDLING: &'static str = "Please refactor the following Rust code: <CODE>, to include error handling using the Result type. Replace unwraps and expects with proper error handling. Return only the Rust code with error handling added.";

/// The request of `RustAction::UseSerdeForSerialization`.
pub const RUST_USE_SERDE_FOR_SERIALIZATION: &'static str = "Please refactor the following Rust code: <CODE>, to use the Serde library for serialization and deserialization of structs and enums. Ensure all necessary attributes and imports are included. Return only the Rust code with Serde integration.";

/// The request of `RustAction::ImplementDisplayTrait`.
pub const RUST_IMPLEMENT_DISPLAY_TRAIT: &'static str = "For the following Rust code: <CODE>, please implement the Display trait for any structs or enums that could benefit from custom string representation. Prepend the old code to the answer and ensure that all required imports are included. Return only the Rust code with the Display trait implemented.";

/// The request of `RustAction::ImplementFromTrait`.
pub const RUST_IMPLEMENT_FROM_TRAIT: &'static str = "Please implement the From trait for appropriate type conversions in the following Rust code: <CODE>. Prepend the old code to the answer and ensure that all required imports are included. Return only the Rust code with the From trait implemented.";

/// The request of `RustAction::RefactorWithPatternMatching`.
pub const RUST_REFACTOR_WITH_PATTERN_MATCHING: &'static str = "Please refactor the following Rust code: <CODE>, to use pattern matching for more concise and readable control flow. Return only the Rust code with pattern matching.";

/// The request of `RustAction::OptimizeLifetimeAnnotations`.
pub const RUST_OPTIMIZE_LIFETIME_ANNOTATIONS: &'static str = "Please optimize the lifetime annotations in the following Rust code: <CODE>. Remove unnecessary annotations and ensure that the code is efficient and readable. Return only the optimized Rust code.";

/// The request of `RustAction::ReplacePanicWithResult`.
pub const RUST_REPLACE_PANIC_WITH_RESULT: &'static str = "Please refactor the following Rust code: <CODE>, to replace any panic! calls with returning an Err from the function. This should improve the error handling of the code. Return only the Rust code with panics replaced with Result.";

/// The request of `RustAction::UseMacrosForCodeReuse`.
pub const RUST_USE_MACROS_FOR_CODE_REUSE: &'static str = "Please refactor the following Rust code: <CODE>, to use macros where repetitive code patterns can be abstracted for reuse. Return only the Rust code with macros for code reuse.";

/// The request of `RustAction::UseBorrowingEffectively`.
pub const RUST_USE_BORROWING_EFFECTIVELY: &'static str = "Please refactor the following Rust code: <CODE>, to use borrowing effectively, avoiding unnecessary cloning and ownership transfer where references can be used. Return only the Rust code optimized with effective borrowing.";

/// The request of `RustAction::UtilizeIteratorMethods`.
pub const RUST_UTILIZE_ITERATOR_METHODS: &'static str = "Please refactor the following Rust code: <CODE>, to utilize iterator methods for more concise and efficient processing of collections. Return only the Rust code with iterator methods.";

/// The request of `RustAction::SimplifyMatchStatements`.
pub const RUST_SIMPLIFY_MATCH_STATEMENTS: &'static str = "Please simplify any complex match statements in the following Rust code: <CODE>, by using patterns and combining cases where possible. Return only the simplified Rust code.";

/// The request of `RustAction::CustomStructAction`, up to the user's words.
pub const RUST_CUSTOM_STRUCT_ACTION_HEAD: &'static str = "Please apply the following custom action to the given Rust struct: <CODE>. Custom action: ";

/// The end of the request of `RustAction::CustomStructAction`.
pub const RUST_CUSTOM_STRUCT_ACTION_TAIL: &'static str = " Return only the modified code.";

/// The request of `RustAction::CustomFunctionAction`, up to the user's words.
pub const RUST_CUSTOM_FUNCTION_ACTION_HEAD: &'static str = "Please apply the following custom action to the given Rust function: <CODE>. Custom action: ";

/// The end of the request of `RustAction::CustomFunctionAction`.
pub const RUST_CUSTOM_FUNCTION_ACTION_TAIL: &'static str = " Return only the modified code.";

/// The request of `RustAction::CustomEnumAction`, up to the user's words.
pub const RUST_CUSTOM_ENUM_ACTION_HEAD: &'static str = "Please apply the following custom action to the given Rust enum: <CODE>. Custom action: ";

/// The end of the request of `RustAction::CustomEnumAction`.
pub const RUST_CUSTOM_ENUM_ACTION_TAIL: &'static str = " Return only the modified code.";

/// A fixed text around the user's words.
fn in_words(head: &str, words: &str, tail: &str) -> (text: String)
    ensures
        text@ == head@ + words@ + tail@,
{
    let mut text = head.to_owned();
    text.append(words);
    text.append(tail);
    text
}

/// What a simple action asks the chat model to do.
pub open spec fn simple_action_text(action: SimpleAction) -> Seq<char> {
    match action {
        SimpleAction::Refactor => SIMPLE_REFACTOR@,
        SimpleAction::Document => SIMPLE_DOCUMENT@,
        SimpleAction::AddDocStrings => SIMPLE_ADD_DOC_STRINGS@,
        SimpleAction::SplitLongFunctions => SIMPLE_SPLIT_LONG_FUNCTIONS@,
        SimpleAction::RemoveDeadCode => SIMPLE_REMOVE_DEAD_CODE@,
        SimpleAction::AddErrorHandling => SIMPLE_ADD_ERROR_HANDLING@,
        SimpleAction::Other(action) => SIMPLE_OTHER_HEAD@ + action@ + SIMPLE_OTHER_TAIL@,
    }
}

/// The request that a simple action becomes: what it asks for, between
/// the fixed opening and the fixed rules.
pub open spec fn simple_request(action: SimpleAction) -> Seq<char> {
    SIMPLE_REQUEST_HEAD@ + simple_action_text(action) + SIMPLE_REQUEST_TAIL@
}

impl SimpleAction {
    /// The request to put to the chat model for this action. The code to
    /// change goes in place of `<CODE>`.
    pub fn to_chat_gpt_prompt(&self) -> (prompt: String)
        ensures
            prompt@ == simple_request(*self),
    {
        let action_desc = match self {
            SimpleAction::Refactor => SIMPLE_REFACTOR.to_owned(),
            SimpleAction::Document => SIMPLE_DOCUMENT.to_owned(),
            SimpleAction::AddDocStrings => SIMPLE_ADD_DOC_STRINGS.to_owned(),
            SimpleAction::SplitLongFunctions => SIMPLE_SPLIT_LONG_FUNCTIONS.to_owned(),
            SimpleAction::RemoveDeadCode => SIMPLE_REMOVE_DEAD_CODE.to_owned(),
            SimpleAction::AddErrorHandling => SIMPLE_ADD_ERROR_HANDLING.to_owned(),
            SimpleAction::Other(action) =>
                in_words(SIMPLE_OTHER_HEAD, action.as_str(), SIMPLE_OTHER_TAIL),
        };
        in_words(SIMPLE_REQUEST_HEAD, action_desc.as_str(), SIMPLE_REQUEST_TAIL)
    }
}

/// The request of an action that fits any language.
pub open spec fn common_request(action: CommonAction) -> Seq<char> {
    match action {
        CommonAction::Refactor => COMMON_REFACTOR@,
        CommonAction::Document => COMMON_DOCUMENT@,
        CommonAction::AddDocStrings => COMMON_ADD_DOC_STRINGS@,
        CommonAction::SplitLongFunctions => COMMON_SPLIT_LONG_FUNCTIONS@,
        CommonAction::RemoveDeadCode => COMMON_REMOVE_DEAD_CODE@,
        CommonAction::AddErrorHandling => COMMON_ADD_ERROR_HANDLING@,
        CommonAction::EncapsulateFields => COMMON_ENCAPSULATE_FIELDS@,
        CommonAction::ApplyFunctionalStyle => COMMON_APPLY_FUNCTIONAL_STYLE@,
        CommonAction::GeneralizeTypes => COMMON_GENERALIZE_TYPES@,
        CommonAction::ValidateParameters => COMMON_VALIDATE_PARAMETERS@,
        CommonAction::SimplifyConditionalStatements => COMMON_SIMPLIFY_CONDITIONAL_STATEMENTS@,
        CommonAction::Other(words) => COMMON_OTHER_HEAD@ + words@ + COMMON_OTHER_TAIL@,
    }
}

/// The request of an action on Python code.
pub open spec fn python_request(action: PythonAction) -> Seq<char> {
    match action {
        PythonAction::AddTypeAnnotations => PYTHON_ADD_TYPE_ANNOTATIONS@,
        PythonAction::ConvertPrintToLogging => PYTHON_CONVERT_PRINT_TO_LOGGING@,
        PythonAction::ConvertOldFormatStrings => PYTHON_CONVERT_OLD_FORMAT_STRINGS@,
        PythonAction::UseListComprehensions => PYTHON_USE_LIST_COMPREHENSIONS@,
        PythonAction::ConvertToGenerator => PYTHON_CONVERT_TO_GENERATOR@,
        PythonAction::ReplaceManualExceptions => PYTHON_REPLACE_MANUAL_EXCEPTIONS@,
        PythonAction::UseUnderScoresInNumericLiterals =>
            PYTHON_USE_UNDER_SCORES_IN_NUMERIC_LITERALS@,
        PythonAction::UseFormattedStringLiterals => PYTHON_USE_FORMATTED_STRING_LITERALS@,
        PythonAction::ConvertToDataClass => PYTHON_CONVERT_TO_DATA_CLASS@,
        PythonAction::ReplaceExplicitLoopsWithItertools =>
            PYTHON_REPLACE_EXPLICIT_LOOPS_WITH_ITERTOOLS@,
        PythonAction::UseStaticMethods => PYTHON_USE_STATIC_METHODS@,
        PythonAction::RefactorNestedFunctions => PYTHON_REFACTOR_NESTED_FUNCTIONS@,
        PythonAction::CustomFunctionAction(words) =>
            PYTHON_CUSTOM_FUNCTION_ACTION_HEAD@ + words@ + PYTHON_CUSTOM_FUNCTION_ACTION_TAIL@,
        PythonAction::CustomClassAction(words) =>
            PYTHON_CUSTOM_CLASS_ACTION_HEAD@ + words@ + PYTHON_CUSTOM_CLASS_ACTION_TAIL@,
    }
}

/// The request of an action on Rust code.
pub open spec fn rust_request(action: RustAction) -> Seq<char> {
    match action {
        RustAction::ConvertEnumToStruct => RUST_CONVERT_ENUM_TO_STRUCT@,
        RustAction::AddErrorHandling => RUST_ADD_ERROR_HANDLING@,
        RustAction::UseSerdeForSerialization => RUST_USE_SERDE_FOR_SERIALIZATION@,
        RustAction::ImplementDisplayTrait => RUST_IMPLEMENT_DISPLAY_TRAIT@,
        RustAction::ImplementFromTrait => RUST_IMPLEMENT_FROM_TRAIT@,
        RustAction::RefactorWithPatternMatching => RUST_REFACTOR_WITH_PATTERN_MATCHING@,
        RustAction::OptimizeLifetimeAnnotations => RUST_OPTIMIZE_LIFETIME_ANNOTATIONS@,
        RustAction::ReplacePanicWithResult => RUST_REPLACE_PANIC_WITH_RESULT@,
        RustAction::UseMacrosForCodeReuse => RUST_USE_MACROS_FOR_CODE_REUSE@,
        RustAction::UseBorrowingEffectively => RUST_USE_BORROWING_EFFECTIVELY@,
        RustAction::UtilizeIteratorMethods => RUST_UTILIZE_ITERATOR_METHODS@,
        RustAction::SimplifyMatchStatements => RUST_SIMPLIFY_MATCH_STATEMENTS@,
        RustAction::CustomStructAction(words) =>
            RUST_CUSTOM_STRUCT_ACTION_HEAD@ + words@ + RUST_CUSTOM_STRUCT_ACTION_TAIL@,
        RustAction::CustomFunctionAction(words) =>
            RUST_CUSTOM_FUNCTION_ACTION_HEAD@ + words@ + RUST_CUSTOM_FUNCTION_ACTION_TAIL@,
        RustAction::CustomEnumAction(words) =>
            RUST_CUSTOM_ENUM_ACTION_HEAD@ + words@ + RUST_CUSTOM_ENUM_ACTION_TAIL@,
    }
}

/// The request that an action becomes.
pub open spec fn code_request(action: CodeAction) -> Seq<char> {
    match action {
        CodeAction::CustomAction(words) => CUSTOM_ACTION_HEAD@ + words@ + CUSTOM_ACTION_TAIL@,
        CodeAction::CommonAction(common) => common_request(common),
        CodeAction::PythonAction(python) => python_request(python),
        CodeAction::RustAction(rust) => rust_request(rust),
    }
}

impl CommonAction {
    /// The request that this action becomes.
    fn request(&self) -> (prompt: String)
        ensures
            prompt@ == common_request(*self),
    {
        match self {
            CommonAction::Refactor => COMMON_REFACTOR.to_owned(),
            CommonAction::Document => COMMON_DOCUMENT.to_owned(),
            CommonAction::AddDocStrings => COMMON_ADD_DOC_STRINGS.to_owned(),
            CommonAction::SplitLongFunctions => COMMON_SPLIT_LONG_FUNCTIONS.to_owned(),
            CommonAction::RemoveDeadCode => COMMON_REMOVE_DEAD_CODE.to_owned(),
            CommonAction::AddErrorHandling => COMMON_ADD_ERROR_HANDLING.to_owned(),
            CommonAction::EncapsulateFields => COMMON_ENCAPSULATE_FIELDS.to_owned(),
            CommonAction::ApplyFunctionalStyle => COMMON_APPLY_FUNCTIONAL_STYLE.to_owned(),
            CommonAction::GeneralizeTypes => COMMON_GENERALIZE_TYPES.to_owned(),
            CommonAction::ValidateParameters => COMMON_VALIDATE_PARAMETERS.to_owned(),
            CommonAction::SimplifyConditionalStatements =>
                COMMON_SIMPLIFY_CONDITIONAL_STATEMENTS.to_owned(),
            CommonAction::Other(words) =>
                in_words(COMMON_OTHER_HEAD, words.as_str(), COMMON_OTHER_TAIL),
        }
    }
}

impl PythonAction {
    /// The request that this action becomes.
    fn request(&self) -> (prompt: String)
        ensures
            prompt@ == python_request(*self),
    {
        match self {
            PythonAction::AddTypeAnnotations => PYTHON_ADD_TYPE_ANNOTATIONS.to_owned(),
            PythonAction::ConvertPrintToLogging => PYTHON_CONVERT_PRINT_TO_LOGGING.to_owned(),
            PythonAction::ConvertOldFormatStrings => PYTHON_CONVERT_OLD_FORMAT_STRINGS.to_owned(),
            PythonAction::UseListComprehensions => PYTHON_USE_LIST_COMPREHENSIONS.to_owned(),
            PythonAction::ConvertToGenerator => PYTHON_CONVERT_TO_GENERATOR.to_owned(),
            PythonAction::ReplaceManualExceptions => PYTHON_REPLACE_MANUAL_EXCEPTIONS.to_owned(),
            PythonAction::UseUnderScoresInNumericLiterals =>
                PYTHON_USE_UNDER_SCORES_IN_NUMERIC_LITERALS.to_owned(),
            PythonAction::UseFormattedStringLiterals =>
                PYTHON_USE_FORMATTED_STRING_LITERALS.to_owned(),
            PythonAction::ConvertToDataClass => PYTHON_CONVERT_TO_DATA_CLASS.to_owned(),
            PythonAction::ReplaceExplicitLoopsWithItertools =>
                PYTHON_REPLACE_EXPLICIT_LOOPS_WITH_ITERTOOLS.to_owned(),
            PythonAction::UseStaticMethods => PYTHON_USE_STATIC_METHODS.to_owned(),
            PythonAction::RefactorNestedFunctions => PYTHON_REFACTOR_NESTED_FUNCTIONS.to_owned(),
            PythonAction::CustomFunctionAction(words) =>
                in_words(
                    PYTHON_CUSTOM_FUNCTION_ACTION_HEAD,
                    words.as_str(),
                    PYTHON_CUSTOM_FUNCTION_ACTION_TAIL,
                ),
            PythonAction::CustomClassAction(words) =>
                in_words(
                    PYTHON_CUSTOM_CLASS_ACTION_HEAD,
                    words.as_str(),
                    PYTHON_CUSTOM_CLASS_ACTION_TAIL,
                ),
        }
    }
}

impl RustAction {
    /// The request that this action becomes.
    fn request(&self) -> (prompt: String)
        ensures
            prompt@ == rust_request(*self),
    {
        match self {
            RustAction::ConvertEnumToStruct => RUST_CONVERT_ENUM_TO_STRUCT.to_owned(),
            RustAction::AddErrorHandling => RUST_ADD_ERROR_HANDLING.to_owned(),
            RustAction::UseSerdeForSerialization => RUST_USE_SERDE_FOR_SERIALIZATION.to_owned(),
            RustAction::ImplementDisplayTrait => RUST_IMPLEMENT_DISPLAY_TRAIT.to_owned(),
            RustAction::ImplementFromTrait => RUST_IMPLEMENT_FROM_TRAIT.to_owned(),
            RustAction::RefactorWithPatternMatching =>
                RUST_REFACTOR_WITH_PATTERN_MATCHING.to_owned(),
            RustAction::OptimizeLifetimeAnnotations =>
                RUST_OPTIMIZE_LIFETIME_ANNOTATIONS.to_owned(),
            RustAction::ReplacePanicWithResult => RUST_REPLACE_PANIC_WITH_RESULT.to_owned(),
            RustAction::UseMacrosForCodeReuse => RUST_USE_MACROS_FOR_CODE_REUSE.to_owned(),
            RustAction::UseBorrowingEffectively => RUST_USE_BORROWING_EFFECTIVELY.to_owned(),
            RustAction::UtilizeIteratorMethods => RUST_UTILIZE_ITERATOR_METHODS.to_owned(),
            RustAction::SimplifyMatchStatements => RUST_SIMPLIFY_MATCH_STATEMENTS.to_owned(),
            RustAction::CustomStructAction(words) =>
                in_words(
                    RUST_CUSTOM_STRUCT_ACTION_HEAD,
                    words.as_str(),
                    RUST_CUSTOM_STRUCT_ACTION_TAIL,
                ),
            RustAction::CustomFunctionAction(words) =>
                in_words(
                    RUST_CUSTOM_FUNCTION_ACTION_HEAD,
                    words.as_str(),
                    RUST_CUSTOM_FUNCTION_ACTION_TAIL,
                ),
            RustAction::CustomEnumAction(words) =>
                in_words(
                    RUST_CUSTOM_ENUM_ACTION_HEAD,
                    words.as_str(),
                    RUST_CUSTOM_ENUM_ACTION_TAIL,
                ),
        }
    }
}

impl CodeAction {
    /// The request to put to the chat model for this action. The code to
    /// change goes in place of `<CODE>`.
    pub fn to_chat_gpt_prompt(&self) -> (prompt: String)
        ensures
            prompt@ == code_request(*self),
    {
        match self {
            CodeAction::CustomAction(words) => in_words(
                CUSTOM_ACTION_HEAD,
                words.as_str(),
                CUSTOM_ACTION_TAIL,
            ),
            CodeAction::CommonAction(common) => common.request(),
            CodeAction::PythonAction(python) => python.request(),
            CodeAction::RustAction(rust) => rust.request(),
        }
    }
}

impl Default for CommonAction {
    /// To refactor.
    fn default() -> (action: Self)
        ensures
            action == CommonAction::Refactor,
    {
        CommonAction::Refactor
    }
}

impl Default for PythonAction {
    /// To refactor a class.
    fn default() -> (action: Self)
        ensures
            action matches PythonAction::CustomClassAction(words) && words@ == "Refactor"@,
    {
        PythonAction::CustomClassAction("Refactor".to_owned())
    }
}

impl Default for RustAction {
    /// To refactor a function.
    fn default() -> (action: Self)
        ensures
            action matches RustAction::CustomFunctionAction(words) && words@ == "Refactor"@,
    {
        RustAction::CustomFunctionAction("Refactor".to_owned())
    }
}

/// The kind of item that a name of the form `Language.Kind` stands for.
pub open spec fn language_item_named(name: Seq<char>) -> Option<LanguageItem> {
    if name == "Python.Function"@ {
        Some(LanguageItem::Python(PythonItem::Function))
    } else if name == "Python.Class"@ {
        Some(LanguageItem::Python(PythonItem::Class))
    } else if name == "Rust.Struct"@ {
        Some(LanguageItem::Rust(RustItem::Struct))
    } else if name == "Rust.Enum"@ {
        Some(LanguageItem::Rust(RustItem::Enum))
    } else if name == "Rust.Function"@ {
        Some(LanguageItem::Rust(RustItem::Function))
    } else {
        None
    }
}

impl LanguageItem {
    /// The kind of item that `name` stands for, letter for letter.
    pub fn from_name(name: &str) -> (item: Option<LanguageItem>)
        ensures
            item == language_item_named(name@),
    {
        if same_text(name, "Python.Function") {
            Some(LanguageItem::Python(PythonItem::Function))
        } else if same_text(name, "Python.Class") {
            Some(LanguageItem::Python(PythonItem::Class))
        } else if same_text(name, "Rust.Struct") {
            Some(LanguageItem::Rust(RustItem::Struct))
        } else if same_text(name, "Rust.Enum") {
            Some(LanguageItem::Rust(RustItem::Enum))
        } else if same_text(name, "Rust.Function") {
            Some(LanguageItem::Rust(RustItem::Function))
        } else {
            None
        }
    }
}

impl core::str::FromStr for LanguageItem {
    type Err = SearchError;

    /// The kind of item that `s` names, letter for letter; a
    /// `Configuration` error where `s` names none.
    fn from_str(s: &str) -> (item: Result<Self, Self::Err>)
        ensures
            item == match language_item_named(s@) {
                Some(named) => Ok::<LanguageItem, SearchError>(named),
                None => Err::<LanguageItem, SearchError>(SearchError::Configuration),
            },
    {
        match LanguageItem::from_name(s) {
            Some(item) => Ok(item),
            None => Err(SearchError::Configuration),
        }
    }
}

/// The kind of Python item that a name stands for, whatever the case of
/// its letters.
pub open spec fn python_item_named(name: Seq<char>) -> Option<PythonItem> {
    if lowercased(name) == "function"@ {
        Some(PythonItem::Function)
    } else if lowercased(name) == "class"@ {
        Some(PythonItem::Class)
    } else {
        None
    }
}

/// The kind of Rust item that a name stands for, whatever the case of its
/// letters.
pub open spec fn rust_item_named(name: Seq<char>) -> Option<RustItem> {
    if lowercased(name) == "struct"@ {
        Some(RustItem::Struct)
    } else if lowercased(name) == "enum"@ {
        Some(RustItem::Enum)
    } else if lowercased(name) == "function"@ {
        Some(RustItem::Function)
    } else {
        None
    }
}

impl PythonItem {
    /// The kind of Python item that `name` stands for.
    pub fn from_name(name: &str) -> (item: Option<PythonItem>)
        ensures
            item == python_item_named(name@),
    {
        let letters = chars_of(name);
        if is_name(&letters, "function") {
            Some(PythonItem::Function)
        } else if is_name(&letters, "class") {
            Some(PythonItem::Class)
        } else {
            None
        }
    }
}

impl RustItem {
    /// The kind of Rust item that `name` stands for.
    pub fn from_name(name: &str) -> (item: Option<RustItem>)
        ensures
            item == rust_item_named(name@),
    {
        let letters = chars_of(name);
        if is_name(&letters, "struct") {
            Some(RustItem::Struct)
        } else if is_name(&letters, "enum") {
            Some(RustItem::Enum)
        } else if is_name(&letters, "function") {
            Some(RustItem::Function)
        } else {
            None
        }
    }
}

impl core::str::FromStr for PythonItem {
    type Err = SearchError;

    /// The kind of Python item that `s` names, in capital or small
    /// letters; a `Configuration` error where `s` names none.
    fn from_str(s: &str) -> (item: Result<Self, Self::Err>)
        ensures
            item == match python_item_named(s@) {
                Some(named) => Ok::<PythonItem, SearchError>(named),
                None => Err::<PythonItem, SearchError>(SearchError::Configuration),
            },
    {
        match PythonItem::from_name(s) {
            Some(item) => Ok(item),
            None => Err(SearchError::Configuration),
        }
    }
}

impl core::str::FromStr for RustItem {
    type Err = SearchError;

    /// The kind of Rust item that `s` names, in capital or small letters;
    /// a `Configuration` error where `s` names none.
    fn from_str(s: &str) -> (item: Result<Self, Self::Err>)
        ensures
            item == match rust_item_named(s@) {
                Some(named) => Ok::<RustItem, SearchError>(named),
                None => Err::<RustItem, SearchError>(SearchError::Configuration),
            },
    {
        match RustItem::from_name(s) {
            Some(item) => Ok(item),
            None => Err(SearchError::Configuration),
        }
    }
}

} // verus!
