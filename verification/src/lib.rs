pub mod actions;
pub mod code_cleaning;
pub mod discovery;
pub mod error;
pub mod instructions;
pub mod lang;
pub mod patch;
pub mod prompts;
pub mod retry;
pub mod search;
pub mod syntax;
pub mod text;
