//! Bodies of the paste server's requests and answers.
pub mod paste_vm;
pub mod user_vm;
