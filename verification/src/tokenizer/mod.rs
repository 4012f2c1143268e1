pub mod stream;
pub mod token;
pub mod tokenizer;
pub mod laws;
