pub mod block;
pub mod context;
pub mod grammar;
pub mod laws;
pub mod code;
pub mod content;
pub mod util;
pub mod utils;
pub mod parse;
pub mod template;
pub mod types;

pub use template::Template;
