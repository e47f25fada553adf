pub mod ast_helpers;
pub mod report;
pub mod rules;
pub mod syntax;
pub mod text;
pub mod util;
