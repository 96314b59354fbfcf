pub mod cursor;
pub mod error;
pub mod naming;
pub mod text;
