pub mod image;
pub mod search;
pub mod tag;
pub mod user;
