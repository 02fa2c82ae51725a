pub mod tag;
pub mod tagresponse;
pub mod image;
pub mod imageresponse;
pub mod taggedimage;
pub mod user;
