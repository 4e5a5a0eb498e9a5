pub mod chat;
pub mod json;
pub mod protocol;
pub mod reactions;
