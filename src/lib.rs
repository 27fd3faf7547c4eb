pub mod model;
pub mod text;
pub mod error;
pub mod scorer;
pub mod classify;
pub mod parse;
pub mod feed;
pub mod store;
pub mod repository;
pub mod rank;
pub mod persona;
pub mod todo;
