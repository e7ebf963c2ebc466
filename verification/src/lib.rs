//! Backend library for a desktop e-book manager: a book metadata store
//! with verified access contracts, a small synchronous command surface
//! over it, and placeholder text-search and question-answering stubs.
//! The embedding application persists the store's rows and carries
//! results to the frontend.

pub mod ai_engine;
pub mod book;
pub mod commands;
pub mod db;
pub mod errors;
pub mod properties;
pub mod text;
