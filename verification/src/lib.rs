//! Sorting engine for an e-book and audiobook library.
//!
//! The library decides, for each candidate file, where it belongs under a
//! user-defined naming template and how it gets there safely: extension
//! dispatch, metadata resolution, template rendering, and a relocation plan
//! whose move-or-copy steps are modelled as a state machine proved never to
//! lose a file. All filesystem and terminal work is left to the surrounding
//! application; the library works on plain values.

pub mod audiobook;
pub mod config;
pub mod epub;
pub mod extension;
pub mod metadata;
pub mod mobi;
pub mod relocate;
pub mod selection;
pub mod sorter;
pub mod template;
pub mod text;
