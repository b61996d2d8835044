//! The listing and rendering rules of a small markdown blog.

pub mod entry_name;
pub mod error;
pub mod listing;
pub mod markdown;
pub mod order;
pub mod pages;
pub mod text;
pub mod title;
