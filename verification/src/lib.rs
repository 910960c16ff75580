pub mod address;
pub mod args;
pub mod blender;
pub mod category;
pub mod config;
pub mod error;
pub mod keyed;
pub mod models;
pub mod packages;
pub mod page_cache;
pub mod portal;
pub mod process;
pub mod search;
pub mod text;
pub mod utils;
pub mod version;
