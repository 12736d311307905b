//! Compiles declarative action definitions into metadata documents,
//! resolved link templates and an HTTP route table.

pub mod text;
pub mod href;
pub mod ir;
pub mod metadata;
pub mod router;
pub mod handle_post;
pub mod config;
pub mod keypair;
