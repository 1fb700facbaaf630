pub mod backend;
pub mod config;
pub mod cups;
pub mod hexfmt;
pub mod lns;
pub mod text;
