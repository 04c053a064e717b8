pub mod analysis;
pub mod darkifier;
pub mod diagnostics;
pub mod engine;
pub mod export;
pub mod failure;
pub mod packages;
pub mod pathmap;
pub mod source;
pub mod strings;
pub mod symbols;
pub mod tooltip;
pub mod world;
