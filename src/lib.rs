pub mod error;
pub mod text;
pub mod hash;
pub mod resolver;
pub mod engine;
pub mod pipeline;
