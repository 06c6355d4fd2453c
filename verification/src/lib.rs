pub mod codec;
pub mod config;
pub mod gmail;
pub mod headers;
pub mod icloud;
pub mod json;
pub mod mcp;
pub mod oauth;
pub mod outlook;
pub mod text;
pub mod tools;
