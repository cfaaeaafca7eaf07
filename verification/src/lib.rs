//! Paper selection and page generation for a daily arXiv digest.
pub mod ai_api;
pub mod arxiv;
pub mod config;
pub mod crawler;
pub mod date;
pub mod filter;
pub mod json;
pub mod logger;
pub mod mkdocs;
pub mod text;
pub mod yaml;
