//! Summaries of Terraform plans: parse the changes that a plan announces,
//! filter, sort, count and compare them, and render them as text, JSON, CSV,
//! a table or a Markdown step summary.
pub mod cli;
pub mod glob_match;
pub mod parser;
pub mod paths;
pub mod text;
pub mod json_text;
pub mod renderer;
pub mod terraform;
pub mod compare;
pub mod laws;
pub mod diff_render;
