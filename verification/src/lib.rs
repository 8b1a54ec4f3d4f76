//! A verified engine for a small desktop-theme configuration language: a
//! tokenizer, a directive parser that builds a [`config::Config`] document,
//! and a template-interpolation engine that renders compiled templates
//! against a variable map or an iterated color scheme.

pub mod args;
pub mod cache;
pub mod common;
pub mod config;
pub mod error;
pub mod indexable;
pub mod material;
pub mod parser;
pub mod template;
pub mod text;
pub mod tokenizer;
