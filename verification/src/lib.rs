//! Database dictionary generation core: relation discovery, table filtering,
//! document rendering and ER diagram layout over database metadata.

pub mod text;
pub mod model;
pub mod naming;
pub mod matching;
pub mod relations;
pub mod inference;
pub mod filters;
pub mod config;
pub mod connection;
pub mod catalog;
pub mod labels;
pub mod render;
pub mod docx;
pub mod docx_build;
pub mod template;
pub mod er;
pub mod er_html;
pub mod pipeline;
pub mod laws;
pub mod document_laws;
