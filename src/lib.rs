//! A static-site generator: markdown posts become HTML pages sharing one
//! template, plus a landing page listing the posts newest first.

pub mod config;
pub mod images;
pub mod index;
pub mod paths;
pub mod post;
pub mod site;
pub mod template;
pub mod text;
pub mod watch;
