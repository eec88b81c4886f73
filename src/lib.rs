//! Editing support for the key/value configuration file of a desktop
//! notification daemon: a line-oriented parser and serializer, a typed model
//! of the recognised keys, and the modal edit session that drives the editor.
pub mod text;
pub mod config;
pub mod mako_config;
pub mod session;
