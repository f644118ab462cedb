//! The editor's pure logic: the structure tree, what may be inserted
//! where, and the edit forms.
pub mod component_kind;
pub mod colors;
pub mod cursor;
pub mod details;
pub mod editform;
pub mod form_session;
pub mod form_textarea;
pub mod help;
pub mod nav;
pub mod saving;
pub mod theme;
pub mod tree;
pub mod tree_laws;
