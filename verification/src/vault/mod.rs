//! A vault: notes below a root directory that nothing may reach out of.
pub mod ops;
pub mod link_laws;
pub mod path;
pub mod path_laws;
pub mod tree;
pub mod tree_laws;
pub mod wikilink;
