//! Terminal web reader: the verified core.
pub mod text;
pub mod weburl;
pub mod state;
pub mod boss;
pub mod html;
pub mod plugin;
pub mod generic;
pub mod sangtacviet;
pub mod layout;
pub mod reader;
