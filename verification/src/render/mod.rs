pub mod layout;
pub mod svg;
