//! Editing of the metadata embedded in a Windows executable: the application
//! icon, the version strings and the digital-signature directory entry.

pub mod error;
pub mod container;
pub mod signature;
pub mod raster;
pub mod bitmap;
pub mod strings;
pub mod editor;
pub mod icon;
pub mod version;
pub mod tree;
pub mod resources;
pub mod session;
pub mod launcher;
