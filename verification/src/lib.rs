//! The native side of a desktop shell for a video tool: where its Python
//! service is found and how it is launched, and which files of a directory
//! are videos.

pub mod launch;
pub mod listing;
pub mod paths;
pub mod python;
pub mod sorting;
pub mod text;
pub mod video;
