//! Batch audio conversion: the rules of the transcoding pipeline and of the
//! worker-pool scheduler that runs many conversions side by side.

pub mod cover_art;
pub mod models;
pub mod paths;
pub mod pipeline;
pub mod tasks_manager;
pub mod text;
pub mod transcode;
