pub mod audio_file;
pub mod settings;
pub mod task;
