//! Verified core of a spectrogram video exporter: the commands that turn an
//! audio file into a spectrogram video, the decisions taken between them, the
//! audio files of a folder tree with the spectrogram that goes with each, and
//! the status texts of a batch run.

pub mod commands;
pub mod number;
pub mod paths;
pub mod render_laws;
pub mod renderer;
pub mod scanner;
pub mod status;
pub mod text;
