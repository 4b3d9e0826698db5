//! Verified core of the audio quality bench: the decisions, layouts and text
//! formats around the ViSQOL evaluation, with their contracts.

pub mod alignment;
pub mod decompress;
pub mod mode;
pub mod patches;
pub mod peaks;
pub mod report;
pub mod segments;
pub mod silence;
pub mod text;
pub mod visqol_csv;
pub mod waveform;

pub use decompress::{decompress_fast, decompress_zstd};
pub use mode::VisqolMode;
pub use report::ReportConfig;
