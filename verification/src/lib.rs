//! The core of a terminal dashboard for a small Linux host: readings are
//! taken from the raw text of the kernel's tables, cumulative counters are
//! turned into rates and percentages, each metric keeps a window of its most
//! recent points, and the windows are drawn as graphs of a few rows. Reading
//! the tables and driving the terminal is left to the program around it.

pub mod control;
pub mod cpu;
pub mod dashboard;
pub mod dma;
pub mod history;
pub mod layout;
pub mod meminfo;
pub mod net;
pub mod pattern;
pub mod quantize;
pub mod rates;
pub mod text;
