//! Reads the gross weight out of the text frames that a serial scale sends, and formats the
//! record that stores it.

pub mod chars;
pub mod frame;
pub mod laws;
pub mod reader;
pub mod record;
pub mod scan;

pub use reader::{read_failure_message, LineReader, ReadStep};
pub use record::{format_record, Timestamp};
pub use scan::{parse_scale_data, scan_frame, FrameScan};
