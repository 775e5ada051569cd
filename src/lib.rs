//! Incremental writer for the NPY array format: a fixed-size header that is
//! reserved when the stream opens and patched with the true row count when it
//! closes, with the row data streamed in between.

mod decimal;
mod header;
mod stream;

pub use header::{make_header, HEADER_LEN, MAX_DESCRIPTOR_LEN};
pub use stream::NPYStream;
