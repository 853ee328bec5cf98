//! Extraction of Nintendo Switch content archives (NCA) and the path logic
//! around them: where a title's archive lies, how the system's storage is
//! mounted to reach it, and the checks that decide whether an extraction
//! succeeds.
pub mod util;
pub mod redirect;
