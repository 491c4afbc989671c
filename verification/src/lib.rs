//! Resolves the creation timestamp embedded in a media container file and
//! computes the renamed path that prefixes that timestamp to the file name.
//!
//! The container dispatcher chooses a format from the file's extension; the
//! Matroska and ISO-BMFF resolvers extract the most trustworthy creation
//! date from an already-parsed document; the offset applier shifts it by a
//! run-wide number of seconds; and the path namer builds the new path.

pub mod ascii;
pub mod decimal;
pub mod dispatch;
pub mod errors;
pub mod matroska_date;
pub mod mp4_date;
pub mod paths;
pub mod timestamp;
