//! Retention decisions for the files of one directory.
//!
//! The candidates are ordered by rising age and annotated with two running
//! totals of their sizes. A policy of up to four independent thresholds then
//! condemns every file that at least one threshold rules out.

pub mod days;
pub mod disk;
pub mod error;
pub mod file;
pub mod file_size;
pub mod number;
pub mod order;
pub mod policy;

pub use days::parse_days;
pub use days::DaysSec;
pub use disk::parse_disk_percent;
pub use disk::DiskFreePercent;
pub use disk::DiskInfo;
pub use error::ParseError;
pub use file::parse_file;
pub use file::FileInfo;
pub use file::MyError;
pub use file_size::parse_max_size;
pub use file_size::FileSize;
pub use order::count_file_size;
pub use policy::list_file;
pub use policy::RetentionPolicy;
