pub mod misc;
pub mod storedb;
