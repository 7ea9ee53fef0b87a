pub mod format;
