pub mod arena;
pub mod heapy;
pub mod memory_page;
