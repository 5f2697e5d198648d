pub mod cpu;
pub mod disk;
pub mod error;
pub mod memory;
pub mod network;
pub mod osinfo;
pub mod sampler;
pub mod scheduler;
pub mod storage;
pub mod text;
