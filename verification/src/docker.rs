pub mod container;
pub mod network;
pub mod volume;
