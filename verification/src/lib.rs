//! Verified core of the flecs entrypoint: container configurations, network
//! and volume planning, interface-address bookkeeping and the textual formats
//! they use. The Docker, procfs and libc I/O around it stays with the program that
//! drives these functions.

pub mod docker;
pub mod net;
pub mod signal;
pub mod text;
