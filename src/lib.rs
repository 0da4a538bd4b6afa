//! Device drivers of a small microkernel: a URL-scheme resource registry,
//! AC97 audio playback through a descriptor ring, an IDE disk driver, a
//! serial console, and their debug output.
//!
//! The library holds the drivers' decisions and data handling; register
//! I/O, physical memory and the scheduler belong to the platform, which
//! carries out the plans and actions the library computes.
pub mod ac97;
pub mod critical;
pub mod debug;
pub mod event;
pub mod ide;
pub mod scheme;
pub mod serial;
pub mod url;
pub mod wav;
