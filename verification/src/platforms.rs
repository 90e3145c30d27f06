//! What the tools and interfaces of each platform answer, read into the
//! values that a sample is made of. Running the tools and calling the
//! interfaces is the caller's part.

pub mod linux;
pub mod windows;
