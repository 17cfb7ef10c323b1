//! Watermarks the Windows wallpaper with the machine's network identity.
//!
//! - `network`: the machine's adapters, from what the system reports of them
//! - `watermark`: the lines of the watermark
//! - `picture`: the wallpaper as it is decoded, laid over the screen and encoded
//! - `job`: the stages in which the watermarked wallpaper is made
//! - `session`: what the tool's window does
//! - `text`, `ipv4`, `order`: texts, IPv4 addresses and the order of texts

pub mod ipv4;
pub mod job;
pub mod network;
pub mod order;
pub mod picture;
pub mod session;
pub mod text;
pub mod watermark;
