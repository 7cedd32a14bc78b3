//! Video searches on Invidious servers and with yt-dlp, and whether lyrics will be shown for
//! what they find.
//!
//! The library tells what to send and what to make of the answers; sending is left to its
//! callers.
pub mod annotate;
pub mod error;
pub mod instance;
pub mod json;
pub mod lyrics;
pub mod request;
pub mod text;
pub mod title;
pub mod video;
pub mod ytdlp;
