//! Decoding of the broadcast catalog feed, quality selection for subscriptions and
//! planning of the downloads that they lead to.
mod text;
pub mod url_util;
pub mod decoder;
pub mod feed;
pub mod subscriptions;
pub mod paths;
pub mod config;
pub mod download;
