//! The core of a DASH client: from a parsed MPD manifest to the ordered lists
//! of media segments to fetch, and the decisions taken while fetching them.
//!
//! A download is described by a [`DashDownloader`]. Its manifest, once
//! parsed into an [`mpd::Mpd`], is resolved by
//! [`resolver::resolve_manifest`] into the fragments of an audio and of a
//! video stream; [`transfer`] says how to ask for each fragment and what to
//! make of the answer.

pub mod addressing;
pub mod base_url;
pub mod data_uri;
pub mod decimal;
pub mod downloader;
pub mod error;
pub mod fragment;
pub mod mpd;
pub mod placeholders;
pub mod range;
pub mod resolver;
pub mod select;
pub mod template;
pub mod text;
pub mod timeline;
pub mod transfer;
pub mod xlink;

pub use downloader::{DashDownloader, HttpClient, ProgressObserver};
pub use error::DashMpdError;
pub use select::QualityPreference;
