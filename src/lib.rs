//! A relay that turns a channel or playlist id into the upload list of the
//! video platform's playlist-items API, reduced to `{videoId, title}` pairs.
//!
//! Everything here is pure: the host program performs the HTTP exchange and
//! reads its configuration, and hands the results to these functions.
pub mod playlist_id;
pub mod reply;
pub mod shaping;
pub mod upstream;
