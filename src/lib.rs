//! Decision logic of a contactless IC-card scanner daemon: card identifier
//! rendering, USB topology to logical port mapping, duplicate-read
//! suppression and the choice of audio feedback for each scan.
pub mod text;
pub mod card;
pub mod port;
pub mod dedup;
pub mod calendar;
pub mod usb;
pub mod dispatch;
pub mod backend;
