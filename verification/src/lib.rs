//! Asset provisioning and input bridging for a launcher of a retro
//! first-person-shooter engine.
//!
//! The launcher lets a player use the bundled data set or supply files of
//! their own. This crate holds the rules of that: which file names count
//! and for what (`names`), the record of what has been supplied
//! (`assets`, `provision`), the requests that keep the durable store in
//! step with it (`store`, `mirror`), how the record is put together again
//! at start-up (`restore`), what is handed to the engine (`loader`), and
//! how key notifications become native keyboard events (`input`). Talking
//! to the store, the file picker, the engine and the page is left to the
//! caller.

pub mod assets;
pub mod input;
pub mod loader;
pub mod mirror;
pub mod names;
pub mod provision;
pub mod restore;
pub mod store;

pub use crate::assets::{FileUpload, UploadStateFiles};
pub use crate::provision::UploadState;
pub use crate::restore::load_upload_state;
