//! Verified core of the galvanized/tagged desktop experiments: JSON object
//! browsing state, share-ticket text, vault unlocking, Willow profiles and
//! spaces, chat documents and peer bookkeeping.
pub mod text;
pub mod json_path;
pub mod object_widget;
pub mod ticket;
pub mod profile;
pub mod spaces;
pub mod vault;
pub mod chat;
pub mod directory;
pub mod peers;
pub mod protocol;
pub mod discovery;
pub mod onboarding;
pub mod widgets;
pub mod forms;
pub mod navigation;
pub mod panel;
