//! Synchronisation core of a wishlist application: a local record store is
//! reconciled with a commit-addressed remote repository, and local edits are
//! queued and written back after a quiet period.
pub mod auth;
pub mod bootstrap;
pub mod data;
pub mod debounce;
pub mod gist;
pub mod kind;
pub mod list_id;
pub mod reconcile;
pub mod records;
pub mod remote;
pub mod search;
pub mod session;
pub mod slug;
pub mod status;
pub mod storage;
pub mod store;
pub mod sync;
pub mod tags;
pub mod text;
pub mod writeback;
