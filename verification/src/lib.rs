//! A verified core for a keyboard-driven mail client.
pub mod accounts;
pub mod app;
pub mod config;
pub mod demo;
pub mod demo_session;
pub mod desk;
pub mod email;
pub mod gmail;
pub mod grouping;
pub mod headers;
pub mod imap_client;
pub mod imap_worker;
pub mod laws;
pub mod listing;
pub mod mailbox;
pub mod modes;
pub mod order;
pub mod promises;
pub mod recover;
pub mod replies;
pub mod session;
pub mod startup;
pub mod state;
pub mod tallies;
pub mod text;
pub mod threading;
pub mod timestamp;
pub mod ui;
pub mod uids;
pub mod undo;
pub mod worker;
