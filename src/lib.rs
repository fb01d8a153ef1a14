//! A live table of a host's network connections: the snapshot engine that
//! filters, orders and navigates the table, verified against its contracts.
pub mod app;
pub mod dns;
pub mod entry;
pub mod event;
pub mod filter;
pub mod process;
pub mod selection;
pub mod sort;
pub mod text;
pub mod view;
