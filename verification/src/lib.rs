//! Button remapping for a multi-button gaming mouse.
//!
//! The mouse reports every button press on an auxiliary keyboard-like
//! interface as two raw records: one that carries a scancode and one that
//! carries the press state.  This crate pairs those records into logical
//! button events, resolves each event through a table of user bindings and
//! says which action has to be carried out.  Reading the device and carrying
//! out the actions is left to the caller.

pub mod config;
pub mod device;
pub mod dispatch;
pub mod document;
pub mod gkey;
pub mod keys;
mod ordmap;
pub mod record;
pub mod sync;
pub mod table;
pub mod text;
pub mod xdo;
