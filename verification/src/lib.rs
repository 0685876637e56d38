//! Registration and activation brokering for dynamically loadable
//! component servers.
//!
//! The crate models the three pieces such a server needs and proves the
//! behaviour of each:
//!
//! - a transactional view of the hierarchical configuration store
//!   ([`registry`]): edits made through a [`registry::Transaction`] stay
//!   invisible until the transaction commits, and are discarded otherwise;
//! - the tree of entries that advertises a class to the host
//!   ([`registry::register_com_extension`] and its inverse);
//! - the activation broker ([`class_factory`]): identifier dispatch, the
//!   output-slot protocol, and the process-wide "keep loaded" lock count.
//!
//! Identifiers are 128-bit values ([`com::Guid`]) rendered into their
//! canonical braced, hyphenated, lowercase-hex textual form.

pub mod class_factory;
pub mod com;
pub mod registry;
pub mod store;
