//! Public suffix and registrable domain extraction on top of a suffix classifier.
//!
//! A classifier (an implementation of [`List`]) is handed the labels of a
//! domain name from right to left and answers with the byte length of the
//! public suffix it matched.  This crate turns that answer into borrowed views
//! of the original name, with bound checks that turn any inconsistent answer
//! into absence, and compares views without regard to a trailing dot.
pub mod compare;
pub mod labels;
pub mod laws;
pub mod list;
pub mod view;

pub use labels::Labels;
pub use list::{domain_from_info, suffix_from_info, List};
pub use view::{Domain, Info, Suffix, Type};
