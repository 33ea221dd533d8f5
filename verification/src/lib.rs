//! Verified core of a pre-boot HID input subsystem.
//!
//! The crate decodes HID report descriptors into a plain field model, turns
//! raw input reports into decoded key events and pointer state, and provides a
//! bit-exact codec for the HII keyboard-layout package format.

pub mod status;
pub mod keys;
pub mod keydata;
pub mod layout;
pub mod codec;
pub mod default_layout;
pub mod key_queue;
pub mod fields;
pub mod hidparse;
pub mod keyboard;
pub mod pointer;
pub mod logger;

use vstd::prelude::*;

verus! {

} // verus!
