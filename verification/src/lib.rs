//! Composition and dispatch of USB HID interfaces.
//!
//! A device is assembled from a fixed, heterogeneous list of interfaces. This
//! crate holds the capability every interface offers, the list that routes
//! class requests by interface number, the protocol that turns configurations
//! into live interfaces, and the encoding of the HID descriptor body.
pub mod allocate;
pub mod collection;
pub mod descriptor;
pub mod interface;
pub mod usb;
