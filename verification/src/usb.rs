//! The types of the USB device stack and of the heterogeneous list that the
//! library carries through its contracts, and the one call it makes into them.
use frunk::{HCons, HNil};
use usb_device::bus::{InterfaceNumber, StringIndex};
use usb_device::descriptor::DescriptorWriter;
use usb_device::UsbError;
use vstd::prelude::*;

verus! {

/// `frunk::HNil`, the empty list.
#[verifier::external_type_specification]
pub struct ExHNil(HNil);

/// `frunk::HCons`, a list cell with its two public fields `head` and `tail`.
#[verifier::external_type_specification]
#[verifier::reject_recursive_types(H)]
#[verifier::reject_recursive_types(T)]
pub struct ExHCons<H, T>(HCons<H, T>);

/// `usb_device::bus::InterfaceNumber`, the handle of an allocated interface.
#[verifier::external_type_specification]
#[verifier::external_body]
pub struct ExInterfaceNumber(InterfaceNumber);

/// `usb_device::bus::StringIndex`, the handle of a string descriptor.
#[verifier::external_type_specification]
#[verifier::external_body]
pub struct ExStringIndex(StringIndex);

/// `usb_device::descriptor::DescriptorWriter`, the stream that descriptors
/// are appended to.
#[verifier::external_type_specification]
#[verifier::external_body]
pub struct ExDescriptorWriter<'a>(DescriptorWriter<'a>);

/// `usb_device::UsbError`, the failure of a transfer or of a descriptor write.
#[verifier::external_type_specification]
#[verifier::external_body]
pub struct ExUsbError(UsbError);

/// The number that an `InterfaceNumber` holds: what
/// `<u8 as From<InterfaceNumber>>::from` returns for it.
pub uninterp spec fn interface_number_value(n: InterfaceNumber) -> u8;

/// Calls `<u8 as From<InterfaceNumber>>::from`, which returns the handle's
/// only field. Nothing is claimed of the number beyond its name.
#[verifier::external_body]
pub(crate) fn interface_number_to_u8(n: InterfaceNumber) -> (r: u8)
    ensures
        r == interface_number_value(n),
{
    u8::from(n)
}

} // verus!
