//! The capability that every HID interface offers to the device.
use crate::descriptor::{
    announced_length, body_for_length, hid_descriptor_bytes, lemma_report_body_bytes,
    packed_bytes, HidDescriptorBody, HidProtocol, MAX_REPORT_DESCRIPTOR_LEN,
};
use crate::usb::interface_number_value;
use usb_device::bus::{InterfaceNumber, StringIndex};
use usb_device::descriptor::DescriptorWriter;
use usb_device::UsbError;
use vstd::prelude::*;

verus! {

/// A class request that changes an interface, with the data the host sent.
pub enum Request {
    /// SET_REPORT with the report's bytes.
    SetReport(Seq<u8>),
    /// GET_REPORT into a buffer that holds these bytes before the call.
    GetReport(Seq<u8>),
    /// The host has taken the report that GET_REPORT prepared.
    GetReportAck,
    /// SET_IDLE for a report id, with the new idle rate.
    SetIdle(u8, u8),
    /// SET_PROTOCOL.
    SetProtocol(HidProtocol),
}

/// What an interface hands back for a `Request`.
pub enum Reply {
    /// The outcome of SET_REPORT or of the acknowledgment.
    Status(Result<(), UsbError>),
    /// The buffer after GET_REPORT, and the number of bytes written to it.
    Report(Seq<u8>, Result<usize, UsbError>),
    /// SET_IDLE and SET_PROTOCOL cannot fail and return nothing.
    Done,
}

/// What the device can read of an interface between two requests.
pub struct InterfaceState {
    /// The interface number.
    pub id: u8,
    /// The report descriptor.
    pub report_descriptor: Seq<u8>,
    /// The protocol in use.
    pub protocol: HidProtocol,
    /// The idle rate stored for each report id.
    pub idle: spec_fn(u8) -> u8,
    /// The string, if any, for each string index and language.
    pub strings: spec_fn(StringIndex, u16) -> Option<Seq<char>>,
}

/// One HID interface of the device, bound to the interface number that the
/// bus allocator gave it.
///
/// The spec functions are the interface as its callers see it. `handles`,
/// `reset_to` and `wrote_descriptors` relate the state before an operation to
/// the state after it and to its result; each implementation says what they
/// are, and its methods must keep to them.
pub trait InterfaceClass {
    /// What the device can read of this interface. The interface number and
    /// the report descriptor in it never change.
    spec fn state(&self) -> InterfaceState;

    /// This interface can serve `request` by handing back `reply` and going
    /// to the state `after`.
    spec fn handles(&self, request: Request, after: InterfaceState, reply: Reply) -> bool;

    /// `after` is this interface with idle rates and protocol back at their
    /// power-up values.
    spec fn reset_to(&self, after: InterfaceState) -> bool;

    /// Writing this interface's descriptors took the writer from `before` to
    /// `after` and returned `result`.
    spec fn wrote_descriptors(
        &self,
        before: DescriptorWriter,
        after: DescriptorWriter,
        result: Result<(), UsbError>,
    ) -> bool;

    fn report_descriptor(&self) -> (r: &[u8])
        ensures
            r@ == self.state().report_descriptor,
    ;

    fn id(&self) -> (r: InterfaceNumber)
        ensures
            interface_number_value(r) == self.state().id,
    ;

    /// Appends the interface descriptor and the HID descriptor body to the
    /// writer, and fails where the writer has no room left.
    fn write_descriptors(&self, writer: &mut DescriptorWriter) -> (r: Result<(), UsbError>)
        ensures
            self.wrote_descriptors(*old(writer), *final(writer), r),
    ;

    fn get_string(&self, index: StringIndex, lang_id: u16) -> (r: Option<&str>)
        ensures
            r is Some <==> (self.state().strings)(index, lang_id) is Some,
            r is Some ==> r.unwrap()@ == (self.state().strings)(index, lang_id).unwrap(),
    ;

    fn reset(&mut self)
        ensures
            old(self).reset_to(final(self).state()),
            final(self).state().id == old(self).state().id,
            final(self).state().report_descriptor == old(self).state().report_descriptor,
    ;

    fn set_report(&mut self, data: &[u8]) -> (r: Result<(), UsbError>)
        ensures
            old(self).handles(Request::SetReport(data@), final(self).state(), Reply::Status(r)),
            final(self).state().id == old(self).state().id,
            final(self).state().report_descriptor == old(self).state().report_descriptor,
    ;

    fn get_report(&mut self, data: &mut [u8]) -> (r: Result<usize, UsbError>)
        ensures
            old(self).handles(
                Request::GetReport(old(data)@),
                final(self).state(),
                Reply::Report(final(data)@, r),
            ),
            final(data)@.len() == old(data)@.len(),
            r is Ok ==> r.unwrap() <= old(data)@.len(),
            final(self).state().id == old(self).state().id,
            final(self).state().report_descriptor == old(self).state().report_descriptor,
    ;

    fn get_report_ack(&mut self) -> (r: Result<(), UsbError>)
        ensures
            old(self).handles(Request::GetReportAck, final(self).state(), Reply::Status(r)),
            final(self).state().id == old(self).state().id,
            final(self).state().report_descriptor == old(self).state().report_descriptor,
    ;

    fn set_idle(&mut self, report_id: u8, value: u8)
        ensures
            old(self).handles(Request::SetIdle(report_id, value), final(self).state(), Reply::Done),
            final(self).state().id == old(self).state().id,
            final(self).state().report_descriptor == old(self).state().report_descriptor,
    ;

    fn get_idle(&self, report_id: u8) -> (r: u8)
        ensures
            r == (self.state().idle)(report_id),
    ;

    fn set_protocol(&mut self, protocol: HidProtocol)
        ensures
            old(self).handles(Request::SetProtocol(protocol), final(self).state(), Reply::Done),
            final(self).state().protocol == protocol,
            final(self).state().id == old(self).state().id,
            final(self).state().report_descriptor == old(self).state().report_descriptor,
    ;

    fn get_protocol(&self) -> (r: HidProtocol)
        ensures
            r == self.state().protocol,
    ;

    /// The seven bytes of the HID descriptor body that announces this
    /// interface's report descriptor.
    fn hid_descriptor_body(&self) -> (r: [u8; 7])
        requires
            self.state().report_descriptor.len() <= MAX_REPORT_DESCRIPTOR_LEN,
        ensures
            r@ == hid_descriptor_bytes(self.state().report_descriptor.len() as u16),
            body_for_length(self.state().report_descriptor.len() as int) is Some,
            r@ == packed_bytes(
                body_for_length(self.state().report_descriptor.len() as int).unwrap(),
            ),
            announced_length(r@) == self.state().report_descriptor.len(),
    {
        let len: usize = self.report_descriptor().len();
        proof {
            lemma_report_body_bytes(len as u16);
        }
        HidDescriptorBody::report(len as u16).pack()
    }
}

} // verus!
