//! The HID class descriptor: its constants and the seven bytes of its body.
use vstd::prelude::*;

verus! {

/// Version 1.11 of the HID specification, as a binary-coded decimal.
pub const SPEC_VERSION_1_11: u16 = 0x0111;

/// The country code of hardware that is not localized.
pub const COUNTRY_CODE_NOT_SUPPORTED: u8 = 0x00;

/// The length that the body of a HID descriptor has on the wire.
pub const HID_DESCRIPTOR_BODY_LEN: usize = 7;

/// The largest report descriptor whose length the body can carry.
pub const MAX_REPORT_DESCRIPTOR_LEN: usize = 0xFFFF;

/// The class descriptors that a HID interface can announce.
#[derive(Clone, Copy, Debug, PartialEq, Eq, Structural)]
pub enum DescriptorType {
    Hid,
    Report,
    Physical,
}

impl DescriptorType {
    /// The tag of this descriptor type on the wire.
    pub open spec fn code_spec(self) -> u8 {
        match self {
            DescriptorType::Hid => 0x21,
            DescriptorType::Report => 0x22,
            DescriptorType::Physical => 0x23,
        }
    }

    /// The tag of this descriptor type on the wire.
    pub fn code(self) -> (r: u8)
        ensures
            r == self.code_spec(),
    {
        match self {
            DescriptorType::Hid => 0x21,
            DescriptorType::Report => 0x22,
            DescriptorType::Physical => 0x23,
        }
    }
}

/// The protocol in which an interface sends its reports.
#[derive(Clone, Copy, Debug, PartialEq, Eq, Structural)]
pub enum HidProtocol {
    Boot,
    Report,
}

/// The body of a HID descriptor, which follows the interface descriptor and
/// announces one report descriptor and its length.
#[derive(Clone, Copy, Debug, PartialEq, Eq, Structural)]
pub struct HidDescriptorBody {
    pub bcd_hid: u16,
    pub country_code: u8,
    pub num_descriptors: u8,
    pub descriptor_type: DescriptorType,
    pub descriptor_length: u16,
}

/// The bytes of a body with the given fields: every field in declaration
/// order, the two-byte fields with their low byte first.
pub open spec fn packed_bytes(body: HidDescriptorBody) -> Seq<u8> {
    seq![
        (body.bcd_hid % 256) as u8,
        (body.bcd_hid / 256) as u8,
        body.country_code,
        body.num_descriptors,
        body.descriptor_type.code_spec(),
        (body.descriptor_length % 256) as u8,
        (body.descriptor_length / 256) as u8,
    ]
}

/// The body that announces one report descriptor of `len` bytes.
pub open spec fn report_body(len: u16) -> HidDescriptorBody {
    HidDescriptorBody {
        bcd_hid: SPEC_VERSION_1_11,
        country_code: COUNTRY_CODE_NOT_SUPPORTED,
        num_descriptors: 1,
        descriptor_type: DescriptorType::Report,
        descriptor_length: len,
    }
}

/// The body for a report descriptor of `len` bytes: there is one exactly
/// where `len` fits the two-byte length field, and it announces `len`.
pub open spec fn body_for_length(len: int) -> Option<HidDescriptorBody> {
    if 0 <= len <= MAX_REPORT_DESCRIPTOR_LEN {
        Some(report_body(len as u16))
    } else {
        None
    }
}

/// The length that the last two bytes of a packed body announce.
pub open spec fn announced_length(bytes: Seq<u8>) -> int {
    bytes[5] as int + 256 * (bytes[6] as int)
}

/// The seven bytes sent for a report descriptor of `len` bytes.
pub open spec fn hid_descriptor_bytes(len: u16) -> Seq<u8> {
    seq![0x11u8, 0x01u8, 0x00u8, 0x01u8, 0x22u8, (len % 256) as u8, (len / 256) as u8]
}

impl HidDescriptorBody {
    /// The body that announces one report descriptor of `len` bytes.
    pub fn report(len: u16) -> (r: HidDescriptorBody)
        ensures
            r == report_body(len),
    {
        HidDescriptorBody {
            bcd_hid: SPEC_VERSION_1_11,
            country_code: COUNTRY_CODE_NOT_SUPPORTED,
            num_descriptors: 1,
            descriptor_type: DescriptorType::Report,
            descriptor_length: len,
        }
    }

    /// The body for a report descriptor of `report_descriptor_len` bytes, or
    /// `None` where that length does not fit the two-byte length field.
    pub fn for_report_descriptor(report_descriptor_len: usize) -> (r: Option<HidDescriptorBody>)
        ensures
            r == body_for_length(report_descriptor_len as int),
            r is Some <==> report_descriptor_len <= MAX_REPORT_DESCRIPTOR_LEN,
    {
        if report_descriptor_len > MAX_REPORT_DESCRIPTOR_LEN {
            None
        } else {
            Some(HidDescriptorBody::report(report_descriptor_len as u16))
        }
    }

    /// The body as it is sent.
    pub fn pack(&self) -> (r: [u8; 7])
        ensures
            r@ == packed_bytes(*self),
    {
        let r: [u8; 7] = [
            (self.bcd_hid % 256) as u8,
            (self.bcd_hid / 256) as u8,
            self.country_code,
            self.num_descriptors,
            self.descriptor_type.code(),
            (self.descriptor_length % 256) as u8,
            (self.descriptor_length / 256) as u8,
        ];
        assert(r@ =~= packed_bytes(*self));
        r
    }
}

/// The body of a report descriptor of `len` bytes is sent as the fixed
/// fields 0x0111, 0x00, 0x01 and 0x22, followed by a length field that reads
/// back as `len`.
pub proof fn lemma_report_body_bytes(len: u16)
    ensures
        packed_bytes(report_body(len)) == hid_descriptor_bytes(len),
        packed_bytes(report_body(len)).len() == HID_DESCRIPTOR_BODY_LEN,
        packed_bytes(report_body(len))[0] as int + 256 * (packed_bytes(report_body(len))[1] as int)
            == 0x0111,
        packed_bytes(report_body(len))[2] == 0x00,
        packed_bytes(report_body(len))[3] == 0x01,
        packed_bytes(report_body(len))[4] == 0x22,
        packed_bytes(report_body(len))[5] as int + 256 * (packed_bytes(report_body(len))[6] as int)
            == len,
{
    assert(packed_bytes(report_body(len)) =~= hid_descriptor_bytes(len));
}

/// A report descriptor has a body exactly if it is at most 65535 bytes long.
/// Whether it has one depends on its length alone, and the body that a
/// length has always announces that very length: none is cut down to fit.
pub proof fn lemma_body_length_never_truncated(len: nat)
    ensures
        body_for_length(len as int) is Some <==> len <= MAX_REPORT_DESCRIPTOR_LEN,
        body_for_length(len as int) is Some ==> {
            &&& body_for_length(len as int).unwrap().descriptor_length == len
            &&& announced_length(packed_bytes(body_for_length(len as int).unwrap())) == len
        },
{
    if len <= MAX_REPORT_DESCRIPTOR_LEN {
        lemma_report_body_bytes(len as u16);
    }
}

/// Two report descriptors of different lengths never share a body: the
/// length is not truncated.
pub proof fn lemma_report_body_injective(a: u16, b: u16)
    requires
        hid_descriptor_bytes(a) == hid_descriptor_bytes(b),
    ensures
        a == b,
{
    assert(hid_descriptor_bytes(a)[5] == hid_descriptor_bytes(b)[5]);
    assert(hid_descriptor_bytes(a)[6] == hid_descriptor_bytes(b)[6]);
}

} // verus!
