use hid_interface::descriptor::{
    DescriptorType, HidDescriptorBody, COUNTRY_CODE_NOT_SUPPORTED, SPEC_VERSION_1_11,
};

#[test]
fn body_of_ten_byte_descriptor() {
    let body = HidDescriptorBody::for_report_descriptor(10).unwrap();
    assert_eq!(body.bcd_hid, 0x0111);
    assert_eq!(body.country_code, 0);
    assert_eq!(body.num_descriptors, 1);
    assert_eq!(body.descriptor_type, DescriptorType::Report);
    assert_eq!(body.descriptor_length, 10);
    assert_eq!(body.pack(), [0x11, 0x01, 0x00, 0x01, 0x22, 0x0A, 0x00]);
}

#[test]
fn body_length_is_little_endian() {
    let body = HidDescriptorBody::for_report_descriptor(0x1234).unwrap();
    assert_eq!(body.pack(), [0x11, 0x01, 0x00, 0x01, 0x22, 0x34, 0x12]);
}

#[test]
fn body_of_empty_descriptor() {
    let body = HidDescriptorBody::for_report_descriptor(0).unwrap();
    assert_eq!(body.pack(), [0x11, 0x01, 0x00, 0x01, 0x22, 0x00, 0x00]);
}

#[test]
fn body_of_longest_descriptor() {
    let body = HidDescriptorBody::for_report_descriptor(65535).unwrap();
    assert_eq!(body.descriptor_length, 65535);
    assert_eq!(body.pack(), [0x11, 0x01, 0x00, 0x01, 0x22, 0xFF, 0xFF]);
}

#[test]
fn body_refuses_descriptor_over_sixteen_bits() {
    assert_eq!(HidDescriptorBody::for_report_descriptor(65536), None);
    assert_eq!(HidDescriptorBody::for_report_descriptor(65537), None);
    assert_eq!(HidDescriptorBody::for_report_descriptor(usize::MAX), None);
}

#[test]
fn report_body_has_fixed_fields() {
    let body = HidDescriptorBody::report(300);
    assert_eq!(
        body,
        HidDescriptorBody {
            bcd_hid: SPEC_VERSION_1_11,
            country_code: COUNTRY_CODE_NOT_SUPPORTED,
            num_descriptors: 1,
            descriptor_type: DescriptorType::Report,
            descriptor_length: 300,
        }
    );
    assert_eq!(body.pack(), [0x11, 0x01, 0x00, 0x01, 0x22, 0x2C, 0x01]);
}

#[test]
fn pack_keeps_every_field() {
    let body = HidDescriptorBody {
        bcd_hid: 0xABCD,
        country_code: 0x21,
        num_descriptors: 3,
        descriptor_type: DescriptorType::Physical,
        descriptor_length: 0x0102,
    };
    assert_eq!(body.pack(), [0xCD, 0xAB, 0x21, 0x03, 0x23, 0x02, 0x01]);
}

#[test]
fn descriptor_type_codes() {
    assert_eq!(DescriptorType::Hid.code(), 0x21);
    assert_eq!(DescriptorType::Report.code(), 0x22);
    assert_eq!(DescriptorType::Physical.code(), 0x23);
}

#[test]
fn body_exists_exactly_up_to_sixteen_bits() {
    for len in [0usize, 1, 255, 256, 258, 65534, 65535] {
        let body = HidDescriptorBody::for_report_descriptor(len).unwrap();
        let bytes = body.pack();
        assert_eq!(usize::from(bytes[5]) + 256 * usize::from(bytes[6]), len);
        assert_eq!(bytes[..5], [0x11, 0x01, 0x00, 0x01, 0x22]);
    }
    for len in [65536usize, 65537, 131071, 1 << 20] {
        assert_eq!(HidDescriptorBody::for_report_descriptor(len), None);
    }
}
