//! Exact wire bytes of the descriptor builders.

use zeptos::usb::descriptors::{
    assemble, language_list_us_english, u16_le, u32_le, BinaryObjectStore, Config, Device,
    DescriptorBuilder, Endpoint, Interface, MicrosoftOs, MicrosoftOsCcgp,
    MicrosoftOsCompatibleID, MicrosoftOsConfiguration, MicrosoftOsDeviceInterfaceGUID,
    MicrosoftOsFunction, PlatformCapabilityMicrosoftOs,
};

#[test]
fn le_helpers_split_fields() {
    assert_eq!(u16_le(0x1234), (0x34, 0x12));
    assert_eq!(u32_le(0x06030000), (0x00, 0x00, 0x03, 0x06));
}

#[test]
fn device_descriptor_bytes() {
    let none: Vec<Vec<u8>> = Vec::new();
    let device = Device {
        bcdUSB: 0x0201,
        bDeviceClass: 0xFF,
        bDeviceSubClass: 0,
        bDeviceProtocol: 0,
        bMaxPacketSize0: 64,
        idVendor: 0x59E3,
        idProduct: 0x00AA,
        bcdDevice: 0x0100,
        iManufacturer: 1,
        iProduct: 2,
        iSerialNumber: 3,
        bNumConfigurations: 1,
    };
    assert_eq!(
        device.bytes(&none),
        vec![
            18, 1, 0x01, 0x02, 0xFF, 0, 0, 64, 0xE3, 0x59, 0xAA, 0x00, 0x00, 0x01, 1, 2, 3, 1
        ]
    );
}

#[test]
fn endpoint_descriptor_bytes() {
    let none: Vec<Vec<u8>> = Vec::new();
    let ep = Endpoint { bEndpointAddress: 0x81, bmAttributes: 2, wMaxPacketSize: 64, bInterval: 0 };
    assert_eq!(ep.bytes(&none), vec![7, 5, 0x81, 2, 64, 0, 0]);
}

#[test]
fn interface_counts_endpoint_children() {
    let none: Vec<Vec<u8>> = Vec::new();
    let ep_in = Endpoint { bEndpointAddress: 0x81, bmAttributes: 2, wMaxPacketSize: 64, bInterval: 0 };
    let ep_out = Endpoint { bEndpointAddress: 0x01, bmAttributes: 2, wMaxPacketSize: 64, bInterval: 0 };
    let children = vec![ep_in.bytes(&none), ep_out.bytes(&none)];
    let intf = Interface {
        bInterfaceNumber: 0,
        bAlternateSetting: 0,
        bInterfaceClass: 0xFF,
        bInterfaceSubClass: 0,
        bInterfaceProtocol: 0,
        iInterface: 4,
    };
    assert_eq!(intf.bytes(&children), vec![9, 4, 0, 0, 2, 0xFF, 0, 0, 4]);
}

#[test]
fn config_totals_children_and_counts_interfaces() {
    let none: Vec<Vec<u8>> = Vec::new();
    let ep = Endpoint { bEndpointAddress: 0x81, bmAttributes: 2, wMaxPacketSize: 64, bInterval: 0 };
    let ep_bytes = ep.bytes(&none);
    let intf = Interface {
        bInterfaceNumber: 0,
        bAlternateSetting: 0,
        bInterfaceClass: 0xFF,
        bInterfaceSubClass: 0,
        bInterfaceProtocol: 0,
        iInterface: 0,
    };
    let intf_children = vec![ep_bytes.clone()];
    let intf_blob = assemble(intf.bytes(&intf_children), &intf_children);
    assert_eq!(intf_blob.len(), 16);

    let config = Config { bConfigurationValue: 1, iConfiguration: 0, bmAttributes: 0x80, bMaxPower: 250 };
    let config_children = vec![intf_blob.clone()];
    let head = config.bytes(&config_children);
    // total length 9 + 16 = 25, one interface
    assert_eq!(head, vec![9, 2, 25, 0, 1, 1, 0, 0x80, 250]);

    let full = assemble(head, &config_children);
    assert_eq!(full.len(), 25);
    assert_eq!(&full[9..18], &intf_blob[0..9]);
    assert_eq!(&full[18..25], ep_bytes.as_slice());
}

#[test]
fn config_counts_contiguous_interfaces() {
    let none: Vec<Vec<u8>> = Vec::new();
    let intf = |n: u8, alt: u8| {
        Interface {
            bInterfaceNumber: n,
            bAlternateSetting: alt,
            bInterfaceClass: 0xFF,
            bInterfaceSubClass: 0,
            bInterfaceProtocol: 0,
            iInterface: 0,
        }
        .bytes(&none)
    };
    // interfaces 0, then 1 with two alternates: two interfaces in total
    let children = vec![intf(0, 0), intf(1, 0), intf(1, 1)];
    let config = Config { bConfigurationValue: 1, iConfiguration: 0, bmAttributes: 0x80, bMaxPower: 50 };
    let head = config.bytes(&children);
    assert_eq!(head[4], 2);
    assert_eq!(head[2], 9 + 27);
}

#[test]
fn bos_with_msos_platform_capability() {
    let none: Vec<Vec<u8>> = Vec::new();
    let cap = PlatformCapabilityMicrosoftOs {
        windows_version: 0x06030000,
        vendor_code: 0xF0,
        alt_enum_code: 0,
        msos_descriptor_len: 30,
    };
    let cap_bytes = cap.bytes(&none);
    assert_eq!(
        cap_bytes,
        vec![
            28, 16, 5, 0, 0xDF, 0x60, 0xDD, 0xD8, 0x89, 0x45, 0xC7, 0x4C, 0x9C, 0xD2, 0x65,
            0x9D, 0x9E, 0x64, 0x8A, 0x9F, 0x00, 0x00, 0x03, 0x06, 30, 0, 0xF0, 0
        ]
    );
    let children = vec![cap_bytes];
    let bos = BinaryObjectStore {}.bytes(&children);
    // total 5 + 28 = 33, one device capability
    assert_eq!(bos, vec![5, 15, 33, 0, 1]);
}

#[test]
fn msos_set_header_totals_children() {
    let none: Vec<Vec<u8>> = Vec::new();
    let compat = MicrosoftOsCompatibleID { compatible_id: "WINUSB", sub_compatible_id: "" };
    let compat_bytes = compat.bytes(&none);
    assert_eq!(
        compat_bytes,
        vec![20, 0, 3, 0, 87, 73, 78, 85, 83, 66, 0, 0, 0, 0, 0, 0, 0, 0, 0, 0]
    );
    let children = vec![compat_bytes];
    let msos = MicrosoftOs { windows_version: 0x06030000 }.bytes(&children);
    assert_eq!(msos, vec![10, 0, 0, 0, 0x00, 0x00, 0x03, 0x06, 30, 0]);
}

#[test]
fn msos_subset_headers() {
    let none: Vec<Vec<u8>> = Vec::new();
    let config = MicrosoftOsConfiguration { configuration_value: 0 }.bytes(&none);
    assert_eq!(config, vec![8, 0, 1, 0, 0, 0, 8, 0]);
    let function = MicrosoftOsFunction { first_interface: 2 }.bytes(&none);
    assert_eq!(function, vec![8, 0, 2, 0, 2, 0, 8, 0]);
    let ccgp = MicrosoftOsCcgp {}.bytes(&none);
    assert_eq!(ccgp, vec![4, 0, 7, 0]);
}

#[test]
fn msos_interface_guid_registry_property() {
    let none: Vec<Vec<u8>> = Vec::new();
    let guid = "{420F4791-4A3B-40A6-B8E9-4F63EF6017B9}";
    let desc = MicrosoftOsDeviceInterfaceGUID { guid }.bytes(&none);
    assert_eq!(desc.len(), 132);
    assert_eq!(desc[0], 132);
    assert_eq!(desc[2], 4); // registry-property feature
    assert_eq!(desc[4], 7); // REG_MULTI_SZ
    assert_eq!(desc[6], 42); // property name length
    // the property name, UTF-16LE
    let name = b"DeviceInterfaceGUIDs";
    for (i, b) in name.iter().enumerate() {
        assert_eq!(desc[8 + 2 * i], *b);
        assert_eq!(desc[9 + 2 * i], 0);
    }
    // name terminator
    assert_eq!(&desc[48..50], &[0, 0]);
    // property data length (38 + 1) * 2 + 2 = 80
    assert_eq!(&desc[50..52], &[80, 0]);
    // the GUID string, UTF-16LE
    for (i, b) in guid.bytes().enumerate() {
        assert_eq!(desc[52 + 2 * i], b);
        assert_eq!(desc[53 + 2 * i], 0);
    }
    // string terminator and list terminator
    assert_eq!(&desc[128..132], &[0, 0, 0, 0]);
}

#[test]
fn string_descriptors() {
    let mut builder = DescriptorBuilder::new();
    assert_eq!(builder.string_ascii("USB"), vec![8, 3, 85, 0, 83, 0, 66, 0]);
    assert_eq!(builder.string("ok"), vec![6, 3, 111, 0, 107, 0]);
    // a basic-plane character encodes as one UTF-16 unit
    assert_eq!(builder.string("\u{e9}"), vec![4, 3, 0xE9, 0x00]);
    // a supplementary-plane character encodes as a surrogate pair
    assert_eq!(builder.string("\u{1d11e}"), vec![6, 3, 0x34, 0xD8, 0x1E, 0xDD]);
    assert_eq!(
        builder.string_hex(&[0xAB, 0x01]),
        vec![10, 3, 65, 0, 66, 0, 48, 0, 49, 0]
    );
    assert_eq!(language_list_us_english(), vec![4, 3, 0x09, 0x04]);
}

#[test]
fn assemble_concatenates_in_order() {
    let children = vec![vec![4u8, 5, 6], vec![7u8], Vec::new(), vec![8u8, 9]];
    let r = assemble(vec![1u8, 2, 3], &children);
    assert_eq!(r, vec![1, 2, 3, 4, 5, 6, 7, 8, 9]);
}
