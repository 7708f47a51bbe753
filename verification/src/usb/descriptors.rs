//! USB 2.0 standard descriptors and Microsoft OS 2.0 descriptors, assembled
//! as fixed byte strings.
//!
//! Each descriptor type turns its fields, together with the already-encoded
//! bytes of its child descriptors, into its own wire bytes; lengths,
//! interface counts and totals are computed from the children.  A malformed
//! tree (non-contiguous interface numbers, oversize compatible-ID strings)
//! is excluded by precondition and never reaches the wire.

use vstd::prelude::*;
use vstd::string::StringSliceAdditionalSpecFns;

verus! {

/// Standard descriptor type code: device.
pub const DT_DEVICE: u8 = 1;

/// Standard descriptor type code: configuration.
pub const DT_CONFIGURATION: u8 = 2;

/// Standard descriptor type code: string.
pub const DT_STRING: u8 = 3;

/// Standard descriptor type code: interface.
pub const DT_INTERFACE: u8 = 4;

/// Standard descriptor type code: endpoint.
pub const DT_ENDPOINT: u8 = 5;

/// Standard descriptor type code: binary object store.
pub const DT_BOS: u8 = 15;

/// Standard descriptor type code: device capability.
pub const DT_DEVICE_CAPABILITY: u8 = 16;

/// Low byte of a 16-bit value in little-endian order.
pub open spec fn lo16(x: u16) -> u8 {
    (x % 256) as u8
}

/// High byte of a 16-bit value in little-endian order.
pub open spec fn hi16(x: u16) -> u8 {
    (x / 256) as u8
}

/// The four little-endian bytes of a 32-bit value.
pub open spec fn le32(x: u32) -> Seq<u8> {
    seq![
        (x % 256) as u8,
        ((x / 256) % 256) as u8,
        ((x / 0x10000) % 256) as u8,
        (x / 0x1000000) as u8,
    ]
}

/// All child byte strings, concatenated in order.
pub open spec fn concat_all(cs: Seq<Seq<u8>>) -> Seq<u8>
    decreases cs.len(),
{
    if cs.len() == 0 {
        Seq::<u8>::empty()
    } else {
        concat_all(cs.drop_last()) + cs.last()
    }
}

/// Concatenating one more child appends its bytes.
pub proof fn lemma_concat_all_take(cs: Seq<Seq<u8>>, i: int)
    requires
        0 <= i < cs.len(),
    ensures
        concat_all(cs.take(i + 1)) == concat_all(cs.take(i)) + cs[i],
{
    assert(cs.take(i + 1).drop_last() =~= cs.take(i));
    assert(cs.take(i + 1).last() == cs[i]);
}

/// Every child starts with the two header bytes (length, descriptor type),
/// and an interface child also carries its interface number.
pub open spec fn child_headers_ok(cs: Seq<Seq<u8>>) -> bool {
    forall|i: int|
        0 <= i < cs.len() ==> (#[trigger] cs[i]).len() >= 2 && (cs[i][1] == DT_INTERFACE
            ==> cs[i].len() >= 3)
}

/// The two little-endian bytes of a 16-bit value.
pub fn u16_le(x: u16) -> (r: (u8, u8))
    ensures
        r.0 == lo16(x),
        r.1 == hi16(x),
{
    ((x % 256) as u8, (x / 256) as u8)
}

/// The four little-endian bytes of a 32-bit value.
pub fn u32_le(x: u32) -> (r: (u8, u8, u8, u8))
    ensures
        seq![r.0, r.1, r.2, r.3] == le32(x),
{
    (
        (x % 256) as u8,
        ((x / 256) % 256) as u8,
        ((x / 0x10000) % 256) as u8,
        (x / 0x1000000) as u8,
    )
}

/// Glue a descriptor's own bytes and its children's bytes into the single
/// byte string that is sent on the wire.
pub fn assemble(desc: Vec<u8>, children: &Vec<Vec<u8>>) -> (r: Vec<u8>)
    ensures
        r@ == desc@ + concat_all(children.deep_view()),
{
    let ghost cs = children.deep_view();
    let mut r = desc;
    let mut i: usize = 0;
    proof {
        assert(cs.take(0) =~= Seq::<Seq<u8>>::empty());
        assert(r@ =~= r@ + concat_all(cs.take(0)));
    }
    while i < children.len()
        invariant
            i <= children.len(),
            cs == children.deep_view(),
            cs.len() == children@.len(),
            forall|k: int| 0 <= k < cs.len() ==> #[trigger] cs[k] == children@[k]@,
            r@ == desc@ + concat_all(cs.take(i as int)),
        decreases children.len() - i,
    {
        let child = &children[i];
        let mut j: usize = 0;
        while j < child.len()
            invariant
                j <= child.len(),
                i < children.len(),
                cs == children.deep_view(),
                cs.len() == children@.len(),
                forall|k: int| 0 <= k < cs.len() ==> #[trigger] cs[k] == children@[k]@,
                child == &children[i as int],
                r@ == desc@ + concat_all(cs.take(i as int)) + child@.take(j as int),
            decreases child.len() - j,
        {
            r.push(child[j]);
            proof {
                assert(child@.take(j + 1) =~= child@.take(j as int).push(child@[j as int]));
                assert(r@ =~= desc@ + concat_all(cs.take(i as int)) + child@.take(j + 1));
            }
            j = j + 1;
        }
        proof {
            assert(child@.take(child@.len() as int) =~= child@);
            lemma_concat_all_take(cs, i as int);
            assert(r@ =~= desc@ + concat_all(cs.take(i + 1)));
        }
        i = i + 1;
    }
    proof {
        assert(cs.take(cs.len() as int) =~= cs);
    }
    r
}

/// Fields of a USB device descriptor; the rest of its wire form is fixed.
#[allow(non_snake_case)]
pub struct Device {
    pub bcdUSB: u16,
    pub bDeviceClass: u8,
    pub bDeviceSubClass: u8,
    pub bDeviceProtocol: u8,
    pub bMaxPacketSize0: u8,
    pub idVendor: u16,
    pub idProduct: u16,
    pub bcdDevice: u16,
    pub iManufacturer: u8,
    pub iProduct: u8,
    pub iSerialNumber: u8,
    pub bNumConfigurations: u8,
}

impl Device {
    /// The 18 wire bytes of the device descriptor.  A device descriptor has
    /// no children.
    pub fn bytes(self, children: &Vec<Vec<u8>>) -> (r: Vec<u8>)
        requires
            children@.len() == 0,
        ensures
            r@ =~= seq![
                18u8,
                DT_DEVICE,
                lo16(self.bcdUSB),
                hi16(self.bcdUSB),
                self.bDeviceClass,
                self.bDeviceSubClass,
                self.bDeviceProtocol,
                self.bMaxPacketSize0,
                lo16(self.idVendor),
                hi16(self.idVendor),
                lo16(self.idProduct),
                hi16(self.idProduct),
                lo16(self.bcdDevice),
                hi16(self.bcdDevice),
                self.iManufacturer,
                self.iProduct,
                self.iSerialNumber,
                self.bNumConfigurations,
            ],
    {
        let _ = children;
        let bcd_usb = u16_le(self.bcdUSB);
        let id_vendor = u16_le(self.idVendor);
        let id_product = u16_le(self.idProduct);
        let bcd_device = u16_le(self.bcdDevice);
        let r = vec![
            18u8,
            DT_DEVICE,
            bcd_usb.0,
            bcd_usb.1,
            self.bDeviceClass,
            self.bDeviceSubClass,
            self.bDeviceProtocol,
            self.bMaxPacketSize0,
            id_vendor.0,
            id_vendor.1,
            id_product.0,
            id_product.1,
            bcd_device.0,
            bcd_device.1,
            self.iManufacturer,
            self.iProduct,
            self.iSerialNumber,
            self.bNumConfigurations,
        ];
        r
    }
}

/// Fields of a USB endpoint descriptor.
#[allow(non_snake_case)]
pub struct Endpoint {
    pub bEndpointAddress: u8,
    pub bmAttributes: u8,
    pub wMaxPacketSize: u16,
    pub bInterval: u8,
}

impl Endpoint {
    /// The 7 wire bytes of the endpoint descriptor.  Children are ignored,
    /// as in the source tree an endpoint never has any.
    pub fn bytes(self, children: &Vec<Vec<u8>>) -> (r: Vec<u8>)
        ensures
            r@ =~= seq![
                7u8,
                DT_ENDPOINT,
                self.bEndpointAddress,
                self.bmAttributes,
                lo16(self.wMaxPacketSize),
                hi16(self.wMaxPacketSize),
                self.bInterval,
            ],
    {
        let _ = children;
        let size = u16_le(self.wMaxPacketSize);
        let r = vec![
            7u8,
            DT_ENDPOINT,
            self.bEndpointAddress,
            self.bmAttributes,
            size.0,
            size.1,
            self.bInterval,
        ];
        r
    }
}


/// Number of children whose descriptor type byte equals `dt`.
pub open spec fn count_type(cs: Seq<Seq<u8>>, dt: u8) -> int
    decreases cs.len(),
{
    if cs.len() == 0 {
        0
    } else {
        count_type(cs.drop_last(), dt) + if cs.last().len() >= 2 && cs.last()[1] == dt {
            1int
        } else {
            0int
        }
    }
}

/// Prefix counts are bounded by the whole count, and counts are never
/// negative.
pub proof fn lemma_count_prefix(cs: Seq<Seq<u8>>, dt: u8, i: int)
    requires
        0 <= i <= cs.len(),
    ensures
        0 <= count_type(cs.take(i), dt) <= count_type(cs, dt),
    decreases cs.len(),
{
    if cs.len() == 0 {
        assert(cs.take(i) =~= cs);
    } else if i == cs.len() {
        assert(cs.take(i) =~= cs);
        lemma_count_prefix(cs.drop_last(), dt, cs.len() - 1);
        assert(cs.drop_last().take(cs.len() - 1) =~= cs.drop_last());
    } else {
        assert(cs.take(i) =~= cs.drop_last().take(i));
        lemma_count_prefix(cs.drop_last(), dt, i);
    }
}

/// Prefix concatenations never exceed the full concatenation in length.
pub proof fn lemma_concat_prefix_len(cs: Seq<Seq<u8>>, i: int)
    requires
        0 <= i <= cs.len(),
    ensures
        concat_all(cs.take(i)).len() <= concat_all(cs).len(),
    decreases cs.len() - i,
{
    if i == cs.len() {
        assert(cs.take(i) =~= cs);
    } else {
        lemma_concat_all_take(cs, i);
        lemma_concat_prefix_len(cs, i + 1);
    }
}

/// The interface scan over the children of a configuration: the running
/// interface number, and the interface count to report (one past the last
/// interface number seen; zero with no interface children).
pub open spec fn intf_scan(cs: Seq<Seq<u8>>) -> (int, int)
    decreases cs.len(),
{
    if cs.len() == 0 {
        (0int, 0int)
    } else {
        let prev = intf_scan(cs.drop_last());
        let c = cs.last();
        if c.len() >= 3 && c[1] == DT_INTERFACE {
            (c[2] as int, c[2] + 1)
        } else {
            prev
        }
    }
}

/// Interface numbers among the children are contiguous: each interface
/// child carries either the same number as the previous one or the next.
pub open spec fn interfaces_contiguous(cs: Seq<Seq<u8>>) -> bool
    decreases cs.len(),
{
    if cs.len() == 0 {
        true
    } else {
        let prev = intf_scan(cs.drop_last());
        let c = cs.last();
        &&& interfaces_contiguous(cs.drop_last())
        &&& (c.len() >= 2 && c[1] == DT_INTERFACE ==> c.len() >= 3 && (c[2] == prev.0 || c[2]
            == prev.0 + 1))
    }
}

/// Basic bounds of the interface scan of a contiguous tree.
proof fn lemma_intf_scan_props(cs: Seq<Seq<u8>>)
    requires
        interfaces_contiguous(cs),
    ensures
        0 <= intf_scan(cs).0,
        0 <= intf_scan(cs).1 <= intf_scan(cs).0 + 1,
    decreases cs.len(),
{
    if cs.len() > 0 {
        lemma_intf_scan_props(cs.drop_last());
    }
}

/// Prefixes of a contiguous tree are contiguous, and the scan only grows
/// along them.
pub proof fn lemma_intf_scan_prefix(cs: Seq<Seq<u8>>, i: int)
    requires
        interfaces_contiguous(cs),
        0 <= i <= cs.len(),
    ensures
        interfaces_contiguous(cs.take(i)),
        intf_scan(cs.take(i)).0 <= intf_scan(cs).0,
        intf_scan(cs.take(i)).1 <= intf_scan(cs).1,
    decreases cs.len(),
{
    lemma_intf_scan_props(cs);
    if i == cs.len() {
        assert(cs.take(i) =~= cs);
    } else {
        assert(cs.take(i) =~= cs.drop_last().take(i));
        lemma_intf_scan_props(cs.drop_last());
        lemma_intf_scan_prefix(cs.drop_last(), i);
    }
}

/// Fields of a USB configuration descriptor.
///
/// The total length and the interface count are computed from the children.
#[allow(non_snake_case)]
pub struct Config {
    pub bConfigurationValue: u8,
    pub iConfiguration: u8,
    pub bmAttributes: u8,
    pub bMaxPower: u8,
}

impl Config {
    /// The 9 wire bytes of the configuration descriptor head: total length
    /// over all children, the number of interfaces scanned from the
    /// children, and the configuration's own fields.
    pub fn bytes(self, children: &Vec<Vec<u8>>) -> (r: Vec<u8>)
        requires
            child_headers_ok(children.deep_view()),
            interfaces_contiguous(children.deep_view()),
            9 + concat_all(children.deep_view()).len() <= 0xFFFF,
            intf_scan(children.deep_view()).1 <= 255,
        ensures
            r@ =~= seq![
                9u8,
                DT_CONFIGURATION,
                lo16((9 + concat_all(children.deep_view()).len()) as u16),
                hi16((9 + concat_all(children.deep_view()).len()) as u16),
                intf_scan(children.deep_view()).1 as u8,
                self.bConfigurationValue,
                self.iConfiguration,
                self.bmAttributes,
                self.bMaxPower,
            ],
    {
        let ghost cs = children.deep_view();
        let mut total_len: u16 = 9;
        let mut num_interfaces: u8 = 0;
        let mut i: usize = 0;
        proof {
            assert(cs.take(0) =~= Seq::<Seq<u8>>::empty());
        }
        while i < children.len()
            invariant
                i <= children.len(),
                cs == children.deep_view(),
                cs.len() == children@.len(),
                forall|k: int| 0 <= k < cs.len() ==> #[trigger] cs[k] == children@[k]@,
                child_headers_ok(cs),
                interfaces_contiguous(cs),
                9 + concat_all(cs).len() <= 0xFFFF,
                intf_scan(cs).1 <= 255,
                total_len == 9 + concat_all(cs.take(i as int)).len(),
                num_interfaces == intf_scan(cs.take(i as int)).1,
            decreases children.len() - i,
        {
            proof {
                lemma_concat_all_take(cs, i as int);
                lemma_concat_prefix_len(cs, i + 1);
                lemma_intf_scan_prefix(cs, i + 1);
                lemma_intf_scan_prefix(cs, i as int);
                assert(cs.take(i + 1).drop_last() =~= cs.take(i as int));
                assert(cs.take(i + 1).last() == cs[i as int]);
            }
            total_len = total_len + children[i].len() as u16;
            if children[i][1] == DT_INTERFACE {
                let intf = children[i][2];
                num_interfaces = intf + 1;
            }
            i = i + 1;
        }
        proof {
            assert(cs.take(cs.len() as int) =~= cs);
        }
        let total = u16_le(total_len);
        let r = vec![
            9u8,
            DT_CONFIGURATION,
            total.0,
            total.1,
            num_interfaces,
            self.bConfigurationValue,
            self.iConfiguration,
            self.bmAttributes,
            self.bMaxPower,
        ];
        r
    }
}

/// Fields of a USB interface descriptor.
///
/// The `bLength` and `bDescriptorType` are fixed.  `bNumEndpoints` is
/// populated from the number of child endpoint descriptors.
#[allow(non_snake_case)]
pub struct Interface {
    pub bInterfaceNumber: u8,
    pub bAlternateSetting: u8,
    pub bInterfaceClass: u8,
    pub bInterfaceSubClass: u8,
    pub bInterfaceProtocol: u8,
    pub iInterface: u8,
}

impl Interface {
    /// The 9 wire bytes of the interface descriptor head; the endpoint
    /// count is scanned from the children.
    pub fn bytes(self, children: &Vec<Vec<u8>>) -> (r: Vec<u8>)
        requires
            child_headers_ok(children.deep_view()),
            count_type(children.deep_view(), DT_ENDPOINT) <= 255,
        ensures
            r@ =~= seq![
                9u8,
                DT_INTERFACE,
                self.bInterfaceNumber,
                self.bAlternateSetting,
                count_type(children.deep_view(), DT_ENDPOINT) as u8,
                self.bInterfaceClass,
                self.bInterfaceSubClass,
                self.bInterfaceProtocol,
                self.iInterface,
            ],
    {
        let ghost cs = children.deep_view();
        let mut num_endpoints: u8 = 0;
        let mut i: usize = 0;
        proof {
            assert(cs.take(0) =~= Seq::<Seq<u8>>::empty());
        }
        while i < children.len()
            invariant
                i <= children.len(),
                cs == children.deep_view(),
                cs.len() == children@.len(),
                forall|k: int| 0 <= k < cs.len() ==> #[trigger] cs[k] == children@[k]@,
                child_headers_ok(cs),
                count_type(cs, DT_ENDPOINT) <= 255,
                num_endpoints == count_type(cs.take(i as int), DT_ENDPOINT),
            decreases children.len() - i,
        {
            proof {
                lemma_count_prefix(cs, DT_ENDPOINT, i + 1);
                assert(cs.take(i + 1).drop_last() =~= cs.take(i as int));
                assert(cs.take(i + 1).last() == cs[i as int]);
            }
            if children[i][1] == DT_ENDPOINT {
                num_endpoints = num_endpoints + 1;
            }
            i = i + 1;
        }
        proof {
            assert(cs.take(cs.len() as int) =~= cs);
        }
        let r = vec![
            9u8,
            DT_INTERFACE,
            self.bInterfaceNumber,
            self.bAlternateSetting,
            num_endpoints,
            self.bInterfaceClass,
            self.bInterfaceSubClass,
            self.bInterfaceProtocol,
            self.iInterface,
        ];
        r
    }
}

/// The binary object store descriptor; it has no fields of its own.
pub struct BinaryObjectStore {}

impl BinaryObjectStore {
    /// The 5 wire bytes of the BOS descriptor head: total length over all
    /// children and the number of device-capability children.
    pub fn bytes(self, children: &Vec<Vec<u8>>) -> (r: Vec<u8>)
        requires
            child_headers_ok(children.deep_view()),
            5 + concat_all(children.deep_view()).len() <= 0xFFFF,
            count_type(children.deep_view(), DT_DEVICE_CAPABILITY) <= 255,
        ensures
            r@ =~= seq![
                5u8,
                DT_BOS,
                lo16((5 + concat_all(children.deep_view()).len()) as u16),
                hi16((5 + concat_all(children.deep_view()).len()) as u16),
                count_type(children.deep_view(), DT_DEVICE_CAPABILITY) as u8,
            ],
    {
        let ghost cs = children.deep_view();
        let mut total_len: u16 = 5;
        let mut num_device_caps: u8 = 0;
        let mut i: usize = 0;
        proof {
            assert(cs.take(0) =~= Seq::<Seq<u8>>::empty());
        }
        while i < children.len()
            invariant
                i <= children.len(),
                cs == children.deep_view(),
                cs.len() == children@.len(),
                forall|k: int| 0 <= k < cs.len() ==> #[trigger] cs[k] == children@[k]@,
                child_headers_ok(cs),
                5 + concat_all(cs).len() <= 0xFFFF,
                count_type(cs, DT_DEVICE_CAPABILITY) <= 255,
                total_len == 5 + concat_all(cs.take(i as int)).len(),
                num_device_caps == count_type(cs.take(i as int), DT_DEVICE_CAPABILITY),
            decreases children.len() - i,
        {
            proof {
                lemma_concat_all_take(cs, i as int);
                lemma_concat_prefix_len(cs, i + 1);
                lemma_count_prefix(cs, DT_DEVICE_CAPABILITY, i + 1);
                assert(cs.take(i + 1).drop_last() =~= cs.take(i as int));
                assert(cs.take(i + 1).last() == cs[i as int]);
            }
            total_len = total_len + children[i].len() as u16;
            if children[i][1] == DT_DEVICE_CAPABILITY {
                num_device_caps = num_device_caps + 1;
            }
            i = i + 1;
        }
        proof {
            assert(cs.take(cs.len() as int) =~= cs);
        }
        let total = u16_le(total_len);
        let r = vec![5u8, DT_BOS, total.0, total.1, num_device_caps];
        r
    }
}


/// Microsoft OS 2.0 descriptor type code: set header.
pub const MS_OS_20_SET_HEADER_DESCRIPTOR: u8 = 0;

/// Microsoft OS 2.0 descriptor type code: configuration subset header.
pub const MS_OS_20_SUBSET_HEADER_CONFIGURATION: u8 = 1;

/// Microsoft OS 2.0 descriptor type code: function subset header.
pub const MS_OS_20_SUBSET_HEADER_FUNCTION: u8 = 2;

/// Microsoft OS 2.0 descriptor type code: compatible-ID feature.
pub const MS_OS_20_FEATURE_COMPATIBLE_ID: u8 = 3;

/// Microsoft OS 2.0 descriptor type code: registry-property feature.
pub const MS_OS_20_FEATURE_REG_PROPERTY: u8 = 4;

/// Microsoft OS 2.0 descriptor type code: CCGP-device feature.
pub const MS_OS_20_FEATURE_CCGP_DEVICE: u8 = 7;

/// Device capability type code: platform capability.
pub const DEVICE_CAPABILITY_TYPE_PLATFORM: u8 = 0x05;

/// The Microsoft OS 2.0 descriptor set header.
pub struct MicrosoftOs {
    pub windows_version: u32,
}

impl MicrosoftOs {
    /// The 10 wire bytes of the set header: Windows version and the total
    /// length over all children.
    pub fn bytes(self, children: &Vec<Vec<u8>>) -> (r: Vec<u8>)
        requires
            10 + concat_all(children.deep_view()).len() <= 0xFFFF,
        ensures
            r@ =~= seq![10u8, 0u8, MS_OS_20_SET_HEADER_DESCRIPTOR, 0u8] + le32(
                self.windows_version,
            ) + seq![
                lo16((10 + concat_all(children.deep_view()).len()) as u16),
                hi16((10 + concat_all(children.deep_view()).len()) as u16),
            ],
    {
        let total_len = total_with_base(10, children);
        let version = u32_le(self.windows_version);
        let total = u16_le(total_len);
        let r = vec![
            10u8,
            0u8,
            MS_OS_20_SET_HEADER_DESCRIPTOR,
            0u8,
            version.0,
            version.1,
            version.2,
            version.3,
            total.0,
            total.1,
        ];
        r
    }
}

/// Total length of a descriptor of head length `base` over its children.
fn total_with_base(base: u16, children: &Vec<Vec<u8>>) -> (total: u16)
    requires
        base + concat_all(children.deep_view()).len() <= 0xFFFF,
    ensures
        total == base + concat_all(children.deep_view()).len(),
{
    let ghost cs = children.deep_view();
    let mut total_len: u16 = base;
    let mut i: usize = 0;
    proof {
        assert(cs.take(0) =~= Seq::<Seq<u8>>::empty());
    }
    while i < children.len()
        invariant
            i <= children.len(),
            cs == children.deep_view(),
            cs.len() == children@.len(),
            forall|k: int| 0 <= k < cs.len() ==> #[trigger] cs[k] == children@[k]@,
            base + concat_all(cs).len() <= 0xFFFF,
            total_len == base + concat_all(cs.take(i as int)).len(),
        decreases children.len() - i,
    {
        proof {
            lemma_concat_all_take(cs, i as int);
            lemma_concat_prefix_len(cs, i + 1);
        }
        total_len = total_len + children[i].len() as u16;
        i = i + 1;
    }
    proof {
        assert(cs.take(cs.len() as int) =~= cs);
    }
    total_len
}

/// The Microsoft OS 2.0 configuration subset header.
pub struct MicrosoftOsConfiguration {
    /// Despite the name, it does not correspond directly to the
    /// configuration descriptor and is 0-indexed.
    pub configuration_value: u8,
}

impl MicrosoftOsConfiguration {
    /// The 8 wire bytes of the configuration subset header.
    pub fn bytes(self, children: &Vec<Vec<u8>>) -> (r: Vec<u8>)
        requires
            8 + concat_all(children.deep_view()).len() <= 0xFFFF,
        ensures
            r@ =~= seq![
                8u8,
                0u8,
                MS_OS_20_SUBSET_HEADER_CONFIGURATION,
                0u8,
                self.configuration_value,
                0u8,
                lo16((8 + concat_all(children.deep_view()).len()) as u16),
                hi16((8 + concat_all(children.deep_view()).len()) as u16),
            ],
    {
        let total = u16_le(total_with_base(8, children));
        let r = vec![
            8u8,
            0u8,
            MS_OS_20_SUBSET_HEADER_CONFIGURATION,
            0u8,
            self.configuration_value,
            0u8,
            total.0,
            total.1,
        ];
        r
    }
}

/// The Microsoft OS 2.0 function subset header.
pub struct MicrosoftOsFunction {
    pub first_interface: u8,
}

impl MicrosoftOsFunction {
    /// The 8 wire bytes of the function subset header.
    pub fn bytes(self, children: &Vec<Vec<u8>>) -> (r: Vec<u8>)
        requires
            8 + concat_all(children.deep_view()).len() <= 0xFFFF,
        ensures
            r@ =~= seq![
                8u8,
                0u8,
                MS_OS_20_SUBSET_HEADER_FUNCTION,
                0u8,
                self.first_interface,
                0u8,
                lo16((8 + concat_all(children.deep_view()).len()) as u16),
                hi16((8 + concat_all(children.deep_view()).len()) as u16),
            ],
    {
        let total = u16_le(total_with_base(8, children));
        let r = vec![
            8u8,
            0u8,
            MS_OS_20_SUBSET_HEADER_FUNCTION,
            0u8,
            self.first_interface,
            0u8,
            total.0,
            total.1,
        ];
        r
    }
}

/// The Microsoft OS 2.0 CCGP-device feature descriptor; fixed content.
pub struct MicrosoftOsCcgp {}

impl MicrosoftOsCcgp {
    /// The 4 wire bytes of the CCGP-device feature descriptor.
    pub fn bytes(self, children: &Vec<Vec<u8>>) -> (r: Vec<u8>)
        ensures
            r@ =~= seq![4u8, 0u8, MS_OS_20_FEATURE_CCGP_DEVICE, 0u8],
    {
        let _ = children;
        let r = vec![4u8, 0u8, MS_OS_20_FEATURE_CCGP_DEVICE, 0u8];
        r
    }
}

/// The 16 bytes of the platform capability UUID identifying Microsoft OS
/// 2.0 descriptors.
pub open spec fn msos_platform_uuid() -> Seq<u8> {
    seq![
        0xdfu8,
        0x60,
        0xdd,
        0xd8,
        0x89,
        0x45,
        0xc7,
        0x4c,
        0x9c,
        0xd2,
        0x65,
        0x9d,
        0x9e,
        0x64,
        0x8a,
        0x9f,
    ]
}

/// The BOS platform capability announcing Microsoft OS 2.0 descriptor
/// support.
pub struct PlatformCapabilityMicrosoftOs {
    pub windows_version: u32,
    pub vendor_code: u8,
    pub alt_enum_code: u8,
    pub msos_descriptor_len: usize,
}

impl PlatformCapabilityMicrosoftOs {
    /// The 28 wire bytes of the platform capability descriptor: the
    /// Microsoft OS 2.0 UUID, the Windows version, the length of the
    /// descriptor set fetched by the vendor request, and the two request
    /// codes.
    pub fn bytes(self, children: &Vec<Vec<u8>>) -> (r: Vec<u8>)
        requires
            self.msos_descriptor_len <= 0xFFFF,
        ensures
            r@ =~= seq![28u8, DT_DEVICE_CAPABILITY, DEVICE_CAPABILITY_TYPE_PLATFORM, 0u8]
                + msos_platform_uuid() + le32(self.windows_version) + seq![
                lo16(self.msos_descriptor_len as u16),
                hi16(self.msos_descriptor_len as u16),
                self.vendor_code,
                self.alt_enum_code,
            ],
    {
        let _ = children;
        let version = u32_le(self.windows_version);
        let set_len = u16_le(self.msos_descriptor_len as u16);
        let r = vec![
            28u8,
            DT_DEVICE_CAPABILITY,
            DEVICE_CAPABILITY_TYPE_PLATFORM,
            0u8,
            0xdfu8,
            0x60,
            0xdd,
            0xd8,
            0x89,
            0x45,
            0xc7,
            0x4c,
            0x9c,
            0xd2,
            0x65,
            0x9d,
            0x9e,
            0x64,
            0x8a,
            0x9f,
            version.0,
            version.1,
            version.2,
            version.3,
            set_len.0,
            set_len.1,
            self.vendor_code,
            self.alt_enum_code,
        ];
        r
    }
}


/// `s` padded with zero bytes up to length `k`.
pub open spec fn zero_pad(s: Seq<u8>, k: int) -> Seq<u8>
    recommends
        s.len() <= k,
{
    s + Seq::new((k - s.len()) as nat, |i: int| 0u8)
}

/// `s` with a zero byte after each element: the UTF-16LE encoding of ASCII
/// text, as the Microsoft OS 2.0 registry properties carry it.
pub open spec fn widen_zeros(s: Seq<u8>) -> Seq<u8> {
    Seq::new(2 * s.len(), |i: int| if i % 2 == 0 { s[i / 2] } else { 0u8 })
}

/// Append a byte string.
fn push_bytes(r: &mut Vec<u8>, b: &[u8])
    ensures
        final(r)@ == old(r)@ + b@,
{
    let mut i: usize = 0;
    proof {
        assert(r@ =~= r@ + b@.take(0));
    }
    while i < b.len()
        invariant
            i <= b@.len(),
            r@ == old(r)@ + b@.take(i as int),
        decreases b@.len() - i,
    {
        r.push(b[i]);
        proof {
            assert(b@.take(i + 1) =~= b@.take(i as int).push(b@[i as int]));
            assert(r@ =~= old(r)@ + b@.take(i + 1));
        }
        i = i + 1;
    }
    proof {
        assert(b@.take(b@.len() as int) =~= b@);
    }
}

/// Append `k` zero bytes.
fn push_zeros(r: &mut Vec<u8>, k: usize)
    ensures
        final(r)@ == old(r)@ + Seq::new(k as nat, |i: int| 0u8),
{
    let mut i: usize = 0;
    proof {
        assert(r@ =~= r@ + Seq::new(0nat, |i: int| 0u8));
    }
    while i < k
        invariant
            i <= k,
            r@ == old(r)@ + Seq::new(i as nat, |j: int| 0u8),
        decreases k - i,
    {
        r.push(0u8);
        proof {
            assert(Seq::new((i + 1) as nat, |j: int| 0u8) =~= Seq::new(
                i as nat,
                |j: int| 0u8,
            ).push(0u8));
            assert(r@ =~= old(r)@ + Seq::new((i + 1) as nat, |j: int| 0u8));
        }
        i = i + 1;
    }
}

/// Append a byte string with a zero after each byte.
fn push_widened(r: &mut Vec<u8>, b: &[u8])
    ensures
        final(r)@ == old(r)@ + widen_zeros(b@),
{
    let mut i: usize = 0;
    proof {
        assert(widen_zeros(b@.take(0)) =~= Seq::<u8>::empty());
        assert(r@ =~= r@ + widen_zeros(b@.take(0)));
    }
    while i < b.len()
        invariant
            i <= b@.len(),
            r@ == old(r)@ + widen_zeros(b@.take(i as int)),
        decreases b@.len() - i,
    {
        r.push(b[i]);
        r.push(0u8);
        proof {
            assert(widen_zeros(b@.take(i + 1)) =~= widen_zeros(b@.take(i as int)).push(
                b@[i as int],
            ).push(0u8));
            assert(r@ =~= old(r)@ + widen_zeros(b@.take(i + 1)));
        }
        i = i + 1;
    }
    proof {
        assert(b@.take(b@.len() as int) =~= b@);
    }
}

/// The Microsoft OS 2.0 compatible-ID feature descriptor, naming the driver
/// the device is compatible with.
pub struct MicrosoftOsCompatibleID {
    pub compatible_id: &'static str,
    pub sub_compatible_id: &'static str,
}

impl MicrosoftOsCompatibleID {
    /// The 20 wire bytes of the compatible-ID feature descriptor: both ID
    /// strings, zero-padded to 8 bytes each.
    pub fn bytes(self, children: &Vec<Vec<u8>>) -> (r: Vec<u8>)
        requires
            self.compatible_id.spec_bytes().len() < 8,
            self.sub_compatible_id.spec_bytes().len() < 8,
        ensures
            r@ =~= seq![20u8, 0u8, MS_OS_20_FEATURE_COMPATIBLE_ID, 0u8] + zero_pad(
                self.compatible_id.spec_bytes(),
                8,
            ) + zero_pad(self.sub_compatible_id.spec_bytes(), 8),
    {
        let _ = children;
        let mut r = vec![20u8, 0u8, MS_OS_20_FEATURE_COMPATIBLE_ID, 0u8];
        let src = self.compatible_id.as_bytes();
        push_bytes(&mut r, src);
        push_zeros(&mut r, 8 - src.len());
        let src2 = self.sub_compatible_id.as_bytes();
        push_bytes(&mut r, src2);
        push_zeros(&mut r, 8 - src2.len());
        proof {
            assert(zero_pad(self.compatible_id.spec_bytes(), 8) =~= self.compatible_id.spec_bytes()
                + Seq::new((8 - self.compatible_id.spec_bytes().len()) as nat, |i: int| 0u8));
            assert(zero_pad(self.sub_compatible_id.spec_bytes(), 8)
                =~= self.sub_compatible_id.spec_bytes() + Seq::new(
                (8 - self.sub_compatible_id.spec_bytes().len()) as nat,
                |i: int| 0u8,
            ));
        }
        r
    }
}

/// The registry property name carried by the device-interface-GUID feature
/// descriptor: the ASCII codes of `DeviceInterfaceGUIDs`.
pub open spec fn msos_property_name() -> Seq<u8> {
    seq![
        68u8,
        101,
        118,
        105,
        99,
        101,
        73,
        110,
        116,
        101,
        114,
        102,
        97,
        99,
        101,
        71,
        85,
        73,
        68,
        115,
    ]
}

/// The Microsoft OS 2.0 registry-property feature descriptor publishing one
/// device interface GUID.
pub struct MicrosoftOsDeviceInterfaceGUID {
    pub guid: &'static str,
}

impl MicrosoftOsDeviceInterfaceGUID {
    /// The 132 wire bytes of the registry property: a REG_MULTI_SZ named
    /// `DeviceInterfaceGUIDs` holding the 38-character GUID string, both in
    /// UTF-16LE with their terminators, the whole list double-terminated.
    pub fn bytes(self, children: &Vec<Vec<u8>>) -> (r: Vec<u8>)
        requires
            self.guid.spec_bytes().len() == 38,
        ensures
            r@ =~= seq![132u8, 0u8, MS_OS_20_FEATURE_REG_PROPERTY, 0u8, 7u8, 0u8, 42u8, 0u8]
                + widen_zeros(msos_property_name()) + seq![0u8, 0u8] + seq![80u8, 0u8]
                + widen_zeros(self.guid.spec_bytes()) + seq![0u8, 0u8] + seq![0u8, 0u8],
    {
        let _ = children;
        // wPropertyDataType 7 = REG_MULTI_SZ; name length (20+1)*2 = 42
        let mut r = vec![132u8, 0u8, MS_OS_20_FEATURE_REG_PROPERTY, 0u8, 7u8, 0u8, 42u8, 0u8];
        let name: Vec<u8> = vec![
            68u8,
            101,
            118,
            105,
            99,
            101,
            73,
            110,
            116,
            101,
            114,
            102,
            97,
            99,
            101,
            71,
            85,
            73,
            68,
            115,
        ];
        proof {
            assert(name@ =~= msos_property_name());
        }
        push_widened(&mut r, name.as_slice());
        // name terminator
        r.push(0u8);
        r.push(0u8);
        // property data length (38+1)*2 + 2 = 80
        r.push(80u8);
        r.push(0u8);
        push_widened(&mut r, self.guid.as_bytes());
        // string terminator, then the REG_MULTI_SZ list terminator
        r.push(0u8);
        r.push(0u8);
        r.push(0u8);
        r.push(0u8);
        r
    }
}


/// The UTF-16 code units of one character: basic-plane characters encode as
/// themselves, the rest as a surrogate pair.
pub open spec fn utf16_units(c: char) -> Seq<u16> {
    if (c as int) < 0x10000 {
        seq![c as u16]
    } else {
        seq![
            (0xD800 + ((c as int - 0x10000) / 0x400)) as u16,
            (0xDC00 + ((c as int - 0x10000) % 0x400)) as u16,
        ]
    }
}

/// The UTF-16 code units of a character sequence.
pub open spec fn utf16_encode(s: Seq<char>) -> Seq<u16>
    decreases s.len(),
{
    if s.len() == 0 {
        Seq::<u16>::empty()
    } else {
        utf16_encode(s.drop_last()) + utf16_units(s.last())
    }
}

/// Little-endian bytes of a sequence of 16-bit units.
pub open spec fn le16_bytes(u: Seq<u16>) -> Seq<u8>
    decreases u.len(),
{
    if u.len() == 0 {
        Seq::<u8>::empty()
    } else {
        le16_bytes(u.drop_last()) + seq![lo16(u.last()), hi16(u.last())]
    }
}

/// Each 16-bit unit contributes two bytes.
pub proof fn lemma_le16_bytes_len(u: Seq<u16>)
    ensures
        le16_bytes(u).len() == 2 * u.len(),
    decreases u.len(),
{
    if u.len() > 0 {
        lemma_le16_bytes_len(u.drop_last());
    }
}

/// A prefix never encodes to more UTF-16 units than the whole.
pub proof fn lemma_utf16_prefix_len(s: Seq<char>, i: int)
    requires
        0 <= i <= s.len(),
    ensures
        utf16_encode(s.take(i)).len() <= utf16_encode(s).len(),
    decreases s.len() - i,
{
    if i == s.len() {
        assert(s.take(i) =~= s);
    } else {
        assert(s.take(i + 1).drop_last() =~= s.take(i));
        assert(s.take(i + 1).last() == s[i]);
        lemma_utf16_prefix_len(s, i + 1);
    }
}

/// A hexadecimal digit character: `0`-`9` then `A`-`F`.
pub open spec fn hexdig(x: int) -> u8
    recommends
        0 <= x < 16,
{
    if x < 10 {
        (48 + x) as u8
    } else {
        (55 + x) as u8
    }
}

/// The UTF-16LE rendering of a byte string in upper-case hexadecimal: for
/// each byte, the high digit then the low digit, each followed by a zero.
pub open spec fn hex_words(s: Seq<u8>) -> Seq<u8> {
    Seq::new(
        4 * s.len(),
        |i: int|
            if i % 4 == 0 {
                hexdig((s[i / 4] / 16) as int)
            } else if i % 4 == 2 {
                hexdig((s[i / 4] % 16) as int)
            } else {
                0u8
            },
    )
}

/// One hexadecimal digit character.
fn hex_digit(x: u8) -> (r: u8)
    requires
        x < 16,
    ensures
        r == hexdig(x as int),
{
    if x < 10 {
        48 + x
    } else {
        55 + x
    }
}

/// The string descriptor for index zero: the language list containing US
/// English (0x0409).
pub fn language_list_us_english() -> (r: Vec<u8>)
    ensures
        r@ =~= seq![4u8, DT_STRING, 0x09u8, 0x04u8],
{
    let r = vec![4u8, DT_STRING, 0x09u8, 0x04u8];
    r
}

/// Builder for string descriptors generated at request time.  The hardware
/// control buffer backing it holds 80 bytes, which bounds the text each
/// method accepts.
pub struct DescriptorBuilder {}

impl DescriptorBuilder {
    /// A fresh builder.
    pub fn new() -> (b: DescriptorBuilder) {
        DescriptorBuilder {  }
    }

    /// The string descriptor for arbitrary text: header, then the UTF-16LE
    /// code units.
    pub fn string(&mut self, s: &str) -> (r: Vec<u8>)
        requires
            2 + 2 * utf16_encode(s@).len() <= 80,
        ensures
            r@ =~= seq![(2 + 2 * utf16_encode(s@).len()) as u8, DT_STRING] + le16_bytes(
                utf16_encode(s@),
            ),
    {
        let n = s.unicode_len();
        let mut r: Vec<u8> = vec![0u8, DT_STRING];
        let mut i: usize = 0;
        proof {
            assert(s@.take(0) =~= Seq::<char>::empty());
            assert(r@ =~= seq![0u8, DT_STRING] + le16_bytes(utf16_encode(s@.take(0))));
        }
        while i < n
            invariant
                i <= n,
                n == s@.len(),
                2 + 2 * utf16_encode(s@).len() <= 80,
                r@ == seq![0u8, DT_STRING] + le16_bytes(utf16_encode(s@.take(i as int))),
            decreases n - i,
        {
            let ghost pre = utf16_encode(s@.take(i as int));
            proof {
                assert(s@.take(i + 1).drop_last() =~= s@.take(i as int));
                assert(s@.take(i + 1).last() == s@[i as int]);
                lemma_utf16_prefix_len(s@, i as int);
                lemma_utf16_prefix_len(s@, i + 1);
                lemma_le16_bytes_len(pre);
            }
            let c = s.get_char(i);
            let v = c as u32;
            if v < 0x10000 {
                let u = v as u16;
                r.push((u % 256) as u8);
                r.push((u / 256) as u8);
                proof {
                    let units = utf16_units(s@[i as int]);
                    assert(units =~= seq![u]);
                    assert((pre + units).drop_last() =~= pre);
                    assert(le16_bytes(pre + units) =~= le16_bytes(pre) + seq![lo16(u), hi16(u)]);
                    assert(r@ =~= seq![0u8, DT_STRING] + le16_bytes(utf16_encode(s@.take(i + 1))));
                }
            } else {
                let v2 = v - 0x10000;
                let u1 = (0xD800 + (v2 / 0x400)) as u16;
                let u2 = (0xDC00 + (v2 % 0x400)) as u16;
                r.push((u1 % 256) as u8);
                r.push((u1 / 256) as u8);
                r.push((u2 % 256) as u8);
                r.push((u2 / 256) as u8);
                proof {
                    let units = utf16_units(s@[i as int]);
                    assert(units =~= seq![u1, u2]);
                    assert((pre + units).drop_last() =~= pre.push(u1));
                    assert(pre.push(u1).drop_last() =~= pre);
                    assert(le16_bytes(pre.push(u1)) =~= le16_bytes(pre) + seq![
                        lo16(u1),
                        hi16(u1),
                    ]);
                    assert(le16_bytes(pre + units) =~= le16_bytes(pre.push(u1)) + seq![
                        lo16(u2),
                        hi16(u2),
                    ]);
                    assert(r@ =~= seq![0u8, DT_STRING] + le16_bytes(utf16_encode(s@.take(i + 1))));
                }
            }
            i = i + 1;
        }
        proof {
            assert(s@.take(n as int) =~= s@);
            lemma_le16_bytes_len(utf16_encode(s@));
        }
        let len_byte = r.len() as u8;
        r[0] = len_byte;
        proof {
            assert(r@ =~= seq![(2 + 2 * utf16_encode(s@).len()) as u8, DT_STRING] + le16_bytes(
                utf16_encode(s@),
            ));
        }
        r
    }

    /// The string descriptor for ASCII text: header, then each text byte
    /// widened with a zero.
    pub fn string_ascii(&mut self, s: &str) -> (r: Vec<u8>)
        requires
            2 + 2 * s.spec_bytes().len() <= 80,
        ensures
            r@ =~= seq![(2 + 2 * s.spec_bytes().len()) as u8, DT_STRING] + widen_zeros(
                s.spec_bytes(),
            ),
    {
        let b = s.as_bytes();
        let len_byte = (2 + 2 * b.len()) as u8;
        let mut r: Vec<u8> = vec![len_byte, DT_STRING];
        push_widened(&mut r, b);
        r
    }

    /// The string descriptor rendering a byte string in upper-case
    /// hexadecimal, two digits per byte, each digit widened with a zero.
    pub fn string_hex(&mut self, s: &[u8]) -> (r: Vec<u8>)
        requires
            2 + 4 * s@.len() <= 80,
        ensures
            r@ =~= seq![(2 + 4 * s@.len()) as u8, DT_STRING] + hex_words(s@),
    {
        let len_byte = (2 + 4 * s.len()) as u8;
        let mut r: Vec<u8> = vec![len_byte, DT_STRING];
        let mut i: usize = 0;
        proof {
            assert(hex_words(s@.take(0)) =~= Seq::<u8>::empty());
            assert(r@ =~= seq![len_byte, DT_STRING] + hex_words(s@.take(0)));
        }
        while i < s.len()
            invariant
                i <= s@.len(),
                2 + 4 * s@.len() <= 80,
                len_byte == (2 + 4 * s@.len()) as u8,
                r@ == seq![len_byte, DT_STRING] + hex_words(s@.take(i as int)),
            decreases s@.len() - i,
        {
            let b = s[i];
            r.push(hex_digit(b / 16));
            r.push(0u8);
            r.push(hex_digit(b % 16));
            r.push(0u8);
            proof {
                assert(hex_words(s@.take(i + 1)) =~= hex_words(s@.take(i as int)) + seq![
                    hexdig((s@[i as int] / 16) as int),
                    0u8,
                    hexdig((s@[i as int] % 16) as int),
                    0u8,
                ]);
                assert(r@ =~= seq![len_byte, DT_STRING] + hex_words(s@.take(i + 1)));
            }
            i = i + 1;
        }
        proof {
            assert(s@.take(s@.len() as int) =~= s@);
        }
        r
    }
}

} // verus!
