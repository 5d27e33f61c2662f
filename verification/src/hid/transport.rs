//! Which HID nodes speak HID++, and how their reports are framed.
//!
//! USB and receiver collections carry both report widths; BLE-direct collections
//! are long-only, and outgoing short messages are up-converted to long for them.

use crate::device::DeviceRoute;
use crate::search::first;
use crate::search::law_the_first_match_is_found;
use crate::search::lemma_first_is;
use vstd::prelude::*;

verus! {

/// Logitech HID vendor ID.
pub const LOGITECH_VID: u16 = 0x046d;

/// A HID collection that carries the HID++ long report.
#[derive(Clone, Copy, Debug, PartialEq, Eq, Structural)]
pub struct Collection {
    pub usage_page: u16,
    pub usage_id: u16,
    /// Whether the transport exposes only the long report.
    pub long_only: bool,
}

/// HID++ long-report vendor collections.
///
/// The vendor-defined page differs by transport:
///
/// - `0xFF00 / 0x0002`: USB, receivers, and Bluetooth-classic devices.
/// - `0xFF43 / 0x0202`: Bluetooth-Low-Energy directly-paired devices. These
///   expose no short-report collection.
/// - `0xFF43 / 0x0602`: wired gaming keyboards, with both report widths.
pub open spec fn long_collections() -> Seq<Collection> {
    seq![
        Collection { usage_page: 0xff00, usage_id: 0x0002, long_only: false },
        Collection { usage_page: 0xff43, usage_id: 0x0202, long_only: true },
        Collection { usage_page: 0xff43, usage_id: 0x0602, long_only: false },
    ]
}

/// Whether a page and usage are those of a HID++ long-report collection.
pub open spec fn speaks_hidpp(usage_page: u16, usage_id: u16) -> bool {
    exists|i: int|
        0 <= i < long_collections().len() && (#[trigger] long_collections()[i]).usage_page
            == usage_page && long_collections()[i].usage_id == usage_id
}

/// Whether a page and usage are those of a long-only collection.
pub open spec fn speaks_long_only(usage_page: u16, usage_id: u16) -> bool {
    exists|i: int|
        0 <= i < long_collections().len() && (#[trigger] long_collections()[i]).usage_page
            == usage_page && long_collections()[i].usage_id == usage_id
            && long_collections()[i].long_only
}

/// HID++ long-report vendor collections. A new transport is a single entry
/// here.
pub fn hidpp_long_collections() -> (collections: Vec<Collection>)
    ensures
        collections@ == long_collections(),
{
    vec![
        Collection { usage_page: 0xff00, usage_id: 0x0002, long_only: false },
        Collection { usage_page: 0xff43, usage_id: 0x0202, long_only: true },
        Collection { usage_page: 0xff43, usage_id: 0x0602, long_only: false },
    ]
}

/// Whether `(usage_page, usage_id)` is one of the HID++ long-report collections.
pub fn is_hidpp_long_collection(usage_page: u16, usage_id: u16) -> (r: bool)
    ensures
        r == speaks_hidpp(usage_page, usage_id),
{
    let collections: Vec<Collection> = hidpp_long_collections();
    let mut i: usize = 0;
    while i < collections.len()
        invariant
            i <= collections@.len(),
            collections@ == long_collections(),
            forall|j: int|
                0 <= j < i ==> !((#[trigger] long_collections()[j]).usage_page == usage_page
                    && long_collections()[j].usage_id == usage_id),
        decreases collections@.len() - i,
    {
        if collections[i].usage_page == usage_page && collections[i].usage_id == usage_id {
            assert(long_collections()[i as int].usage_page == usage_page);
            return true;
        }
        i += 1;
    }
    false
}

/// Whether the matched HID++ collection exposes only the long report, so short
/// requests must be re-framed as long. `false` for any other collection.
pub fn is_long_only_collection(usage_page: u16, usage_id: u16) -> (r: bool)
    ensures
        r == speaks_long_only(usage_page, usage_id),
{
    let collections: Vec<Collection> = hidpp_long_collections();
    let mut i: usize = 0;
    while i < collections.len()
        invariant
            i <= collections@.len(),
            collections@ == long_collections(),
            forall|j: int|
                0 <= j < i ==> !((#[trigger] long_collections()[j]).usage_page == usage_page
                    && long_collections()[j].usage_id == usage_id
                    && long_collections()[j].long_only),
        decreases collections@.len() - i,
    {
        if collections[i].long_only && collections[i].usage_page == usage_page
            && collections[i].usage_id == usage_id {
            assert(long_collections()[i as int].long_only);
            return true;
        }
        i += 1;
    }
    false
}

/// What the system says of a HID node.
#[derive(Clone, Copy, Debug, PartialEq, Eq, Structural)]
pub struct Node {
    pub vendor_id: u16,
    pub product_id: u16,
    pub usage_page: u16,
    pub usage_id: u16,
}

impl Node {
    /// Whether the node is the HID++ side of a Logitech device.
    pub open spec fn is_hidpp(self) -> bool {
        self.vendor_id == LOGITECH_VID && speaks_hidpp(self.usage_page, self.usage_id)
    }
}

/// The positions of the HID++ nodes among all, in order.
pub fn enumerate_hidpp_devices(nodes: &Vec<Node>) -> (found: Vec<usize>)
    ensures
        forall|k: int, l: int| 0 <= k < l < found@.len() ==> found@[k] < found@[l],
        forall|k: int|
            0 <= k < found@.len() ==> (#[trigger] found@[k]) < nodes@.len()
                && nodes@[found@[k] as int].is_hidpp(),
        forall|i: usize|
            i < nodes@.len() && nodes@[i as int].is_hidpp() ==> #[trigger] found@.contains(i),
{
    let mut found: Vec<usize> = Vec::new();
    let mut i: usize = 0;
    while i < nodes.len()
        invariant
            i <= nodes@.len(),
            forall|k: int, l: int| 0 <= k < l < found@.len() ==> found@[k] < found@[l],
            forall|k: int|
                0 <= k < found@.len() ==> (#[trigger] found@[k]) < i
                    && nodes@[found@[k] as int].is_hidpp(),
            forall|j: usize|
                j < i && nodes@[j as int].is_hidpp() ==> #[trigger] found@.contains(j),
        decreases nodes@.len() - i,
    {
        let node: &Node = &nodes[i];
        let ghost before = found@;
        if node.vendor_id == LOGITECH_VID && is_hidpp_long_collection(
            node.usage_page,
            node.usage_id,
        ) {
            found.push(i);
            assert(found@[before.len() as int] == i);
            assert forall|j: usize|
                j < i + 1 && nodes@[j as int].is_hidpp() implies #[trigger] found@.contains(j) by {
                if j < i {
                    assert(before.contains(j));
                    let k = choose|k: int| 0 <= k < before.len() && before[k] == j;
                    assert(found@[k] == j);
                }
            }
        }
        i += 1;
    }
    found
}

/// Whether a node is an HID++ node with these ids.
pub open spec fn attached_as(vendor_id: u16, product_id: u16) -> spec_fn(Node) -> bool {
    |n: Node| n.is_hidpp() && n.vendor_id == vendor_id && n.product_id == product_id
}

/// The node whose raw writer serves a route: the first HID++ node with the ids
/// of a directly attached device. `None` for a device behind a receiver or one
/// that is not connected.
pub fn open_route_writer(route: &DeviceRoute, nodes: &Vec<Node>) -> (node: Option<usize>)
    ensures
        match *route {
            DeviceRoute::Direct { vendor_id, product_id } => match node {
                Some(i) => first(nodes@, attached_as(vendor_id, product_id)) == Some(i as int),
                None => first(nodes@, attached_as(vendor_id, product_id)) is None,
            },
            DeviceRoute::Bolt { .. } => node is None,
        },
{
    let (vendor, product): (u16, u16) = match route {
        DeviceRoute::Direct { vendor_id, product_id } => (*vendor_id, *product_id),
        DeviceRoute::Bolt { .. } => return None,
    };
    let ghost p = attached_as(vendor, product);
    let mut i: usize = 0;
    while i < nodes.len()
        invariant
            i <= nodes@.len(),
            p == attached_as(vendor, product),
            *route == (DeviceRoute::Direct { vendor_id: vendor, product_id: product }),
            forall|j: int| 0 <= j < i ==> !p(#[trigger] nodes@[j]),
        decreases nodes@.len() - i,
    {
        let node: &Node = &nodes[i];
        if node.vendor_id == LOGITECH_VID && is_hidpp_long_collection(
            node.usage_page,
            node.usage_id,
        ) && node.vendor_id == vendor && node.product_id == product {
            proof {
                lemma_first_is(nodes@, p, i as int);
            }
            return Some(i);
        }
        i += 1;
    }
    None
}

/// What happens to an attempt to read an input report.
#[derive(Clone, Copy, Debug, PartialEq, Eq, Structural)]
pub enum ReadOutcome {
    /// So many bytes were read.
    Report(usize),
    /// The device is gone.
    Disconnected,
    /// Any other error.
    Failed,
}

/// What the channel does with it.
#[derive(Clone, Copy, Debug, PartialEq, Eq, Structural)]
pub enum ReadResponse {
    /// Hand the report on.
    Deliver(usize),
    /// Wait until the channel is dropped.
    Park,
    /// Hand the error on.
    Fail,
}

/// The framing of one opened HID++ node.
#[derive(Clone, Copy, Debug, PartialEq, Eq, Structural)]
pub struct HidChannel {
    pub vendor_id: u16,
    pub product_id: u16,
    /// Whether the device exposes only the long HID++ report.
    pub long_only: bool,
}

impl HidChannel {
    /// The channel of a node.
    pub fn new(node: &Node) -> (channel: HidChannel)
        ensures
            channel.vendor_id == node.vendor_id,
            channel.product_id == node.product_id,
            channel.long_only == speaks_long_only(node.usage_page, node.usage_id),
    {
        HidChannel {
            vendor_id: node.vendor_id,
            product_id: node.product_id,
            long_only: is_long_only_collection(node.usage_page, node.usage_id),
        }
    }

    /// Which report widths the device supports, short then long. Every HID++
    /// node carries the long one.
    pub fn supports_short_long_hidpp(&self) -> (widths: Option<(bool, bool)>)
        ensures
            widths == Some((!self.long_only, true)),
    {
        Some((!self.long_only, true))
    }

    /// What to do after an attempt to read a report. A device that disconnected
    /// will never send another: an error would make the reader retry without
    /// end, so the read is parked instead.
    pub fn read_report(&self, outcome: ReadOutcome) -> (response: ReadResponse)
        ensures
            response == match outcome {
                ReadOutcome::Report(n) => ReadResponse::Deliver(n),
                ReadOutcome::Disconnected => ReadResponse::Park,
                ReadOutcome::Failed => ReadResponse::Fail,
            },
    {
        match outcome {
            ReadOutcome::Report(n) => ReadResponse::Deliver(n),
            ReadOutcome::Disconnected => ReadResponse::Park,
            ReadOutcome::Failed => ReadResponse::Fail,
        }
    }
}

/// A long-only collection is a HID++ collection.
pub proof fn law_long_only_collections_speak_hidpp(usage_page: u16, usage_id: u16)
    ensures
        speaks_long_only(usage_page, usage_id) ==> speaks_hidpp(usage_page, usage_id),
{
}

/// The HID++ collections by number, and which of them carries the long report
/// alone.
pub proof fn law_hidpp_collections_by_number(usage_page: u16, usage_id: u16)
    ensures
        speaks_hidpp(usage_page, usage_id) <==> (usage_page == 0xff00 && usage_id == 0x0002) || (
        usage_page == 0xff43 && (usage_id == 0x0202 || usage_id == 0x0602)),
        speaks_long_only(usage_page, usage_id) <==> usage_page == 0xff43 && usage_id == 0x0202,
{
    let all = long_collections();
    assert(all[0].usage_page == 0xff00 && all[0].usage_id == 0x0002 && !all[0].long_only);
    assert(all[1].usage_page == 0xff43 && all[1].usage_id == 0x0202 && all[1].long_only);
    assert(all[2].usage_page == 0xff43 && all[2].usage_id == 0x0602 && !all[2].long_only);
}

/// A node is taken exactly where its vendor is Logitech and its collection speaks
/// HID++; a directly attached device is found by vendor and product besides.
pub proof fn law_only_logitech_nodes_are_taken(node: Node, vendor_id: u16, product_id: u16)
    ensures
        node.is_hidpp() <==> node.vendor_id == 0x046d && speaks_hidpp(
            node.usage_page,
            node.usage_id,
        ),
        attached_as(vendor_id, product_id)(node) <==> node.is_hidpp() && node.vendor_id
            == vendor_id && node.product_id == product_id,
{
}

/// A collection is told by its numbers, and a channel up-converts short reports
/// for the Bluetooth-Low-Energy collection alone.
pub proof fn law_channels_are_framed_by_collection(
    node: Node,
    hidpp: bool,
    long_only: bool,
    channel: HidChannel,
    widths: Option<(bool, bool)>,
)
    requires
        call_ensures(is_hidpp_long_collection, (node.usage_page, node.usage_id), hidpp),
        call_ensures(is_long_only_collection, (node.usage_page, node.usage_id), long_only),
        call_ensures(HidChannel::new, (&node,), channel),
        call_ensures(HidChannel::supports_short_long_hidpp, (&channel,), widths),
    ensures
        hidpp <==> (node.usage_page == 0xff00 && node.usage_id == 0x0002) || (node.usage_page
            == 0xff43 && (node.usage_id == 0x0202 || node.usage_id == 0x0602)),
        long_only <==> node.usage_page == 0xff43 && node.usage_id == 0x0202,
        channel.vendor_id == node.vendor_id,
        channel.product_id == node.product_id,
        channel.long_only == long_only,
        widths is Some,
        widths matches Some(w) ==> (w.0 <==> !(node.usage_page == 0xff43 && node.usage_id
            == 0x0202)) && w.1,
{
    law_hidpp_collections_by_number(node.usage_page, node.usage_id);
}

/// A report that was read is handed on whole, a lost device parks the read, and
/// any other error is handed on.
pub proof fn law_a_lost_device_parks_the_read(
    channel: HidChannel,
    outcome: ReadOutcome,
    response: ReadResponse,
)
    requires
        call_ensures(HidChannel::read_report, (&channel, outcome), response),
    ensures
        outcome matches ReadOutcome::Report(n) ==> response == ReadResponse::Deliver(n),
        outcome is Disconnected <==> response is Park,
        outcome is Failed <==> response is Fail,
{
}

/// Every Logitech node with a HID++ collection is enumerated, no other is, and
/// they keep their order.
pub proof fn law_exactly_the_logitech_nodes_are_enumerated(
    nodes: Vec<Node>,
    found: Vec<usize>,
    i: usize,
)
    requires
        call_ensures(enumerate_hidpp_devices, (&nodes,), found),
        i < nodes@.len(),
    ensures
        found@.contains(i) <==> nodes@[i as int].vendor_id == 0x046d && ((nodes@[i as int].usage_page
            == 0xff00 && nodes@[i as int].usage_id == 0x0002) || (nodes@[i as int].usage_page
            == 0xff43 && (nodes@[i as int].usage_id == 0x0202 || nodes@[i as int].usage_id
            == 0x0602))),
        forall|k: int, l: int| 0 <= k < l < found@.len() ==> found@[k] < found@[l],
{
    let node = nodes@[i as int];
    law_hidpp_collections_by_number(node.usage_page, node.usage_id);
    if found@.contains(i) {
        let k = choose|k: int| 0 <= k < found@.len() && found@[k] == i;
        assert(nodes@[found@[k] as int].is_hidpp());
    }
    if node.is_hidpp() {
        assert(found@.contains(i));
    }
}

/// The writer of a directly attached device is the first node enumerated with its
/// ids; a device behind a receiver has none.
pub proof fn law_a_direct_route_is_written_to_its_node(
    route: DeviceRoute,
    nodes: Vec<Node>,
    found: Vec<usize>,
    node: Option<usize>,
    i: usize,
)
    requires
        call_ensures(enumerate_hidpp_devices, (&nodes,), found),
        call_ensures(open_route_writer, (&route, &nodes), node),
    ensures
        route is Bolt ==> node is None,
        route matches DeviceRoute::Direct { vendor_id, product_id } ==> (node matches Some(n)
            ==> found@.contains(n) && n < nodes@.len() && nodes@[n as int].vendor_id == vendor_id
            && nodes@[n as int].product_id == product_id),
        route matches DeviceRoute::Direct { vendor_id, product_id } ==> (i < nodes@.len()
            && found@.contains(i) && nodes@[i as int].vendor_id == vendor_id
            && nodes@[i as int].product_id == product_id ==> (node matches Some(n) && n <= i)),
{
    if i < nodes@.len() {
        law_exactly_the_logitech_nodes_are_enumerated(nodes, found, i);
        law_hidpp_collections_by_number(nodes@[i as int].usage_page, nodes@[i as int].usage_id);
    }
    if let DeviceRoute::Direct { vendor_id, product_id } = route {
        let p = attached_as(vendor_id, product_id);
        if let Some(n) = node {
            law_the_first_match_is_found(nodes@, p, n as int);
            assert(p(nodes@[n as int]));
            assert(found@.contains(n));
        }
        if i < nodes@.len() && found@.contains(i) && p(nodes@[i as int]) {
            law_the_first_match_is_found(nodes@, p, i as int);
        }
    }
}

} // verus!
