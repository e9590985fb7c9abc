//! Drawing tablets: what clients are told of them.

use vstd::prelude::*;
use crate::seqs::{remove_value, without};

verus! {

/// A drawing tool as the input library describes it.
#[derive(Debug, Clone, Copy, PartialEq, Eq, Structural)]
pub struct TabletToolInfo {
    pub kind: u32,
    pub serial: u64,
    pub hardware_id: u64,
    /// What the tool can sense: bit `n` stands for the protocol's capability
    /// `n`.
    pub capabilities: u32,
}

/// What a client is told of a tool.
#[derive(Debug)]
pub struct ToolDescription {
    pub tool: u64,
    pub kind: u32,
    /// The serial number, its high half first.
    pub serial: (u32, u32),
    /// The hardware number, its high half first.
    pub hardware_id: (u32, u32),
    pub capabilities: Vec<u32>,
}

/// The two halves of a number, the high one first.
pub open spec fn halves(value: u64) -> (u32, u32) {
    ((value / 0x1_0000_0000) as u32, (value % 0x1_0000_0000) as u32)
}

/// Split a number into its two halves, the high one first.
pub fn split(value: u64) -> (parts: (u32, u32))
    ensures
        parts == halves(value),
{
    ((value / 0x1_0000_0000) as u32, (value % 0x1_0000_0000) as u32)
}

/// The two halves make up the number again.
pub proof fn halves_make_the_number(value: u64)
    ensures
        halves(value).0 * 0x1_0000_0000 + halves(value).1 == value,
{
}

/// Whether a tool has a capability.
pub open spec fn has_capability(mask: u32, capability: u32) -> bool {
    mask & (1u32 << capability) != 0
}

/// The capabilities of a tool below `bound`, in order. There are six, numbered
/// from one.
pub open spec fn capabilities_below(mask: u32, bound: int) -> Seq<u32>
    decreases bound,
{
    if bound <= 1 {
        Seq::empty()
    } else {
        let earlier = capabilities_below(mask, bound - 1);
        if has_capability(mask, (bound - 1) as u32) {
            earlier.push((bound - 1) as u32)
        } else {
            earlier
        }
    }
}

/// List the capabilities of a tool.
pub fn list_capabilities(mask: u32) -> (list: Vec<u32>)
    ensures
        list@ == capabilities_below(mask, 7),
{
    let mut list: Vec<u32> = Vec::new();
    let mut capability: u32 = 1;
    while capability <= 6
        invariant
            1 <= capability <= 7,
            list@ == capabilities_below(mask, capability as int),
        decreases 7 - capability,
    {
        if mask & (1u32 << capability) != 0 {
            list.push(capability);
        }
        capability += 1;
    }
    list
}

/// Whether a description is the one of a tool.
pub open spec fn describes(description: ToolDescription, tool: u64, info: TabletToolInfo) -> bool {
    &&& description.tool == tool
    &&& description.kind == info.kind
    &&& description.serial == halves(info.serial)
    &&& description.hardware_id == halves(info.hardware_id)
    &&& description.capabilities@ == capabilities_below(info.capabilities, 7)
}

/// Describe a tool to a client.
pub fn describe_tool(tool: u64, info: &TabletToolInfo) -> (description: ToolDescription)
    ensures
        describes(description, tool, *info),
{
    ToolDescription {
        tool,
        kind: info.kind,
        serial: split(info.serial),
        hardware_id: split(info.hardware_id),
        capabilities: list_capabilities(info.capabilities),
    }
}

/// What a client that has just asked for tablets is told: of the one tablet, if
/// it has been seen, and then of every tool.
#[derive(Debug)]
pub struct TabletAnnouncement {
    pub tablet: bool,
    pub tools: Vec<ToolDescription>,
}

/// What asking for tablets leads to.
#[derive(Debug, Clone, Copy, PartialEq, Eq, Structural)]
pub enum TabletSeatAnswer {
    /// The seat belongs to another client.
    ForeignSeat,
    /// The seat cannot be used; nothing happens.
    Ignored,
    Created,
}

/// The tablets, the tools and the objects that clients know them by.
#[derive(Debug)]
pub struct Tablets {
    pub tablet_device_seen: bool,
    pub known_tools: Vec<(u64, TabletToolInfo)>,
    pub seats: Vec<u64>,
    pub devices: Vec<u64>,
    pub tools: Vec<u64>,
}

impl Tablets {
    /// Nothing has been seen.
    pub fn new() -> (tablets: Tablets)
        ensures
            !tablets.tablet_device_seen,
            tablets.known_tools@.len() == 0,
            tablets.seats@.len() == 0 && tablets.devices@.len() == 0 && tablets.tools@.len() == 0,
    {
        Tablets {
            tablet_device_seen: false,
            known_tools: Vec::new(),
            seats: Vec::new(),
            devices: Vec::new(),
            tools: Vec::new(),
        }
    }

    /// A client asks for the tablets of a seat.
    pub fn create_seat(
        &mut self,
        client: u64,
        resource: u64,
        seat_client: Option<u64>,
        seat_usable: bool,
    ) -> (answer: TabletSeatAnswer)
        ensures
            answer == if seat_client != Some(client) {
                TabletSeatAnswer::ForeignSeat
            } else if !seat_usable {
                TabletSeatAnswer::Ignored
            } else {
                TabletSeatAnswer::Created
            },
            final(self).seats@ == if answer == TabletSeatAnswer::Created {
                old(self).seats@.push(resource)
            } else {
                old(self).seats@
            },
            *final(self) == (Tablets { seats: final(self).seats, ..*old(self) }),
    {
        let own = match seat_client {
            Some(owner) => owner == client,
            None => false,
        };
        if !own {
            return TabletSeatAnswer::ForeignSeat;
        }
        if !seat_usable {
            return TabletSeatAnswer::Ignored;
        }
        self.seats.push(resource);
        TabletSeatAnswer::Created
    }

    /// What a client that has just asked for tablets is told.
    pub fn announce(&self) -> (announcement: TabletAnnouncement)
        ensures
            announcement.tablet == self.tablet_device_seen,
            announcement.tools@.len() == self.known_tools@.len(),
            forall|i: int|
                0 <= i < announcement.tools@.len() ==> describes(
                    #[trigger] announcement.tools@[i],
                    self.known_tools@[i].0,
                    self.known_tools@[i].1,
                ),
    {
        let mut tools: Vec<ToolDescription> = Vec::new();
        let mut index: usize = 0;
        while index < self.known_tools.len()
            invariant
                index <= self.known_tools.len(),
                tools@.len() == index,
                forall|i: int|
                    0 <= i < tools@.len() ==> describes(
                        #[trigger] tools@[i],
                        self.known_tools@[i].0,
                        self.known_tools@[i].1,
                    ),
            decreases self.known_tools.len() - index,
        {
            let description = describe_tool(self.known_tools[index].0, &self.known_tools[index].1);
            tools.push(description);
            index += 1;
        }
        TabletAnnouncement { tablet: self.tablet_device_seen, tools }
    }

    /// An object that stands for the tablet was made.
    pub fn add_device(&mut self, resource: u64)
        ensures
            final(self).devices@ == old(self).devices@.push(resource),
            *final(self) == (Tablets { devices: final(self).devices, ..*old(self) }),
    {
        self.devices.push(resource);
    }

    /// An object that stands for a tool was made.
    pub fn add_tool(&mut self, resource: u64)
        ensures
            final(self).tools@ == old(self).tools@.push(resource),
            *final(self) == (Tablets { tools: final(self).tools, ..*old(self) }),
    {
        self.tools.push(resource);
    }

    /// An object that stands for tablets of a seat was destroyed.
    pub fn destroy_seat(&mut self, resource: u64)
        ensures
            final(self).seats@ == without(old(self).seats@, resource),
            *final(self) == (Tablets { seats: final(self).seats, ..*old(self) }),
    {
        remove_value(&mut self.seats, resource);
    }

    /// An object that stands for the tablet was destroyed.
    pub fn destroy_device(&mut self, resource: u64)
        ensures
            final(self).devices@ == without(old(self).devices@, resource),
            *final(self) == (Tablets { devices: final(self).devices, ..*old(self) }),
    {
        remove_value(&mut self.devices, resource);
    }

    /// An object that stands for a tool was destroyed.
    pub fn destroy_tool(&mut self, resource: u64)
        ensures
            final(self).tools@ == without(old(self).tools@, resource),
            *final(self) == (Tablets { tools: final(self).tools, ..*old(self) }),
    {
        remove_value(&mut self.tools, resource);
    }
}

proof fn lemma_capabilities(mask: u32, bound: int)
    requires
        bound <= 7,
    ensures
        forall|c: u32|
            #![trigger capabilities_below(mask, bound).contains(c)]
            capabilities_below(mask, bound).contains(c) <==> 1 <= c < bound && mask & (1u32 << c)
                != 0,
        forall|i: int, j: int|
            #![trigger capabilities_below(mask, bound)[i], capabilities_below(mask, bound)[j]]
            0 <= i < j < capabilities_below(mask, bound).len() ==> capabilities_below(
                mask,
                bound,
            )[i] < capabilities_below(mask, bound)[j],
    decreases bound,
{
    let list = capabilities_below(mask, bound);
    if bound > 1 {
        lemma_capabilities(mask, bound - 1);
        let earlier = capabilities_below(mask, bound - 1);
        let last = (bound - 1) as u32;
        assert forall|c: u32| #![trigger list.contains(c)] list.contains(c) <==> 1 <= c < bound
            && mask & (1u32 << c) != 0 by {
            if list.contains(c) {
                let k = list.index_of(c);
                if k < earlier.len() {
                    assert(earlier[k] == c);
                    assert(earlier.contains(c));
                }
            }
            if 1 <= c < bound && mask & (1u32 << c) != 0 {
                if c < last {
                    assert(earlier.contains(c));
                    let k = earlier.index_of(c);
                    assert(list[k] == c);
                } else {
                    assert(list.last() == c);
                }
            }
        }
        assert forall|i: int, j: int|
            #![trigger list[i], list[j]]
            0 <= i < j < list.len() implies list[i] < list[j] by {
            if j < earlier.len() {
                assert(earlier[i] < earlier[j]);
            } else {
                assert(earlier.contains(earlier[i]));
            }
        }
    } else {
        assert forall|c: u32| #![trigger list.contains(c)] list.contains(c) <==> 1 <= c < bound
            && mask & (1u32 << c) != 0 by {}
    }
}

/// A tool is described by its kind, by its two numbers in halves that make them up
/// again, and by each of its capabilities, in order.
pub proof fn tools_are_described_in_full(
    tool: u64,
    info: TabletToolInfo,
    description: ToolDescription,
    capability: u32,
)
    requires
        call_ensures(describe_tool, (tool, &info), description),
    ensures
        description.tool == tool && description.kind == info.kind,
        description.serial.0 * 0x1_0000_0000 + description.serial.1 == info.serial,
        description.hardware_id.0 * 0x1_0000_0000 + description.hardware_id.1 == info.hardware_id,
        description.capabilities@.contains(capability) <==> 1 <= capability <= 6
            && info.capabilities & (1u32 << capability) != 0,
        forall|i: int, j: int|
            #![trigger description.capabilities@[i], description.capabilities@[j]]
            0 <= i < j < description.capabilities@.len() ==> description.capabilities@[i]
                < description.capabilities@[j],
{
    lemma_capabilities(info.capabilities, 7);
}

/// A new client hears of the tablet if it was seen and of every known tool, in order.
pub proof fn new_clients_hear_of_every_tool(
    tablets: Tablets,
    announcement: TabletAnnouncement,
    index: int,
)
    requires
        call_ensures(Tablets::announce, (&tablets,), announcement),
        0 <= index < tablets.known_tools@.len(),
    ensures
        announcement.tablet == tablets.tablet_device_seen,
        announcement.tools@.len() == tablets.known_tools@.len(),
        announcement.tools@[index].tool == tablets.known_tools@[index].0,
        announcement.tools@[index].kind == tablets.known_tools@[index].1.kind,
{
    assert(describes(
        announcement.tools@[index],
        tablets.known_tools@[index].0,
        tablets.known_tools@[index].1,
    ));
}

/// The two halves of a number make it up again, the high one first; a tool's list holds the
/// number of each bit that is set in its mask.
pub proof fn numbers_and_masks_are_told_in_full(
    value: u64,
    parts: (u32, u32),
    mask: u32,
    list: Vec<u32>,
    number: u32,
)
    requires
        call_ensures(split, (value,), parts),
        call_ensures(list_capabilities, (mask,), list),
    ensures
        parts.0 * 0x1_0000_0000 + parts.1 == value,
        list@.contains(number) <==> 1 <= number <= 6 && has_capability(mask, number),
{
    halves_make_the_number(value);
    lemma_capabilities(mask, 7);
}

/// A client gets the tablets of a usable seat of its own, and no other.
pub proof fn tablets_go_to_the_seats_client(
    tablets: &mut Tablets,
    client: u64,
    resource: u64,
    seat_client: Option<u64>,
    usable: bool,
    answer: TabletSeatAnswer,
)
    requires
        call_ensures(
            Tablets::create_seat,
            (tablets, client, resource, seat_client, usable),
            answer,
        ),
    ensures
        answer == TabletSeatAnswer::Created <==> seat_client == Some(client) && usable,
        answer == TabletSeatAnswer::ForeignSeat <==> seat_client != Some(client),
        answer == TabletSeatAnswer::Created
            ==> final(tablets).seats@.len() == old(tablets).seats@.len()
            + 1 && final(tablets).seats@.last() == resource,
        answer != TabletSeatAnswer::Created ==> final(tablets).seats@ == old(tablets).seats@,
{
}

} // verus!
