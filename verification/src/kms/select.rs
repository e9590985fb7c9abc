//! Selection of outputs: which connectors to drive, how, and where on the
//! desktop.

use vstd::prelude::*;
use crate::kms::assign::{
    assign_outputs, choice_list, choice_views, is_assignment, is_first_assignment, selects,
    shared_modifiers, ChoiceView, OutputChoice,
};
use crate::kms::color::EdidColorCapabilities;
use crate::kms::error::DrmError;
use crate::kms::formats::{
    is_accepted_list, parse_format_modifiers_in, preference_order_is_unique, table_fault,
    ByteOrder, MODIFIER_LINEAR,
};
use crate::kms::modes::{
    best_mode_has_the_most_pixels, configured_mode_is_met, eligible, pick_mode, refresh_mhz_of,
    wins,
    ModeSpec,
};
use crate::kms::output::OutputKind;
use crate::seqs::contains_u32;

verus! {

/// A display mode that a connector advertises.
#[derive(Debug, Clone, Copy, PartialEq, Eq, Structural)]
pub struct ModeProbe {
    pub width: u16,
    pub height: u16,
    /// The refresh rate in whole hertz.
    pub vrefresh: u32,
    /// Whether the display prefers the mode.
    pub preferred: bool,
}

/// What is known of a connector.
#[derive(Debug)]
pub struct ConnectorProbe {
    pub handle: u32,
    pub name: String,
    pub connected: bool,
    /// The kernel's number for the kind of connector.
    pub interface: u32,
    /// Which of the connectors of that kind it is.
    pub interface_id: u32,
    pub modes: Vec<ModeProbe>,
    pub physical_size_mm: Option<(u32, u32)>,
    /// The controller that drives the connector now.
    pub current_crtc: Option<u32>,
    /// The controllers that each of the connector's encoders can take.
    pub encoder_crtcs: Vec<Vec<u32>>,
    pub color_caps: EdidColorCapabilities,
}

/// What a plane is for.
#[derive(Debug, Clone, Copy, PartialEq, Eq, Structural)]
pub enum PlaneRole {
    Primary,
    Cursor,
    Overlay,
}

/// A plane's table of formats and layouts.
#[derive(Debug)]
pub enum FormatTable {
    /// The plane has no table; it shows linear memory.
    Absent,
    /// The table as the kernel gives it.
    Table(Vec<u8>),
    /// The table could not be read.
    Unreadable(Option<i32>),
}

/// What is known of a plane.
#[derive(Debug)]
pub struct PlaneProbe {
    pub handle: u32,
    pub possible_crtcs: Vec<u32>,
    pub formats: Vec<u32>,
    pub role: Option<PlaneRole>,
    pub table: FormatTable,
}

/// The kernel's number for internal DisplayPort connectors.
pub const INTERFACE_EDP: u32 = 14;

/// The kernel's number for LVDS connectors.
pub const INTERFACE_LVDS: u32 = 7;

/// The kernel's number for DSI connectors.
pub const INTERFACE_DSI: u32 = 16;

/// Whether a connector of the given kind is built into the machine.
pub fn output_kind(interface: u32) -> (kind: OutputKind)
    ensures
        kind == if interface == INTERFACE_EDP || interface == INTERFACE_LVDS || interface
            == INTERFACE_DSI {
            OutputKind::Internal
        } else {
            OutputKind::External
        },
{
    if interface == INTERFACE_EDP || interface == INTERFACE_LVDS || interface == INTERFACE_DSI {
        OutputKind::Internal
    } else {
        OutputKind::External
    }
}

/// What a plane is for, by the low half of its type property.
pub fn plane_role(value: u64) -> (role: Option<PlaneRole>)
    ensures
        role == if value % 0x1_0000_0000 == 0 {
            Some(PlaneRole::Overlay)
        } else if value % 0x1_0000_0000 == 1 {
            Some(PlaneRole::Primary)
        } else if value % 0x1_0000_0000 == 2 {
            Some(PlaneRole::Cursor)
        } else {
            None
        },
{
    let low: u64 = value % 0x1_0000_0000;
    if low == 0 {
        Some(PlaneRole::Overlay)
    } else if low == 1 {
        Some(PlaneRole::Primary)
    } else if low == 2 {
        Some(PlaneRole::Cursor)
    } else {
        None
    }
}

/// The layouts that a sound table accepts for a format, in order of preference.
pub open spec fn accepted_list(order: ByteOrder, blob: Seq<u8>, format: u32) -> Seq<u64> {
    choose|list: Seq<u64>| is_accepted_list(order, blob, format, list)
}

/// The layouts in which a plane shows a format. A plane without a table shows
/// linear memory.
pub open spec fn plane_layouts(order: ByteOrder, table: FormatTable, format: u32) -> Result<
    Seq<u64>,
    DrmError,
> {
    match table {
        FormatTable::Absent => Ok(seq![MODIFIER_LINEAR]),
        FormatTable::Unreadable(errno) => Err(DrmError::Io(errno)),
        FormatTable::Table(blob) => match table_fault(order, blob@) {
            Some(fault) => Err(DrmError::MalformedFormats(fault)),
            None => Ok(accepted_list(order, blob@, format)),
        },
    }
}

/// The layouts in which a plane shows a format.
pub fn plane_modifiers(order: ByteOrder, table: &FormatTable, format: u32) -> (result: Result<
    Vec<u64>,
    DrmError,
>)
    ensures
        match plane_layouts(order, *table, format) {
            Ok(list) => result is Ok && result->Ok_0@ == list,
            Err(error) => result == Err::<Vec<u64>, DrmError>(error),
        },
{
    match table {
        FormatTable::Absent => {
            let mut list: Vec<u64> = Vec::new();
            list.push(MODIFIER_LINEAR);
            assert(list@ =~= seq![MODIFIER_LINEAR]);
            Ok(list)
        },
        FormatTable::Unreadable(errno) => Err(DrmError::Io(*errno)),
        FormatTable::Table(blob) => {
            let result = parse_format_modifiers_in(order, blob.as_slice(), format);
            proof {
                if table_fault(order, blob@) is None {
                    let list = result->Ok_0@;
                    assert(is_accepted_list(order, blob@, format, list));
                    let other = accepted_list(order, blob@, format);
                    assert(is_accepted_list(order, blob@, format, other));
                    assert forall|m: u64| list.contains(m) <==> other.contains(m) by {}
                    preference_order_is_unique(list, other);
                }
            }
            result
        },
    }
}

/// The controllers of a list, each once, where it first occurs.
pub open spec fn first_occurrences(list: Seq<u32>) -> Seq<u32>
    decreases list.len(),
{
    if list.len() == 0 {
        Seq::empty()
    } else {
        let earlier = first_occurrences(list.drop_last());
        if earlier.contains(list.last()) {
            earlier
        } else {
            earlier.push(list.last())
        }
    }
}

/// The lists of the first `count` encoders, one after the other.
pub open spec fn listed_crtcs(encoders: Seq<Vec<u32>>, count: int) -> Seq<u32>
    decreases count,
{
    if count <= 0 {
        Seq::empty()
    } else {
        listed_crtcs(encoders, count - 1) + encoders[count - 1]@
    }
}

/// The controllers to try for a connector: the one that drives it now, then
/// those of its encoders.
pub open spec fn crtcs_to_try(connector: ConnectorProbe) -> Seq<u32> {
    let listed = listed_crtcs(
        connector.encoder_crtcs@,
        connector.encoder_crtcs@.len() as int,
    );
    first_occurrences(
        match connector.current_crtc {
            Some(crtc) => seq![crtc] + listed,
            None => listed,
        },
    )
}

/// Append a controller unless it is there.
fn add_once(crtcs: &mut Vec<u32>, crtc: u32, Ghost(list): Ghost<Seq<u32>>)
    requires
        old(crtcs)@ == first_occurrences(list),
    ensures
        final(crtcs)@ == first_occurrences(list.push(crtc)),
{
    assert(list.push(crtc).drop_last() =~= list);
    if !contains_u32(crtcs.as_slice(), crtc) {
        crtcs.push(crtc);
    }
}

/// The controllers to try for a connector, in order.
pub fn connector_crtcs(connector: &ConnectorProbe) -> (crtcs: Vec<u32>)
    ensures
        crtcs@ == crtcs_to_try(*connector),
{
    let mut crtcs: Vec<u32> = Vec::new();
    let ghost mut list: Seq<u32> = Seq::empty();
    if let Some(current) = connector.current_crtc {
        add_once(&mut crtcs, current, Ghost(list));
        proof {
            list = list.push(current);
        }
    }
    let ghost head = list;
    let encoders = &connector.encoder_crtcs;
    let mut encoder: usize = 0;
    assert(head + listed_crtcs(encoders@, 0) =~= list);
    while encoder < encoders.len()
        invariant
            encoder <= encoders.len(),
            list == head + listed_crtcs(encoders@, encoder as int),
            crtcs@ == first_occurrences(list),
        decreases encoders.len() - encoder,
    {
        let possible = &encoders[encoder];
        let ghost before = list;
        let mut index: usize = 0;
        assert(before + possible@.take(0) =~= list);
        while index < possible.len()
            invariant
                index <= possible.len(),
                list == before + possible@.take(index as int),
                crtcs@ == first_occurrences(list),
            decreases possible.len() - index,
        {
            add_once(&mut crtcs, possible[index], Ghost(list));
            proof {
                list = list.push(possible@[index as int]);
                assert(list =~= before + possible@.take(index + 1));
            }
            index += 1;
        }
        assert(possible@.take(possible.len() as int) =~= possible@);
        assert(list =~= head + listed_crtcs(encoders@, encoder + 1));
        encoder += 1;
    }
    proof {
        let listed = listed_crtcs(encoders@, encoders.len() as int);
        match connector.current_crtc {
            Some(crtc) => {
                assert(head =~= seq![crtc]);
            },
            None => {
                assert(head + listed =~= listed);
            },
        }
    }
    crtcs
}

/// Whether a plane can show a format through a controller.
pub open spec fn plane_fits(plane: PlaneProbe, crtc: u32, format: u32) -> bool {
    plane.role == Some(PlaneRole::Primary) && plane.possible_crtcs@.contains(crtc)
        && plane.formats@.contains(format)
}

/// The choices that the first `count` planes offer for a controller, or the
/// first failure to read one of them.
pub open spec fn crtc_choices(
    order: ByteOrder,
    planes: Seq<PlaneProbe>,
    crtc: u32,
    format: u32,
    count: int,
) -> Result<Seq<ChoiceView>, DrmError>
    decreases count,
{
    if count <= 0 {
        Ok(Seq::empty())
    } else {
        match crtc_choices(order, planes, crtc, format, count - 1) {
            Err(error) => Err(error),
            Ok(earlier) => {
                let plane = planes[count - 1];
                if !plane_fits(plane, crtc, format) {
                    Ok(earlier)
                } else {
                    match plane_layouts(order, plane.table, format) {
                        Err(error) => Err(error),
                        Ok(modifiers) => if modifiers.len() == 0 {
                            Ok(earlier)
                        } else {
                            Ok(earlier.push(ChoiceView { crtc, plane: plane.handle, modifiers }))
                        },
                    }
                }
            },
        }
    }
}

/// The choices for the first `count` controllers of a list.
pub open spec fn connector_choices(
    order: ByteOrder,
    planes: Seq<PlaneProbe>,
    crtcs: Seq<u32>,
    format: u32,
    count: int,
) -> Result<Seq<ChoiceView>, DrmError>
    decreases count,
{
    if count <= 0 {
        Ok(Seq::empty())
    } else {
        match connector_choices(order, planes, crtcs, format, count - 1) {
            Err(error) => Err(error),
            Ok(earlier) => match crtc_choices(
                order,
                planes,
                crtcs[count - 1],
                format,
                planes.len() as int,
            ) {
                Err(error) => Err(error),
                Ok(more) => Ok(earlier + more),
            },
        }
    }
}

/// Append the choices that planes offer for a controller.
fn add_crtc_choices(
    order: ByteOrder,
    planes: &[PlaneProbe],
    crtc: u32,
    format: u32,
    choices: &mut Vec<OutputChoice>,
) -> (result: Result<(), DrmError>)
    ensures
        match crtc_choices(order, planes@, crtc, format, planes.len() as int) {
            Ok(more) => result is Ok && choice_list(final(choices)@) == choice_list(
                old(choices)@,
            ) + more,
            Err(error) => result == Err::<(), DrmError>(error),
        },
{
    let ghost before = choice_list(choices@);
    let mut index: usize = 0;
    assert(before + Seq::<ChoiceView>::empty() =~= before);
    while index < planes.len()
        invariant
            index <= planes.len(),
            crtc_choices(order, planes@, crtc, format, index as int) matches Ok(more)
                && choice_list(choices@) == before + more,
        decreases planes.len() - index,
    {
        let plane = &planes[index];
        let primary = match plane.role {
            Some(PlaneRole::Primary) => true,
            _ => false,
        };
        let ghost so_far = crtc_choices(order, planes@, crtc, format, index as int)->Ok_0;
        if primary && contains_u32(plane.possible_crtcs.as_slice(), crtc) && contains_u32(
            plane.formats.as_slice(),
            format,
        ) {
            match plane_modifiers(order, &plane.table, format) {
                Err(error) => {
                    proof {
                        lemma_crtc_failure(order, planes@, crtc, format, index + 1);
                    }
                    return Err(error);
                },
                Ok(modifiers) => if modifiers.len() > 0 {
                    let ghost list = choices@;
                    choices.push(OutputChoice { crtc, plane: plane.handle, modifiers });
                    assert(choice_list(choices@) =~= choice_list(list).push(
                        choices@[list.len() as int]@,
                    ));
                    assert(choice_list(choices@) =~= before + so_far.push(
                        choices@[list.len() as int]@,
                    ));
                },
            }
        }
        index += 1;
    }
    Ok(())
}

/// A failure to read one plane is the failure of the whole list.
proof fn lemma_crtc_failure(
    order: ByteOrder,
    planes: Seq<PlaneProbe>,
    crtc: u32,
    format: u32,
    count: int,
)
    requires
        0 <= count <= planes.len(),
        crtc_choices(order, planes, crtc, format, count) is Err,
    ensures
        crtc_choices(order, planes, crtc, format, planes.len() as int) == crtc_choices(
            order,
            planes,
            crtc,
            format,
            count,
        ),
    decreases planes.len() - count,
{
    if count < planes.len() {
        lemma_crtc_failure(order, planes, crtc, format, count + 1);
    }
}

/// A failure for one controller is the failure of the whole list.
proof fn lemma_connector_failure(
    order: ByteOrder,
    planes: Seq<PlaneProbe>,
    crtcs: Seq<u32>,
    format: u32,
    count: int,
)
    requires
        0 <= count <= crtcs.len(),
        connector_choices(order, planes, crtcs, format, count) is Err,
    ensures
        connector_choices(order, planes, crtcs, format, crtcs.len() as int) == connector_choices(
            order,
            planes,
            crtcs,
            format,
            count,
        ),
    decreases crtcs.len() - count,
{
    if count < crtcs.len() {
        lemma_connector_failure(order, planes, crtcs, format, count + 1);
    }
}

/// The ways of driving a connector with a format, in order of preference.
pub fn choices_for_connector(
    order: ByteOrder,
    planes: &[PlaneProbe],
    connector: &ConnectorProbe,
    format: u32,
) -> (result: Result<Vec<OutputChoice>, DrmError>)
    ensures
        match connector_choices(
            order,
            planes@,
            crtcs_to_try(*connector),
            format,
            crtcs_to_try(*connector).len() as int,
        ) {
            Ok(list) => result is Ok && choice_list(result->Ok_0@) == list,
            Err(error) => result == Err::<Vec<OutputChoice>, DrmError>(error),
        },
{
    let crtcs = connector_crtcs(connector);
    let mut choices: Vec<OutputChoice> = Vec::new();
    let mut index: usize = 0;
    assert(choice_list(choices@) =~= Seq::<ChoiceView>::empty());
    while index < crtcs.len()
        invariant
            index <= crtcs.len(),
            crtcs@ == crtcs_to_try(*connector),
            connector_choices(order, planes@, crtcs@, format, index as int) matches Ok(list)
                && choice_list(choices@) == list,
        decreases crtcs.len() - index,
    {
        match add_crtc_choices(order, planes, crtcs[index], format, &mut choices) {
            Ok(()) => {},
            Err(error) => {
                proof {
                    lemma_connector_failure(order, planes@, crtcs@, format, index + 1);
                }
                return Err(error);
            },
        }
        index += 1;
    }
    Ok(choices)
}

/// Whether a connector can show anything.
pub open spec fn drivable(connector: ConnectorProbe) -> bool {
    connector.connected && connector.modes@.len() > 0
}

/// Whether the connector at `left` comes before the one at `right`: by kind,
/// then by number, then by place.
pub open spec fn comes_before(connectors: Seq<ConnectorProbe>, left: int, right: int) -> bool {
    let a = connectors[left];
    let b = connectors[right];
    a.interface < b.interface || (a.interface == b.interface && (a.interface_id < b.interface_id
        || (a.interface_id == b.interface_id && left < right)))
}

/// Whether `ranks` lists the connectors that can show something, in order.
pub open spec fn is_ranking(connectors: Seq<ConnectorProbe>, ranks: Seq<usize>) -> bool {
    &&& forall|i: int|
        #![trigger ranks[i]]
        0 <= i < ranks.len() ==> ranks[i] < connectors.len() && drivable(
            connectors[ranks[i] as int],
        )
    &&& forall|i: int, j: int|
        #![trigger ranks[i], ranks[j]]
        0 <= i < j < ranks.len() ==> comes_before(connectors, ranks[i] as int, ranks[j] as int)
    &&& forall|c: int|
        #![trigger drivable(connectors[c])]
        0 <= c < connectors.len() && drivable(connectors[c]) ==> ranks.contains(c as usize)
}

/// Whether `ranks` lists the first `count` connectors that can show something.
spec fn is_partial_ranking(
    connectors: Seq<ConnectorProbe>,
    ranks: Seq<usize>,
    count: int,
) -> bool {
    &&& forall|i: int|
        #![trigger ranks[i]]
        0 <= i < ranks.len() ==> ranks[i] < count && drivable(connectors[ranks[i] as int])
    &&& forall|i: int, j: int|
        #![trigger ranks[i], ranks[j]]
        0 <= i < j < ranks.len() ==> comes_before(connectors, ranks[i] as int, ranks[j] as int)
    &&& forall|c: int|
        #![trigger drivable(connectors[c])]
        0 <= c < count && drivable(connectors[c]) ==> ranks.contains(c as usize)
}

/// List the connectors that can show something, in order.
pub fn rank_connectors(connectors: &[ConnectorProbe]) -> (ranks: Vec<usize>)
    ensures
        is_ranking(connectors@, ranks@),
{
    let mut ranks: Vec<usize> = Vec::new();
    let mut index: usize = 0;
    while index < connectors.len()
        invariant
            index <= connectors.len(),
            is_partial_ranking(connectors@, ranks@, index as int),
        decreases connectors.len() - index,
    {
        let connector = &connectors[index];
        if connector.connected && connector.modes.len() > 0 {
            let mut place: usize = 0;
            while place < ranks.len() && !(connector.interface
                < connectors[ranks[place]].interface || (connector.interface
                == connectors[ranks[place]].interface && connector.interface_id
                < connectors[ranks[place]].interface_id))
                invariant
                    place <= ranks.len(),
                    index < connectors.len(),
                    *connector == connectors@[index as int],
                    is_partial_ranking(connectors@, ranks@, index as int),
                    forall|i: int|
                        #![trigger ranks@[i]]
                        0 <= i < place ==> comes_before(
                            connectors@,
                            ranks@[i] as int,
                            index as int,
                        ),
                decreases ranks.len() - place,
            {
                assert(ranks@[place as int] < index);
                place += 1;
            }
            let ghost before = ranks@;
            ranks.insert(place, index);
            proof {
                crate::seqs::lemma_insert_contains(before, place as int, index);
                let after = ranks@;
                assert forall|i: int, j: int|
                    #![trigger after[i], after[j]]
                    0 <= i < j < after.len() implies comes_before(
                    connectors@,
                    after[i] as int,
                    after[j] as int,
                ) by {
                    let bi = if i < place {
                        i
                    } else {
                        i - 1
                    };
                    let bj = if j < place {
                        j
                    } else {
                        j - 1
                    };
                    if i == place {
                        assert(after[j] == before[bj]);
                        assert(comes_before(connectors@, index as int, before[place as int] as int));
                        if bj > place {
                            assert(comes_before(
                                connectors@,
                                before[place as int] as int,
                                before[bj] as int,
                            ));
                        }
                    } else if j == place {
                        assert(after[i] == before[i]);
                    } else {
                        assert(after[i] == before[bi] && after[j] == before[bj]);
                    }
                }
                assert forall|i: int|
                    #![trigger after[i]]
                    0 <= i < after.len() implies after[i] < index + 1 && drivable(
                    connectors@[after[i] as int],
                ) by {
                    if i < place {
                        assert(after[i] == before[i]);
                    } else if i > place {
                        assert(after[i] == before[i - 1]);
                    } else {
                        assert(drivable(connectors@[index as int]));
                    }
                }
            }
        }
        index += 1;
    }
    ranks
}

/// The choices of the first `count` ranked connectors, or the first failure to
/// read a plane.
pub open spec fn all_choices(
    order: ByteOrder,
    connectors: Seq<ConnectorProbe>,
    ranks: Seq<usize>,
    planes: Seq<PlaneProbe>,
    format: u32,
    count: int,
) -> Result<Seq<Seq<ChoiceView>>, DrmError>
    decreases count,
{
    if count <= 0 {
        Ok(Seq::empty())
    } else {
        match all_choices(order, connectors, ranks, planes, format, count - 1) {
            Err(error) => Err(error),
            Ok(earlier) => {
                let crtcs = crtcs_to_try(connectors[ranks[count - 1] as int]);
                match connector_choices(order, planes, crtcs, format, crtcs.len() as int) {
                    Err(error) => Err(error),
                    Ok(list) => Ok(earlier.push(list)),
                }
            },
        }
    }
}

/// A failure for one connector is the failure of the format.
proof fn lemma_all_failure(
    order: ByteOrder,
    connectors: Seq<ConnectorProbe>,
    ranks: Seq<usize>,
    planes: Seq<PlaneProbe>,
    format: u32,
    count: int,
)
    requires
        0 <= count <= ranks.len(),
        all_choices(order, connectors, ranks, planes, format, count) is Err,
    ensures
        all_choices(order, connectors, ranks, planes, format, ranks.len() as int) == all_choices(
            order,
            connectors,
            ranks,
            planes,
            format,
            count,
        ),
    decreases ranks.len() - count,
{
    if count < ranks.len() {
        lemma_all_failure(order, connectors, ranks, planes, format, count + 1);
    }
}

/// The ways of driving each ranked connector with a format.
fn choices_for_all(
    order: ByteOrder,
    connectors: &[ConnectorProbe],
    ranks: &[usize],
    planes: &[PlaneProbe],
    format: u32,
) -> (result: Result<Vec<Vec<OutputChoice>>, DrmError>)
    requires
        is_ranking(connectors@, ranks@),
    ensures
        match all_choices(order, connectors@, ranks@, planes@, format, ranks.len() as int) {
            Ok(list) => result is Ok && choice_views(result->Ok_0@) == list,
            Err(error) => result == Err::<Vec<Vec<OutputChoice>>, DrmError>(error),
        },
{
    let mut candidates: Vec<Vec<OutputChoice>> = Vec::new();
    let mut index: usize = 0;
    assert(choice_views(candidates@) =~= Seq::<Seq<ChoiceView>>::empty());
    while index < ranks.len()
        invariant
            index <= ranks.len(),
            is_ranking(connectors@, ranks@),
            all_choices(order, connectors@, ranks@, planes@, format, index as int) matches Ok(list)
                && choice_views(candidates@) == list,
        decreases ranks.len() - index,
    {
        let rank: usize = ranks[index];
        match choices_for_connector(order, planes, &connectors[rank], format) {
            Ok(choices) => {
                let ghost before = candidates@;
                candidates.push(choices);
                assert(choice_views(candidates@) =~= choice_views(before).push(
                    choice_list(choices@),
                ));
            },
            Err(error) => {
                proof {
                    lemma_all_failure(
                        order,
                        connectors@,
                        ranks@,
                        planes@,
                        format,
                        index + 1,
                    );
                }
                return Err(error);
            },
        }
        index += 1;
    }
    Ok(candidates)
}

/// Which framebuffer format to use.
pub enum FormatChoice {
    /// A plane could not be read.
    Failure(DrmError),
    /// No format drives every connector.
    Nothing,
    /// The format at this place of the candidates does.
    Format(int),
}

/// The first format, from place `from` on, with which every connector can be
/// driven.
pub open spec fn format_choice(
    order: ByteOrder,
    connectors: Seq<ConnectorProbe>,
    ranks: Seq<usize>,
    planes: Seq<PlaneProbe>,
    formats: Seq<u32>,
    from: int,
) -> FormatChoice
    decreases formats.len() - from,
{
    if from >= formats.len() {
        FormatChoice::Nothing
    } else {
        match all_choices(
            order,
            connectors,
            ranks,
            planes,
            formats[from],
            ranks.len() as int,
        ) {
            Err(error) => FormatChoice::Failure(error),
            Ok(candidates) => if exists|picks: Seq<int>| is_assignment(candidates, picks) {
                FormatChoice::Format(from)
            } else {
                format_choice(order, connectors, ranks, planes, formats, from + 1)
            },
        }
    }
}

/// The format that is used, and the controller and plane of each connector.
#[derive(Debug)]
pub struct FormatAssignment {
    /// The place of the format among the candidates.
    pub index: usize,
    pub choices: Vec<OutputChoice>,
    pub modifiers: Vec<u64>,
}

/// Whether `chosen` is the first assignment among the candidates.
pub open spec fn is_format_assignment(
    candidates: Seq<Seq<ChoiceView>>,
    choices: Seq<OutputChoice>,
    modifiers: Seq<u64>,
) -> bool {
    exists|picks: Seq<int>| #[trigger]
        is_first_assignment(candidates, picks) && selects(candidates, picks, choices) && modifiers
            == shared_modifiers(candidates, picks)
}

/// Choose the framebuffer format and drive every ranked connector with it.
pub fn choose_format(
    order: ByteOrder,
    connectors: &[ConnectorProbe],
    ranks: &[usize],
    planes: &[PlaneProbe],
    formats: &[u32],
) -> (result: Result<Option<FormatAssignment>, DrmError>)
    requires
        is_ranking(connectors@, ranks@),
    ensures
        match format_choice(order, connectors@, ranks@, planes@, formats@, 0) {
            FormatChoice::Failure(error) => result == Err::<Option<FormatAssignment>, DrmError>(
                error,
            ),
            FormatChoice::Nothing => result matches Ok(None),
            FormatChoice::Format(index) => {
                &&& 0 <= index < formats.len()
                &&& result matches Ok(Some(found))
                &&& found.index == index
                &&& is_format_assignment(
                    all_choices(
                        order,
                        connectors@,
                        ranks@,
                        planes@,
                        formats@[index],
                        ranks.len() as int,
                    )->Ok_0,
                    found.choices@,
                    found.modifiers@,
                )
            },
        },
{
    let mut index: usize = 0;
    while index < formats.len()
        invariant
            index <= formats.len(),
            is_ranking(connectors@, ranks@),
            format_choice(order, connectors@, ranks@, planes@, formats@, 0) == format_choice(
                order,
                connectors@,
                ranks@,
                planes@,
                formats@,
                index as int,
            ),
        decreases formats.len() - index,
    {
        let candidates = match choices_for_all(order, connectors, ranks, planes, formats[index]) {
            Ok(candidates) => candidates,
            Err(error) => return Err(error),
        };
        if let Some((choices, modifiers)) = assign_outputs(candidates.as_slice()) {
            proof {
                let views = choice_views(candidates@);
                let picks = choose|picks: Seq<int>| #[trigger]
                    is_first_assignment(views, picks) && selects(views, picks, choices@)
                        && modifiers@ == shared_modifiers(views, picks);
                assert(is_assignment(views, picks));
            }
            return Ok(Some(FormatAssignment { index, choices, modifiers }));
        }
        index += 1;
    }
    Ok(None)
}

/// Whether `index` is the mode to use: the best that meets the configuration
/// or, where none does, the best of all.
pub open spec fn is_chosen_mode(
    modes: Seq<(i32, i32, u32, bool)>,
    spec: Option<&ModeSpec>,
    index: int,
) -> bool {
    if exists|i: int| eligible(modes, spec, i) {
        is_best_mode(modes, spec, index)
    } else {
        is_best_mode(modes, None, index)
    }
}

/// Whether `index` is the best mode that meets the configuration.
pub open spec fn is_best_mode(
    modes: Seq<(i32, i32, u32, bool)>,
    spec: Option<&ModeSpec>,
    index: int,
) -> bool {
    eligible(modes, spec, index) && forall|other: int| #[trigger]
        eligible(modes, spec, other) && other != index ==> wins(modes, spec, index, other)
}

/// A connector's modes as the mode choice sees them.
pub open spec fn mode_entries(modes: Seq<ModeProbe>) -> Seq<(i32, i32, u32, bool)> {
    modes.map_values(
        |m: ModeProbe| (m.width as i32, m.height as i32, refresh_mhz_of(m.vrefresh), m.preferred),
    )
}

/// Choose the mode of a connector that has one.
pub fn choose_mode(modes: &[ModeProbe], spec: Option<&ModeSpec>) -> (index: usize)
    requires
        modes.len() > 0,
    ensures
        index < modes.len(),
        is_chosen_mode(mode_entries(modes@), spec, index as int),
{
    let mut entries: Vec<(i32, i32, u32, bool)> = Vec::new();
    let mut at: usize = 0;
    while at < modes.len()
        invariant
            at <= modes.len(),
            entries@ == mode_entries(modes@.take(at as int)),
        decreases modes.len() - at,
    {
        let mode: ModeProbe = modes[at];
        let shown = crate::kms::modes::OutputMode::advertised(
            mode.width,
            mode.height,
            mode.vrefresh,
        );
        entries.push((shown.width, shown.height, shown.refresh_mhz, mode.preferred));
        assert(entries@ =~= mode_entries(modes@.take(at + 1)));
        at += 1;
    }
    assert(modes@.take(modes.len() as int) =~= modes@);
    match pick_mode(entries.as_slice(), spec) {
        Some(index) => index,
        None => match pick_mode(entries.as_slice(), None) {
            Some(index) => index,
            None => {
                assert(eligible(entries@, None, 0));
                0
            },
        },
    }
}

/// Without a configured mode a connector is shown in the mode with the most pixels, and
/// of those in one with the highest rate.
pub proof fn connectors_are_shown_at_their_largest(
    modes: &[ModeProbe],
    index: usize,
    other: int,
)
    requires
        call_ensures(choose_mode, (modes, None), index),
        0 <= other < modes@.len(),
    ensures
        index < modes@.len(),
        modes@[other].width * modes@[other].height <= modes@[index as int].width
            * modes@[index as int].height,
        modes@[other].width * modes@[other].height == modes@[index as int].width
            * modes@[index as int].height ==> modes@[other].vrefresh
            <= modes@[index as int].vrefresh || modes@[index as int].vrefresh * 1000 > u32::MAX,
{
    let entries = mode_entries(modes@);
    assert(eligible(entries, None, other));
    best_mode_has_the_most_pixels(entries, index as int, other);
    assert(entries[other].0 == modes@[other].width && entries[other].1 == modes@[other].height);
    assert(entries[index as int].0 == modes@[index as int].width && entries[index as int].1
        == modes@[index as int].height);
}

/// A configured size is used wherever the connector has it at the configured rate.
pub proof fn configured_sizes_are_used(
    modes: &[ModeProbe],
    spec: ModeSpec,
    index: usize,
    other: int,
)
    requires
        call_ensures(choose_mode, (modes, Some(&spec)), index),
        0 <= other < modes@.len(),
        modes@[other].width == spec.width && modes@[other].height == spec.height,
        spec.refresh_hz matches Some(hz) ==> modes@[other].vrefresh == hz,
        modes@[other].vrefresh * 1000 <= u32::MAX,
    ensures
        index < modes@.len(),
        modes@[index as int].width == spec.width && modes@[index as int].height == spec.height,
        spec.refresh_hz is Some && modes@[index as int].vrefresh * 1000 <= u32::MAX
            ==> modes@[index as int].vrefresh == spec.refresh_hz->0,
{
    let entries = mode_entries(modes@);
    assert(eligible(entries, Some(&spec), other));
    configured_mode_is_met(entries, spec, index as int, other);
}

/// The connectors that are connected and have a mode are driven, no others, in order of
/// kind, number and place.
pub proof fn driven_connectors_are_connected(
    connectors: &[ConnectorProbe],
    ranks: Vec<usize>,
    i: int,
    j: int,
    c: usize,
)
    requires
        call_ensures(rank_connectors, (connectors,), ranks),
        0 <= i < j < ranks@.len(),
        0 <= c < connectors@.len(),
    ensures
        ranks@[i] < connectors@.len(),
        connectors@[ranks@[i] as int].connected,
        connectors@[ranks@[i] as int].modes@.len() > 0,
        ranks@[i] != ranks@[j],
        connectors@[ranks@[i] as int].interface <= connectors@[ranks@[j] as int].interface,
        connectors@[ranks@[i] as int].interface == connectors@[ranks@[j] as int].interface
            ==> connectors@[ranks@[i] as int].interface_id
            <= connectors@[ranks@[j] as int].interface_id,
        connectors@[c as int].connected && connectors@[c as int].modes@.len() > 0
            <==> ranks@.contains(c),
{
    assert(drivable(connectors@[ranks@[i] as int]));
    assert(comes_before(connectors@, ranks@[i] as int, ranks@[j] as int));
    if ranks@.contains(c) {
        let k = ranks@.index_of(c);
        assert(drivable(connectors@[ranks@[k] as int]));
    }
    if connectors@[c as int].connected && connectors@[c as int].modes@.len() > 0 {
        assert(drivable(connectors@[c as int]));
    }
}

/// The kinds of connector that are built in, and the numbers that tell planes apart, are
/// the kernel's.
pub proof fn kernel_numbers_are_understood(
    interface: u32,
    kind: OutputKind,
    value: u64,
    role: Option<PlaneRole>,
)
    requires
        call_ensures(output_kind, (interface,), kind),
        call_ensures(plane_role, (value,), role),
    ensures
        kind == OutputKind::Internal <==> interface == 7 || interface == 14 || interface == 16,
        value <= u32::MAX ==> {
            &&& role == Some(PlaneRole::Overlay) <==> value == 0
            &&& role == Some(PlaneRole::Primary) <==> value == 1
            &&& role == Some(PlaneRole::Cursor) <==> value == 2
        },
{
}

proof fn lemma_first_occurrences(list: Seq<u32>)
    ensures
        forall|c: u32| #[trigger] first_occurrences(list).contains(c) <==> list.contains(c),
        first_occurrences(list).no_duplicates(),
        list.len() > 0 ==> first_occurrences(list).len() > 0 && first_occurrences(list)[0]
            == list[0],
    decreases list.len(),
{
    if list.len() > 0 {
        let rest = list.drop_last();
        let earlier = first_occurrences(rest);
        let all = first_occurrences(list);
        lemma_first_occurrences(rest);
        assert forall|c: u32| #[trigger] all.contains(c) <==> list.contains(c) by {
            if all.contains(c) {
                let k = all.index_of(c);
                if k < earlier.len() {
                    assert(earlier[k] == c);
                    assert(earlier.contains(c));
                    assert(rest.contains(c));
                    let i = rest.index_of(c);
                    assert(list[i] == c);
                } else {
                    assert(list[list.len() - 1] == c);
                }
            }
            if list.contains(c) {
                let i = list.index_of(c);
                if i < list.len() - 1 {
                    assert(rest[i] == c);
                    assert(earlier.contains(c));
                    let k = earlier.index_of(c);
                    assert(all[k] == c);
                } else if earlier.contains(c) {
                    let k = earlier.index_of(c);
                    assert(all[k] == c);
                } else {
                    assert(all.last() == c);
                }
            }
        }
        if rest.len() == 0 {
            assert(!earlier.contains(list.last()));
        }
    }
}

proof fn lemma_listed_crtcs(encoders: Seq<Vec<u32>>, count: int, crtc: u32)
    requires
        0 <= count <= encoders.len(),
    ensures
        listed_crtcs(encoders, count).contains(crtc) <==> exists|e: int|
            0 <= e < count && (#[trigger] encoders[e])@.contains(crtc),
    decreases count,
{
    if count > 0 {
        let earlier = listed_crtcs(encoders, count - 1);
        let last = encoders[count - 1]@;
        let all = listed_crtcs(encoders, count);
        lemma_listed_crtcs(encoders, count - 1, crtc);
        if all.contains(crtc) {
            let k = all.index_of(crtc);
            if k < earlier.len() {
                assert(earlier[k] == crtc);
            } else {
                assert(last[k - earlier.len()] == crtc);
                assert(encoders[count - 1]@.contains(crtc));
            }
        }
        if exists|e: int| 0 <= e < count && (#[trigger] encoders[e])@.contains(crtc) {
            let e = choose|e: int| 0 <= e < count && (#[trigger] encoders[e])@.contains(crtc);
            if e < count - 1 {
                let k = earlier.index_of(crtc);
                assert(all[k] == crtc);
            } else {
                let k = last.index_of(crtc);
                assert(all[earlier.len() + k] == crtc);
            }
        }
    }
}

/// The controllers to try for a connector are the one that drives it, first of all, and
/// those that its encoders can take, each once.
pub proof fn controllers_to_try_are_the_connectors_own(
    connector: ConnectorProbe,
    crtcs: Vec<u32>,
    crtc: u32,
)
    requires
        call_ensures(connector_crtcs, (&connector,), crtcs),
    ensures
        crtcs@.contains(crtc) <==> connector.current_crtc == Some(crtc) || exists|e: int|
            0 <= e < connector.encoder_crtcs@.len() && (
            #[trigger] connector.encoder_crtcs@[e])@.contains(crtc),
        connector.current_crtc matches Some(current) ==> crtcs@.len() > 0 && crtcs@[0] == current,
        crtcs@.no_duplicates(),
{
    let n = connector.encoder_crtcs@.len() as int;
    let listed = listed_crtcs(connector.encoder_crtcs@, n);
    lemma_listed_crtcs(connector.encoder_crtcs@, n, crtc);
    match connector.current_crtc {
        Some(current) => {
            let list = seq![current] + listed;
            lemma_first_occurrences(list);
            if list.contains(crtc) && crtc != current {
                let k = list.index_of(crtc);
                assert(listed[k - 1] == crtc);
            }
            if listed.contains(crtc) {
                let k = listed.index_of(crtc);
                assert(list[k + 1] == crtc);
            }
            if crtc == current {
                assert(list[0] == crtc);
            }
        },
        None => {
            lemma_first_occurrences(listed);
        },
    }
}

proof fn lemma_crtc_choices_fit(
    order: ByteOrder,
    planes: Seq<PlaneProbe>,
    crtc: u32,
    format: u32,
    count: int,
    k: int,
)
    requires
        0 <= count <= planes.len(),
        crtc_choices(order, planes, crtc, format, count) is Ok,
        0 <= k < crtc_choices(order, planes, crtc, format, count)->Ok_0.len(),
    ensures
        ({
            let choice = crtc_choices(order, planes, crtc, format, count)->Ok_0[k];
            &&& choice.crtc == crtc
            &&& choice.modifiers.len() > 0
            &&& exists|p: int|
                #![trigger planes[p]]
                0 <= p < planes.len() && planes[p].handle == choice.plane && planes[p].role == Some(
                    PlaneRole::Primary,
                ) && planes[p].possible_crtcs@.contains(crtc) && planes[p].formats@.contains(format)
        }),
    decreases count,
{
    let earlier = crtc_choices(order, planes, crtc, format, count - 1)->Ok_0;
    if k < earlier.len() {
        lemma_crtc_choices_fit(order, planes, crtc, format, count - 1, k);
    } else {
        let plane = planes[count - 1];
    }
}

proof fn lemma_connector_choices_fit(
    order: ByteOrder,
    planes: Seq<PlaneProbe>,
    crtcs: Seq<u32>,
    format: u32,
    count: int,
    k: int,
)
    requires
        0 <= count <= crtcs.len(),
        connector_choices(order, planes, crtcs, format, count) is Ok,
        0 <= k < connector_choices(order, planes, crtcs, format, count)->Ok_0.len(),
    ensures
        ({
            let choice = connector_choices(order, planes, crtcs, format, count)->Ok_0[k];
            &&& crtcs.contains(choice.crtc)
            &&& choice.modifiers.len() > 0
            &&& exists|p: int|
                #![trigger planes[p]]
                0 <= p < planes.len() && planes[p].handle == choice.plane && planes[p].role == Some(
                    PlaneRole::Primary,
                ) && planes[p].possible_crtcs@.contains(choice.crtc)
                    && planes[p].formats@.contains(format)
        }),
    decreases count,
{
    let earlier = connector_choices(order, planes, crtcs, format, count - 1)->Ok_0;
    if k < earlier.len() {
        lemma_connector_choices_fit(order, planes, crtcs, format, count - 1, k);
    } else {
        lemma_crtc_choices_fit(
            order,
            planes,
            crtcs[count - 1],
            format,
            planes.len() as int,
            k - earlier.len(),
        );
    }
}

/// Every way of driving a connector goes through a controller of the connector and a
/// primary plane that can be fed by it, knows the format and takes at least one layout.
pub proof fn ways_of_driving_fit(
    order: ByteOrder,
    planes: &[PlaneProbe],
    connector: ConnectorProbe,
    format: u32,
    choices: Vec<OutputChoice>,
    k: int,
)
    requires
        call_ensures(choices_for_connector, (order, planes, &connector, format), Ok(choices)),
        0 <= k < choices@.len(),
    ensures
        choices@[k].modifiers@.len() > 0,
        connector.current_crtc == Some(choices@[k].crtc) || exists|e: int|
            0 <= e < connector.encoder_crtcs@.len() && (
            #[trigger] connector.encoder_crtcs@[e])@.contains(choices@[k].crtc),
        exists|p: int|
            #![trigger planes@[p]]
            0 <= p < planes@.len() && planes@[p].handle == choices@[k].plane && planes@[p].role
                == Some(PlaneRole::Primary) && planes@[p].possible_crtcs@.contains(choices@[k].crtc)
                && planes@[p].formats@.contains(format),
{
    let crtcs = crtcs_to_try(connector);
    let list = choice_list(choices@);
    assert(list[k] == choices@[k]@);
    lemma_connector_choices_fit(order, planes@, crtcs, format, crtcs.len() as int, k);
    let n = connector.encoder_crtcs@.len() as int;
    let listed = listed_crtcs(connector.encoder_crtcs@, n);
    lemma_listed_crtcs(connector.encoder_crtcs@, n, choices@[k].crtc);
    match connector.current_crtc {
        Some(current) => {
            let whole = seq![current] + listed;
            lemma_first_occurrences(whole);
            let at = whole.index_of(choices@[k].crtc);
            if at > 0 {
                assert(listed[at - 1] == choices@[k].crtc);
            }
        },
        None => {
            lemma_first_occurrences(listed);
        },
    }
}

/// A plane without a table shows linear memory only; one whose table cannot be read is
/// reported with the reason.
pub proof fn planes_without_a_table_are_linear(
    order: ByteOrder,
    format: u32,
    errno: Option<i32>,
    absent: Result<Vec<u64>, DrmError>,
    unreadable: Result<Vec<u64>, DrmError>,
)
    requires
        call_ensures(plane_modifiers, (order, &FormatTable::Absent, format), absent),
        call_ensures(
            plane_modifiers,
            (order, &FormatTable::Unreadable(errno), format),
            unreadable,
        ),
    ensures
        absent is Ok && absent->Ok_0@ == seq![0u64],
        unreadable == Err::<Vec<u64>, DrmError>(DrmError::Io(errno)),
{
}

} // verus!
