//! Atomic display requests: a set of property values for display objects.

use vstd::prelude::*;
use drm::control::atomic::AtomicModeReq;

verus! {

/// The display library's atomic request. Its fields are private to that
/// library; what it holds is described by [`request_entries`].
#[verifier::external_type_specification]
#[verifier::external_body]
pub struct ExAtomicModeReq(AtomicModeReq);

/// The value that a request sets for each property of each object, keyed by
/// object and property.
pub uninterp spec fn request_entries(request: AtomicModeReq) -> Map<(u32, u32), u64>;

/// No property values at all.
pub open spec fn no_settings() -> Map<(u32, u32), u64> {
    Map::empty()
}

/// `AtomicModeReq::new`: a request that sets nothing.
#[verifier::external_body]
fn empty_request() -> (request: AtomicModeReq)
    ensures
        request_entries(request) == no_settings(),
{
    AtomicModeReq::new()
}

/// `AtomicModeReq::add_raw_property`: sets one property of one object, replacing
/// the value that the request set for it before, and leaves every other entry
/// alone. Objects and properties are never numbered zero.
#[verifier::external_body]
fn set_entry(request: &mut AtomicModeReq, object: u32, property: u32, value: u64)
    requires
        object != 0,
        property != 0,
    ensures
        request_entries(*final(request)) == request_entries(*old(request)).insert(
            (object, property),
            value,
        ),
{
    request.add_raw_property(
        std::num::NonZeroU32::new(object).unwrap(),
        std::num::NonZeroU32::new(property).unwrap().into(),
        value,
    );
}

/// One property setting: the object, its property, and the value.
pub type Entry = ((u32, u32), u64);

/// A set of property values after the given settings, the later ones winning.
pub open spec fn with_entries(
    base: Map<(u32, u32), u64>,
    entries: Seq<Entry>,
) -> Map<(u32, u32), u64>
    decreases entries.len(),
{
    if entries.len() == 0 {
        base
    } else {
        with_entries(base, entries.drop_last()).insert(entries.last().0, entries.last().1)
    }
}

/// The property values that the given settings amount to.
pub open spec fn settings(entries: Seq<Entry>) -> Map<(u32, u32), u64> {
    with_entries(no_settings(), entries)
}

/// A new request, which sets nothing.
pub fn new_request() -> (request: AtomicModeReq)
    ensures
        request_entries(request) == settings(Seq::empty()),
{
    empty_request()
}

/// Add one setting to a request that already holds `done`.
pub(crate) fn put(
    request: &mut AtomicModeReq,
    object: u32,
    property: u32,
    value: u64,
    Ghost(done): Ghost<Seq<Entry>>,
)
    requires
        object != 0,
        property != 0,
        request_entries(*old(request)) == settings(done),
    ensures
        request_entries(*final(request)) == settings(done.push(((object, property), value))),
{
    set_entry(request, object, property, value);
    proof {
        let next = done.push(((object, property), value));
        assert(next.drop_last() =~= done);
    }
}

/// Add one setting to a request that held `base` and has been given `done`.
pub(crate) fn put_over(
    request: &mut AtomicModeReq,
    object: u32,
    property: u32,
    value: u64,
    Ghost(base): Ghost<Map<(u32, u32), u64>>,
    Ghost(done): Ghost<Seq<Entry>>,
)
    requires
        object != 0,
        property != 0,
        request_entries(*old(request)) == with_entries(base, done),
    ensures
        request_entries(*final(request)) == with_entries(
            base,
            done.push(((object, property), value)),
        ),
{
    set_entry(request, object, property, value);
    proof {
        let next = done.push(((object, property), value));
        assert(next.drop_last() =~= done);
    }
}

/// The kernel's representation of a signed property value: two's complement.
pub open spec fn signed_value(value: i64) -> u64 {
    if value >= 0 {
        value as u64
    } else {
        (value + 0x1_0000_0000_0000_0000) as u64
    }
}

/// The kernel's representation of a signed property value.
pub fn signed(value: i64) -> (raw: u64)
    ensures
        raw == signed_value(value),
{
    if value >= 0 {
        value as u64
    } else if value == i64::MIN {
        0x8000_0000_0000_0000
    } else {
        u64::MAX - ((-value) as u64) + 1
    }
}

/// The kernel's representation of a plane source coordinate: 16.16 fixed point.
pub fn fixed_point(value: u32) -> (raw: u64)
    ensures
        raw == value * 0x1_0000,
{
    value as u64 * 0x1_0000
}

/// What a set of property values says of one property of one object.
pub open spec fn says(values: Map<(u32, u32), u64>, key: (u32, u32)) -> Option<u64> {
    if values.dom().contains(key) {
        Some(values[key])
    } else {
        None
    }
}

/// Settings of other objects leave an object alone.
pub proof fn other_objects_are_left_alone(
    base: Map<(u32, u32), u64>,
    entries: Seq<Entry>,
    object: u32,
    property: u32,
)
    requires
        forall|i: int| 0 <= i < entries.len() ==> (#[trigger] entries[i]).0.0 != object,
    ensures
        says(with_entries(base, entries), (object, property)) == says(base, (object, property)),
    decreases entries.len(),
{
    if entries.len() > 0 {
        let rest = entries.drop_last();
        assert forall|i: int| 0 <= i < rest.len() implies (#[trigger] rest[i]).0.0 != object by {
            assert(rest[i] == entries[i]);
        }
        other_objects_are_left_alone(base, rest, object, property);
        assert(entries[entries.len() - 1].0.0 != object);
    }
}

/// The last setting of a property is the one that counts.
pub proof fn last_setting_counts(base: Map<(u32, u32), u64>, entries: Seq<Entry>, at: int)
    requires
        0 <= at < entries.len(),
        forall|i: int| at < i < entries.len() ==> (#[trigger] entries[i]).0 != entries[at].0,
    ensures
        says(with_entries(base, entries), entries[at].0) == Some(entries[at].1),
    decreases entries.len(),
{
    if at < entries.len() - 1 {
        let rest = entries.drop_last();
        assert forall|i: int| at < i < rest.len() implies (#[trigger] rest[i]).0
            != rest[at].0 by {
            assert(rest[i] == entries[i]);
        }
        last_setting_counts(base, rest, at);
        assert(entries[entries.len() - 1].0 != entries[at].0);
    }
}

/// Settings can be given in one go or one part after the other.
pub proof fn settings_add_up(
    base: Map<(u32, u32), u64>,
    earlier: Seq<Entry>,
    later: Seq<Entry>,
)
    ensures
        with_entries(base, earlier + later) == with_entries(with_entries(base, earlier), later),
    decreases later.len(),
{
    if later.len() == 0 {
        assert(earlier + later =~= earlier);
    } else {
        assert((earlier + later).drop_last() =~= earlier + later.drop_last());
        settings_add_up(base, earlier, later.drop_last());
    }
}

/// A signed number is written in two's complement, and a whole one in sixteenths of a bit
/// pattern with sixteen bits behind the point.
pub proof fn numbers_are_written_for_the_kernel(value: i64, raw: u64, whole: u32, fixed: u64)
    requires
        call_ensures(signed, (value,), raw),
        call_ensures(fixed_point, (whole,), fixed),
    ensures
        raw == value || raw == value + 0x1_0000_0000_0000_0000,
        fixed == whole * 65_536,
{
}

/// A fresh update says nothing, and a setting that is put in is said, whatever was said of
/// other properties before.
pub(crate) proof fn settings_are_said(
    request: &mut AtomicModeReq,
    object: u32,
    property: u32,
    value: u64,
    done: Seq<Entry>,
    fresh: AtomicModeReq,
    other: (u32, u32),
)
    requires
        request_entries(*request) == settings(done),
        call_ensures(put, (request, object, property, value, Ghost(done)), ()),
        call_ensures(new_request, (), fresh),
    ensures
        says(request_entries(fresh), other) is None,
        says(request_entries(*final(request)), (object, property)) == Some(value),
        other != (object, property) ==> says(request_entries(*final(request)), other) == says(
            request_entries(*old(request)),
            other,
        ),
{
    let all = done.push(((object, property), value));
    assert(all.drop_last() =~= done);
}

} // verus!
