//! Display modes and the choice among them.

use vstd::prelude::*;

verus! {

/// A display mode: its size in pixels and its refresh rate in millihertz.
#[derive(Debug, Clone, Copy, PartialEq, Eq, Structural)]
pub struct OutputMode {
    pub width: i32,
    pub height: i32,
    pub refresh_mhz: u32,
}

/// A configured display mode: an exact size and, where given, a refresh rate in
/// whole hertz.
#[derive(Debug, Clone, Copy, PartialEq, Eq, Structural)]
pub struct ModeSpec {
    pub width: i32,
    pub height: i32,
    pub refresh_hz: Option<u32>,
}

/// A refresh rate in whole hertz, rounded to the nearest.
pub open spec fn whole_hertz(refresh_mhz: u32) -> int {
    (refresh_mhz + 500) / 1000
}

impl ModeSpec {
    /// Whether a mode has the configured size and, where one is configured, the
    /// configured rate.
    pub open spec fn admits(self, mode: OutputMode) -> bool {
        &&& mode.width == self.width
        &&& mode.height == self.height
        &&& match self.refresh_hz {
            Some(hz) => whole_hertz(mode.refresh_mhz) == hz,
            None => true,
        }
    }

    /// Whether a mode meets this configuration.
    pub fn matches(&self, mode: &OutputMode) -> (met: bool)
        ensures
            met == self.admits(*mode),
    {
        if mode.width != self.width || mode.height != self.height {
            return false;
        }
        match self.refresh_hz {
            Some(hz) => (mode.refresh_mhz as u64 + 500) / 1000 == hz as u64,
            None => true,
        }
    }
}

/// The refresh rate in millihertz of a mode that states whole hertz. Rates that
/// do not fit are capped.
pub open spec fn refresh_mhz_of(vrefresh: u32) -> u32 {
    if vrefresh * 1000 <= u32::MAX {
        (vrefresh * 1000) as u32
    } else {
        u32::MAX
    }
}

impl OutputMode {
    /// The mode that a connector advertises.
    pub fn advertised(width: u16, height: u16, vrefresh: u32) -> (mode: OutputMode)
        ensures
            mode == (OutputMode {
                width: width as i32,
                height: height as i32,
                refresh_mhz: refresh_mhz_of(vrefresh),
            }),
    {
        let refresh_mhz: u32 = match vrefresh.checked_mul(1000) {
            Some(rate) => rate,
            None => u32::MAX,
        };
        OutputMode { width: width as i32, height: height as i32, refresh_mhz }
    }
}

/// A connector's mode as the mode choice sees it: width, height, refresh rate
/// in millihertz, and whether the display prefers it.
pub open spec fn entry_mode(entry: (i32, i32, u32, bool)) -> OutputMode {
    OutputMode { width: entry.0, height: entry.1, refresh_mhz: entry.2 }
}

/// Whether the mode at `index` may be chosen.
pub open spec fn eligible(
    modes: Seq<(i32, i32, u32, bool)>,
    spec: Option<&ModeSpec>,
    index: int,
) -> bool {
    0 <= index < modes.len() && match spec {
        Some(spec) => spec.admits(entry_mode(modes[index])),
        None => true,
    }
}

/// Whether the mode at `left` wins over the one at `right`. Without a
/// configured mode more pixels win; then the higher refresh rate, then the
/// display's preference, then the earlier place in the list.
pub open spec fn wins(
    modes: Seq<(i32, i32, u32, bool)>,
    spec: Option<&ModeSpec>,
    left: int,
    right: int,
) -> bool {
    let a = modes[left];
    let b = modes[right];
    let a_pixels = if spec is None {
        a.0 * a.1
    } else {
        0
    };
    let b_pixels = if spec is None {
        b.0 * b.1
    } else {
        0
    };
    a_pixels > b_pixels || (a_pixels == b_pixels && (a.2 > b.2 || (a.2 == b.2 && ((a.3 && !b.3) || (
    a.3 == b.3 && left < right)))))
}

/// The number of pixels of a mode.
fn pixels(width: i32, height: i32) -> (count: i64)
    ensures
        count == width * height,
{
    assert(-0x4000_0000_0000_0000 <= width * height <= 0x4000_0000_0000_0000) by (nonlinear_arith)
        requires
            -0x8000_0000 <= width <= 0x7fff_ffff,
            -0x8000_0000 <= height <= 0x7fff_ffff,
    ;
    width as i64 * height as i64
}

/// Whether the mode at `left` wins over the one at `right`.
fn wins_over(
    modes: &[(i32, i32, u32, bool)],
    spec: Option<&ModeSpec>,
    left: usize,
    right: usize,
) -> (won: bool)
    requires
        left < modes.len(),
        right < modes.len(),
    ensures
        won == wins(modes@, spec, left as int, right as int),
{
    let a = modes[left];
    let b = modes[right];
    let (a_pixels, b_pixels): (i64, i64) = match spec {
        None => (pixels(a.0, a.1), pixels(b.0, b.1)),
        Some(_) => (0, 0),
    };
    if a_pixels != b_pixels {
        return a_pixels > b_pixels;
    }
    if a.2 != b.2 {
        return a.2 > b.2;
    }
    if a.3 != b.3 {
        return a.3;
    }
    left < right
}

/// Choose the mode to drive a connector with, out of its modes in connector
/// order. `None` means that no mode meets the configuration (or that there is
/// no mode); the caller then chooses without one.
pub fn pick_mode(modes: &[(i32, i32, u32, bool)], spec: Option<&ModeSpec>) -> (index: Option<usize>)
    ensures
        match index {
            Some(best) => eligible(modes@, spec, best as int) && forall|other: int|
                #[trigger] eligible(modes@, spec, other) && other != best ==> wins(
                    modes@,
                    spec,
                    best as int,
                    other,
                ),
            None => forall|other: int| !eligible(modes@, spec, other),
        },
        spec is None ==> (index is Some <==> modes@.len() > 0),
        spec is None && index is Some ==> forall|i: int|
            #![trigger modes@[i]]
            0 <= i < modes@.len() ==> modes@[i].0 * modes@[i].1 <= modes@[index->0 as int].0
                * modes@[index->0 as int].1,
{
    let mut best: Option<usize> = None;
    let mut index: usize = 0;
    while index < modes.len()
        invariant
            index <= modes.len(),
            match best {
                Some(b) => b < index && eligible(modes@, spec, b as int)
                    && forall|other: int| #[trigger]
                    eligible(modes@, spec, other) && other < index && other != b
                        ==> wins(modes@, spec, b as int, other),
                None => forall|other: int|
                    other < index ==> !eligible(modes@, spec, other),
            },
        decreases modes.len() - index,
    {
        let entry = modes[index];
        let mode = OutputMode { width: entry.0, height: entry.1, refresh_mhz: entry.2 };
        let usable = match spec {
            Some(wanted) => wanted.matches(&mode),
            None => true,
        };
        assert(usable == eligible(modes@, spec, index as int));
        if usable {
            best = match best {
                None => Some(index),
                Some(b) => if wins_over(modes, spec, index, b) {
                    Some(index)
                } else {
                    Some(b)
                },
            };
        }
        index += 1;
    }
    proof {
        if spec is None && modes@.len() > 0 {
            assert(eligible(modes@, spec, 0));
        }
        assert forall|i: int|
            #![trigger modes@[i]]
            spec is None && best is Some && 0 <= i < modes@.len() implies modes@[i].0 * modes@[i].1
            <= modes@[best->0 as int].0 * modes@[best->0 as int].1 by {
            assert(eligible(modes@, spec, i));
        }
    }
    best
}

/// Whether `left` is listed before `right`: more pixels first, then the higher
/// refresh rate.
pub open spec fn listed_before(left: OutputMode, right: OutputMode) -> bool {
    left.width * left.height > right.width * right.height || (left.width * left.height
        == right.width * right.height && left.refresh_mhz > right.refresh_mhz)
}

/// Whether `left` occurs in `modes` before any occurrence of `right`.
pub open spec fn occurs_before(modes: Seq<OutputMode>, left: OutputMode, right: OutputMode) -> bool {
    exists|at: int|
        0 <= at < modes.len() && #[trigger] modes[at] == left && forall|earlier: int|
            0 <= earlier <= at ==> modes[earlier] != right
}

/// Whether `list` holds each of `modes` once, in listing order; modes that rank
/// the same keep the order in which they first occur.
pub open spec fn is_mode_list(modes: Seq<OutputMode>, list: Seq<OutputMode>) -> bool {
    &&& forall|m: OutputMode|
        #![trigger list.contains(m)]
        #![trigger modes.contains(m)]
        list.contains(m) <==> modes.contains(m)
    &&& forall|i: int, j: int|
        #![trigger list[i], list[j]]
        0 <= i < j < list.len() ==> list[i] != list[j] && !listed_before(list[j], list[i]) && (
        listed_before(list[i], list[j]) || occurs_before(modes, list[i], list[j]))
}

/// Whether `left` is listed before `right`.
fn ranks_before(left: &OutputMode, right: &OutputMode) -> (before: bool)
    ensures
        before == listed_before(*left, *right),
{
    let left_pixels: i64 = pixels(left.width, left.height);
    let right_pixels: i64 = pixels(right.width, right.height);
    if left_pixels != right_pixels {
        return left_pixels > right_pixels;
    }
    left.refresh_mhz > right.refresh_mhz
}

/// A connector's modes for presentation: each once, most pixels first, then the
/// highest refresh rate.
pub fn advertised_modes(modes: &[OutputMode]) -> (list: Vec<OutputMode>)
    ensures
        is_mode_list(modes@, list@),
{
    let mut list: Vec<OutputMode> = Vec::new();
    let mut index: usize = 0;
    while index < modes.len()
        invariant
            index <= modes.len(),
            is_mode_list(modes@.take(index as int), list@),
        decreases modes.len() - index,
    {
        let mode: OutputMode = modes[index];
        let ghost before = list@;
        let mut at: usize = 0;
        let mut known = false;
        while at < list.len() && !known
            invariant
                at <= list.len(),
                known ==> list@.contains(mode),
                !known ==> forall|i: int| 0 <= i < at ==> list@[i] != mode,
            decreases list.len() - at + if known {
                0int
            } else {
                1int
            },
        {
            if list[at] == mode {
                known = true;
            } else {
                at += 1;
            }
        }
        let mut place: usize = 0;
        if !known {
            while place < list.len() && !ranks_before(&mode, &list[place])
                invariant
                    place <= list.len(),
                    forall|i: int|
                        0 <= i < place ==> !listed_before(mode, #[trigger] list@[i]),
                decreases list.len() - place,
            {
                place += 1;
            }
            list.insert(place, mode);
        }
        proof {
            lemma_mode_inserted(modes@, index as int, before, list@, place as int, known);
        }
        index += 1;
    }
    assert(modes@.take(modes.len() as int) =~= modes@);
    list
}

/// Inserting a new mode behind the ones that rank no lower keeps the list in
/// order.
proof fn lemma_mode_inserted(
    modes: Seq<OutputMode>,
    index: int,
    before: Seq<OutputMode>,
    after: Seq<OutputMode>,
    place: int,
    known: bool,
)
    requires
        0 <= index < modes.len(),
        is_mode_list(modes.take(index), before),
        0 <= place <= before.len(),
        known <==> before.contains(modes[index]),
        known ==> after == before,
        !known ==> after == before.insert(place, modes[index]),
        !known ==> forall|i: int| 0 <= i < place ==> !listed_before(modes[index], before[i]),
        !known && place < before.len() ==> listed_before(modes[index], before[place]),
    ensures
        is_mode_list(modes.take(index + 1), after),
{
    let mode = modes[index];
    let seen = modes.take(index);
    let now = modes.take(index + 1);
    assert(now =~= seen.push(mode));
    crate::seqs::lemma_push_contains(seen, mode);
    if !known {
        crate::seqs::lemma_insert_contains(before, place, mode);
    }
    assert forall|left: OutputMode, right: OutputMode|
        occurs_before(seen, left, right) implies occurs_before(now, left, right) by {
        let at = choose|at: int|
            0 <= at < seen.len() && #[trigger] seen[at] == left && forall|earlier: int|
                0 <= earlier <= at ==> seen[earlier] != right;
        assert(now[at] == left);
    }
    assert forall|i: int, j: int|
        #![trigger after[i], after[j]]
        0 <= i < j < after.len() implies after[i] != after[j] && !listed_before(after[j], after[i])
        && (listed_before(after[i], after[j]) || occurs_before(now, after[i], after[j])) by {
        if !known {
            let bi = if i < place {
                i
            } else {
                i - 1
            };
            let bj = if j < place {
                j
            } else {
                j - 1
            };
            if i == place {
                assert(after[j] == before[bj]);
                assert(before.contains(before[bj]));
                let first = before[place];
                if bj > place {
                    assert(!listed_before(before[bj], before[place]));
                }
                assert(listed_before(mode, before[bj]));
            } else if j == place {
                assert(after[i] == before[i]);
                assert(before.contains(before[i]));
                assert(seen.contains(before[i]));
                let at = choose|at: int| 0 <= at < seen.len() && seen[at] == before[i];
                assert(now[at] == before[i]);
                assert forall|earlier: int| 0 <= earlier <= at implies now[earlier] != mode by {
                    if now[earlier] == mode {
                        assert(seen[earlier] == mode);
                        assert(seen.contains(mode));
                        assert(before.contains(mode));
                    }
                }
                assert(occurs_before(now, before[i], mode));
            } else {
                assert(after[i] == before[bi] && after[j] == before[bj]);
            }
        } else {
            let a = before[i];
            let b = before[j];
        }
    }
}

/// Without a configured mode, the chosen mode has the most pixels of all, among
/// those the highest refresh rate, and among those the display's preference; what
/// is left is decided by the place in the list.
pub proof fn best_mode_has_the_most_pixels(
    modes: Seq<(i32, i32, u32, bool)>,
    best: int,
    other: int,
)
    requires
        0 <= best < modes.len() && 0 <= other < modes.len(),
        forall|i: int| #[trigger]
            eligible(modes, None, i) && i != best ==> wins(modes, None, best, i),
    ensures
        modes[other].0 * modes[other].1 <= modes[best].0 * modes[best].1,
        modes[other].0 * modes[other].1 == modes[best].0 * modes[best].1 ==> modes[other].2
            <= modes[best].2,
        modes[other].0 * modes[other].1 == modes[best].0 * modes[best].1 && modes[other].2
            == modes[best].2 && modes[other].3 ==> modes[best].3,
        modes[other] == modes[best] ==> best <= other,
{
    assert(eligible(modes, None, other));
}

/// With a configured mode, the chosen mode has the configured size and, where one
/// is configured, the configured rate to the nearest hertz. No other such mode has
/// a higher refresh rate.
pub proof fn configured_mode_is_met(
    modes: Seq<(i32, i32, u32, bool)>,
    spec: ModeSpec,
    best: int,
    other: int,
)
    requires
        eligible(modes, Some(&spec), best),
        forall|i: int| #[trigger]
            eligible(modes, Some(&spec), i) && i != best ==> wins(modes, Some(&spec), best, i),
        0 <= other < modes.len(),
    ensures
        0 <= best < modes.len(),
        modes[best].0 == spec.width && modes[best].1 == spec.height,
        spec.refresh_hz matches Some(hz) ==> 1000 * hz - 500 <= modes[best].2 < 1000 * hz + 500,
        modes[other].0 == spec.width && modes[other].1 == spec.height && (spec.refresh_hz matches
            Some(hz) ==> 1000 * hz - 500 <= modes[other].2 < 1000 * hz + 500) ==> {
            &&& modes[other].2 <= modes[best].2
            &&& modes[other].2 == modes[best].2 && modes[other].3 ==> modes[best].3
            &&& modes[other] == modes[best] ==> best <= other
        },
{
    if modes[other].0 == spec.width && modes[other].1 == spec.height && (spec.refresh_hz matches
        Some(hz) ==> 1000 * hz - 500 <= modes[other].2 < 1000 * hz + 500) {
        assert(eligible(modes, Some(&spec), other));
    }
}

/// No mode is chosen only where none has the configured size and rate.
pub proof fn no_choice_means_no_match(modes: Seq<(i32, i32, u32, bool)>, spec: ModeSpec, other: int)
    requires
        forall|i: int| !eligible(modes, Some(&spec), i),
        0 <= other < modes.len(),
    ensures
        modes[other].0 != spec.width || modes[other].1 != spec.height || (spec.refresh_hz matches
            Some(hz) && !(1000 * hz - 500 <= modes[other].2 < 1000 * hz + 500)),
{
    assert(!eligible(modes, Some(&spec), other));
}

/// Without a configured mode a mode is picked wherever there is one, and no listed mode
/// has more pixels, nor as many and a higher refresh rate.
pub proof fn picked_modes_are_the_largest(
    modes: &[(i32, i32, u32, bool)],
    index: Option<usize>,
    other: int,
)
    requires
        call_ensures(pick_mode, (modes, None), index),
        0 <= other < modes@.len(),
    ensures
        index is Some,
        index->0 < modes@.len(),
        modes@[other].0 * modes@[other].1 <= modes@[index->0 as int].0 * modes@[index->0 as int].1,
        modes@[other].0 * modes@[other].1 == modes@[index->0 as int].0 * modes@[index->0 as int].1
            ==> modes@[other].2 <= modes@[index->0 as int].2,
{
    assert(eligible(modes@, None, other));
    best_mode_has_the_most_pixels(modes@, index->0 as int, other);
}

/// A mode meets a configured one if and only if it has its size and, where a rate is
/// configured, that rate to the nearest hertz.
pub proof fn configured_modes_are_met_to_the_hertz(spec: ModeSpec, mode: OutputMode, met: bool)
    requires
        call_ensures(ModeSpec::matches, (&spec, &mode), met),
    ensures
        met <==> spec.width == mode.width && spec.height == mode.height && (spec.refresh_hz matches
            Some(hz) ==> 1000 * hz - 500 <= mode.refresh_mhz && mode.refresh_mhz < 1000 * hz
            + 500),
{
}

/// A mode is advertised with its size and with its rate in thousandths.
pub proof fn advertised_rates_are_in_thousandths(
    width: u16,
    height: u16,
    vrefresh: u32,
    mode: OutputMode,
)
    requires
        call_ensures(OutputMode::advertised, (width, height, vrefresh), mode),
    ensures
        mode.width == width && mode.height == height,
        1000 * vrefresh <= u32::MAX ==> mode.refresh_mhz == 1000 * vrefresh,
        1000 * vrefresh > u32::MAX ==> mode.refresh_mhz == u32::MAX,
{
}

/// The advertised modes are those of the connector, each once, the larger ones first
/// and of those with as many pixels the faster ones.
pub proof fn advertised_modes_are_listed_largest_first(
    modes: &[OutputMode],
    list: Vec<OutputMode>,
    i: int,
    j: int,
)
    requires
        call_ensures(advertised_modes, (modes,), list),
        0 <= i < j < list@.len(),
    ensures
        forall|m: OutputMode|
            #![trigger list@.contains(m)]
            list@.contains(m) <==> modes@.contains(m),
        list@[i] != list@[j],
        list@[i].width * list@[i].height >= list@[j].width * list@[j].height,
        list@[i].width * list@[i].height == list@[j].width * list@[j].height
            ==> list@[i].refresh_mhz >= list@[j].refresh_mhz,
{
}

} // verus!
