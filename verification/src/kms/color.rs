//! The color pipeline that all outputs share.

use vstd::prelude::*;
use crate::kms::formats::{
    stored, u32_at, ByteOrder, ABGR2101010, ARGB8888, XBGR2101010, XRGB8888,
};

verus! {

/// The session-wide color pipeline. One framebuffer serves every output, so the
/// pixel encoding is the same everywhere.
#[derive(Debug, Clone, Copy, PartialEq, Eq, Structural)]
pub enum DisplayColorMode {
    /// 8-bit sRGB.
    Sdr,
    /// 10-bit sRGB, which bands less.
    SdrDeepColor,
    /// 10-bit BT.2020 with the PQ transfer function.
    Hdr,
}

/// What an output's identification data says of its colors.
#[derive(Debug, Clone, Copy, PartialEq, Eq, Structural)]
pub struct EdidColorCapabilities {
    /// Whether the display decodes the PQ transfer function.
    pub hdr_pq: bool,
}

/// The color settings configured for one connector.
#[derive(Debug, Clone, Copy, PartialEq, Eq, Structural)]
pub struct ColorPolicy {
    pub hdr: bool,
    pub deep_color: bool,
    /// The luminance of standard white while high dynamic range is encoded, as
    /// the bits of a single-precision number.
    pub sdr_white_bits: Option<u32>,
}

impl DisplayColorMode {
    /// The framebuffer formats to try, best first.
    pub open spec fn formats(self) -> Seq<u32> {
        match self {
            DisplayColorMode::Sdr => seq![XRGB8888, ARGB8888],
            DisplayColorMode::SdrDeepColor | DisplayColorMode::Hdr => seq![
                XBGR2101010,
                ABGR2101010,
                XRGB8888,
                ARGB8888,
            ],
        }
    }

    /// The framebuffer formats to try, best first.
    pub fn fb_candidates(self) -> (formats: Vec<u32>)
        ensures
            formats@ == self.formats(),
    {
        let mut formats: Vec<u32> = Vec::new();
        match self {
            DisplayColorMode::Sdr => {},
            DisplayColorMode::SdrDeepColor | DisplayColorMode::Hdr => {
                formats.push(XBGR2101010);
                formats.push(ABGR2101010);
            },
        }
        formats.push(XRGB8888);
        formats.push(ARGB8888);
        assert(formats@ =~= self.formats());
        formats
    }

    /// The bits per channel to ask of the link.
    pub open spec fn link_depth(self) -> u64 {
        match self {
            DisplayColorMode::Sdr => 8,
            DisplayColorMode::SdrDeepColor | DisplayColorMode::Hdr => 10,
        }
    }

    /// The bits per channel to ask of the link.
    pub fn max_bpc(self) -> (bits: u64)
        ensures
            bits == self.link_depth(),
    {
        match self {
            DisplayColorMode::Sdr => 8,
            DisplayColorMode::SdrDeepColor | DisplayColorMode::Hdr => 10,
        }
    }
}

/// The pipeline that the configuration and the displays allow: high dynamic
/// range only where every output opts in and decodes it, deep color only where
/// every output opts in.
pub open spec fn allowed_mode(
    policies: Seq<Option<ColorPolicy>>,
    capabilities: Seq<EdidColorCapabilities>,
) -> DisplayColorMode {
    if forall|i: int|
        #![trigger policies[i]]
        0 <= i < policies.len() ==> policies[i] is Some && policies[i]->0.hdr
            && capabilities[i].hdr_pq {
        DisplayColorMode::Hdr
    } else if forall|i: int|
        #![trigger policies[i]]
        0 <= i < policies.len() ==> policies[i] is Some && policies[i]->0.deep_color {
        DisplayColorMode::SdrDeepColor
    } else {
        DisplayColorMode::Sdr
    }
}

/// Decide the pipeline for outputs with the given settings and capabilities.
pub fn requested_mode(
    policies: &[Option<ColorPolicy>],
    capabilities: &[EdidColorCapabilities],
) -> (mode: DisplayColorMode)
    requires
        policies.len() == capabilities.len(),
    ensures
        mode == allowed_mode(policies@, capabilities@),
{
    let mut all_hdr = true;
    let mut all_deep = true;
    let mut index: usize = 0;
    while index < policies.len()
        invariant
            index <= policies.len(),
            policies.len() == capabilities.len(),
            all_hdr <==> forall|i: int|
                #![trigger policies@[i]]
                0 <= i < index ==> policies@[i] is Some && policies@[i]->0.hdr
                    && capabilities@[i].hdr_pq,
            all_deep <==> forall|i: int|
                #![trigger policies@[i]]
                0 <= i < index ==> policies@[i] is Some && policies@[i]->0.deep_color,
        decreases policies.len() - index,
    {
        match policies[index] {
            Some(policy) => {
                all_hdr = all_hdr && policy.hdr && capabilities[index].hdr_pq;
                all_deep = all_deep && policy.deep_color;
            },
            None => {
                all_hdr = false;
                all_deep = false;
            },
        }
        index += 1;
    }
    if all_hdr {
        DisplayColorMode::Hdr
    } else if all_deep {
        DisplayColorMode::SdrDeepColor
    } else {
        DisplayColorMode::Sdr
    }
}

/// The pipeline that the framebuffer format at `index` of the candidates can
/// carry: an 8-bit format behind the 10-bit ones means plain sRGB.
pub open spec fn mode_for_format(requested: DisplayColorMode, index: int) -> DisplayColorMode {
    if index > 0 && (requested.formats()[index] == XRGB8888 || requested.formats()[index]
        == ARGB8888) {
        DisplayColorMode::Sdr
    } else {
        requested
    }
}

/// Ten-bit pixels carry the requested pipeline, eight-bit ones only sRGB.
pub proof fn eight_bit_formats_mean_sdr(requested: DisplayColorMode, index: int)
    requires
        0 <= index < requested.formats().len(),
    ensures
        (requested.formats()[index] == XRGB8888 || requested.formats()[index] == ARGB8888)
            <==> mode_for_format(requested, index) == DisplayColorMode::Sdr,
{
}

/// The 16-bit integer stored at `at`.
pub open spec fn u16_at(order: ByteOrder, bytes: Seq<u8>, at: int) -> int {
    match order {
        ByteOrder::Little => bytes[at] + 0x100 * bytes[at + 1],
        ByteOrder::Big => bytes[at + 1] + 0x100 * bytes[at],
    }
}

/// Append a 16-bit integer.
fn put_u16(order: ByteOrder, bytes: &mut Vec<u8>, value: u16)
    ensures
        final(bytes).len() == old(bytes).len() + 2,
        final(bytes)@.take(old(bytes).len() as int) == old(bytes)@,
        u16_at(order, final(bytes)@, old(bytes).len() as int) == value,
{
    let ghost before = bytes@;
    let low: u8 = (value % 0x100) as u8;
    let high: u8 = (value / 0x100) as u8;
    match order {
        ByteOrder::Little => {
            bytes.push(low);
            bytes.push(high);
        },
        ByteOrder::Big => {
            bytes.push(high);
            bytes.push(low);
        },
    }
    assert(bytes@.take(before.len() as int) =~= before);
}

/// The numbers in the static description of the PQ framebuffer, after its
/// transfer function: the BT.2020 primaries and the D65 white point in units of
/// 0.00002, the mastering luminance range, and the light levels of the content.
pub open spec fn hdr_metadata_values() -> Seq<u16> {
    seq![
        35400u16,
        14600,
        8500,
        39850,
        6550,
        2300,
        15635,
        16450,
        1000,
        50,
        1000,
        400,
    ]
}

/// The static description of the PQ framebuffer that is handed to displays, in
/// the given byte order.
///
/// It names the static metadata type, the PQ transfer function, the BT.2020
/// primaries with the D65 white point, a mastering range from 0.005 to 1000
/// candelas per square metre, and light levels of 1000 and 400.
pub fn hdr_output_metadata_bytes(order: ByteOrder) -> (bytes: Vec<u8>)
    ensures
        bytes.len() == 32,
        u32_at(order, bytes@, 0) == 1,
        bytes@[4] == 2,
        bytes@[5] == 0,
        forall|i: int|
            0 <= i < 12 ==> u16_at(order, bytes@, 6 + 2 * i) == #[trigger] hdr_metadata_values()[i],
        bytes@[30] == 0,
        bytes@[31] == 0,
{
    let mut bytes: Vec<u8> = Vec::new();
    match order {
        ByteOrder::Little => {
            bytes.push(1);
            bytes.push(0);
            bytes.push(0);
            bytes.push(0);
        },
        ByteOrder::Big => {
            bytes.push(0);
            bytes.push(0);
            bytes.push(0);
            bytes.push(1);
        },
    }
    bytes.push(2);
    bytes.push(0);
    let values: [u16; 12] = [
        35400,
        14600,
        8500,
        39850,
        6550,
        2300,
        15635,
        16450,
        1000,
        50,
        1000,
        400,
    ];
    assert(values@ =~= hdr_metadata_values());
    let ghost head = bytes@;
    let mut index: usize = 0;
    while index < 12
        invariant
            index <= 12,
            values@ == hdr_metadata_values(),
            head.len() == 6,
            bytes.len() == 6 + 2 * index,
            bytes@.take(6) == head,
            forall|i: int|
                0 <= i < index ==> u16_at(order, bytes@, 6 + 2 * i)
                    == #[trigger] hdr_metadata_values()[i],
        decreases 12 - index,
    {
        let ghost before = bytes@;
        put_u16(order, &mut bytes, values[index]);
        proof {
            assert(bytes@.take(6) =~= bytes@.take(before.len() as int).take(6));
            assert forall|i: int| 0 <= i < index + 1 implies u16_at(order, bytes@, 6 + 2 * i)
                == #[trigger] hdr_metadata_values()[i] by {
                if i < index {
                    assert(bytes@[6 + 2 * i] == bytes@.take(before.len() as int)[6 + 2 * i]);
                    assert(bytes@[7 + 2 * i] == bytes@.take(before.len() as int)[7 + 2 * i]);
                }
            }
        }
        index += 1;
    }
    let ghost filled = bytes@;
    bytes.push(0);
    bytes.push(0);
    proof {
        assert(forall|i: int| 0 <= i < 6 ==> filled.take(6)[i] == #[trigger] filled[i]);
        assert(forall|i: int| 0 <= i < 30 ==> bytes@[i] == #[trigger] filled[i]);
        assert forall|i: int| 0 <= i < 12 implies u16_at(order, bytes@, 6 + 2 * i)
            == #[trigger] hdr_metadata_values()[i] by {
            assert(bytes@[6 + 2 * i] == filled[6 + 2 * i]);
            assert(bytes@[7 + 2 * i] == filled[7 + 2 * i]);
        }
        assert(bytes@[0] == head[0] && bytes@[1] == head[1] && bytes@[2] == head[2] && bytes@[3]
            == head[3] && bytes@[4] == head[4] && bytes@[5] == head[5]);
    }
    bytes
}

/// High dynamic range is used only where every output opts in and decodes it; deep color
/// where every output opts in and high dynamic range is not used.
pub proof fn pipelines_need_every_output(
    policies: &[Option<ColorPolicy>],
    capabilities: &[EdidColorCapabilities],
    mode: DisplayColorMode,
    index: int,
)
    requires
        policies@.len() == capabilities@.len(),
        call_ensures(requested_mode, (policies, capabilities), mode),
        0 <= index < policies@.len(),
    ensures
        mode == DisplayColorMode::Hdr ==> policies@[index] is Some && policies@[index]->0.hdr
            && capabilities@[index].hdr_pq,
        mode == DisplayColorMode::SdrDeepColor ==> policies@[index] is Some
            && policies@[index]->0.deep_color,
        (forall|i: int|
            #![trigger policies@[i]]
            0 <= i < policies@.len() ==> policies@[i] is Some && policies@[i]->0.hdr
                && capabilities@[i].hdr_pq) ==> mode == DisplayColorMode::Hdr,
        (forall|i: int|
            #![trigger policies@[i]]
            0 <= i < policies@.len() ==> policies@[i] is Some && policies@[i]->0.deep_color)
                ==> mode
            != DisplayColorMode::Sdr,
{
    let p = policies@[index];
}

/// Pipelines with ten bits try the ten-bit formats first; every pipeline can fall back to
/// the eight-bit ones, the one without alpha first.
pub proof fn deep_pipelines_try_deep_formats_first(
    mode: DisplayColorMode,
    formats: Vec<u32>,
    bits: u64,
)
    requires
        call_ensures(DisplayColorMode::fb_candidates, (mode,), formats),
        call_ensures(DisplayColorMode::max_bpc, (mode,), bits),
    ensures
        formats@.len() >= 2,
        formats@[formats@.len() - 2] == XRGB8888,
        formats@[formats@.len() - 1] == ARGB8888,
        mode == DisplayColorMode::Sdr <==> formats@.len() == 2,
        mode != DisplayColorMode::Sdr ==> formats@.len() == 4 && formats@[0] == XBGR2101010
            && formats@[1] == ABGR2101010,
        bits == 10 <==> mode != DisplayColorMode::Sdr,
        bits == 8 <==> mode == DisplayColorMode::Sdr,
{
}

/// Displays are told static metadata of the PQ curve with the primaries and the white point
/// of BT.2020, in steps of a fifty-thousandth, a mastering range from a two-hundredth to a
/// thousand candelas per square metre, and light levels of a thousand and of four hundred.
pub proof fn metadata_describe_the_standard(order: ByteOrder, bytes: Vec<u8>)
    requires
        call_ensures(hdr_output_metadata_bytes, (order,), bytes),
    ensures
        bytes@.len() == 32,
        stored(order, bytes@, 0, 4) == 1,
        bytes@[4] == 2 && bytes@[5] == 0,
        20 * stored(order, bytes@, 6, 2) == 708_000 && 20 * stored(order, bytes@, 8, 2) == 292_000,
        20 * stored(order, bytes@, 10, 2) == 170_000 && 20 * stored(order, bytes@, 12, 2)
            == 797_000,
        20 * stored(order, bytes@, 14, 2) == 131_000 && 20 * stored(order, bytes@, 16, 2)
            == 46_000,
        20 * stored(order, bytes@, 18, 2) == 312_700 && 20 * stored(order, bytes@, 20, 2)
            == 329_000,
        stored(order, bytes@, 22, 2) == 1000 && stored(order, bytes@, 24, 2) == 50,
        stored(order, bytes@, 26, 2) == 1000 && stored(order, bytes@, 28, 2) == 400,
{
    reveal_with_fuel(stored, 5);
    let values = hdr_metadata_values();
    assert(u16_at(order, bytes@, 6) == values[0]);
    assert(u16_at(order, bytes@, 8) == values[1]);
    assert(u16_at(order, bytes@, 10) == values[2]);
    assert(u16_at(order, bytes@, 12) == values[3]);
    assert(u16_at(order, bytes@, 14) == values[4]);
    assert(u16_at(order, bytes@, 16) == values[5]);
    assert(u16_at(order, bytes@, 18) == values[6]);
    assert(u16_at(order, bytes@, 20) == values[7]);
    assert(u16_at(order, bytes@, 22) == values[8]);
    assert(u16_at(order, bytes@, 24) == values[9]);
    assert(u16_at(order, bytes@, 26) == values[10]);
    assert(u16_at(order, bytes@, 28) == values[11]);
}

} // verus!
