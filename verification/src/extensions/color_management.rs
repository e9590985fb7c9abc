//! How clients describe the colors of their content.
//!
//! Quantities are in the units of the protocol: chromaticities in millionths,
//! exponents and the darkest luminance in ten-thousandths, other luminances in
//! whole candelas per square metre.

use vstd::prelude::*;
use crate::kms::info::ColorPipeline;
use crate::seqs::{remove_value, without};

verus! {

/// A transfer function that has a name.
#[derive(Debug, Clone, Copy, PartialEq, Eq, Structural)]
pub enum NamedTransfer {
    Linear,
    Gamma22,
    Srgb,
    Pq,
    Hlg,
}

/// A set of primaries that has a name.
#[derive(Debug, Clone, Copy, PartialEq, Eq, Structural)]
pub enum NamedPrimaries {
    Srgb,
    Bt2020,
    DisplayP3,
    AdobeRgb,
}

/// Primaries and white point by their chromaticities.
#[derive(Debug, Clone, Copy, PartialEq, Eq, Structural)]
pub struct CustomPrimaries {
    pub rx: i32,
    pub ry: i32,
    pub gx: i32,
    pub gy: i32,
    pub bx: i32,
    pub by: i32,
    pub wx: i32,
    pub wy: i32,
}

/// The primaries of content.
#[derive(Debug, Clone, Copy, PartialEq, Eq, Structural)]
pub enum ContentPrimaries {
    Named(NamedPrimaries),
    Custom(CustomPrimaries),
}

/// The transfer function of content.
#[derive(Debug, Clone, Copy, PartialEq, Eq, Structural)]
pub enum ContentTransfer {
    Named(NamedTransfer),
    /// A pure power function with the given exponent.
    Gamma(u32),
}

/// The luminances of content.
#[derive(Debug, Clone, Copy, PartialEq, Eq, Structural)]
pub struct Luminances {
    pub min: u32,
    pub max: u32,
    pub reference: u32,
}

/// Colors by their parameters.
#[derive(Debug, Clone, Copy, PartialEq, Eq, Structural)]
pub struct ParametricColor {
    pub primaries: ContentPrimaries,
    pub transfer: ContentTransfer,
    pub luminances: Option<Luminances>,
    pub max_cll: Option<u32>,
    pub max_fall: Option<u32>,
}

/// Colors by their parameters or by a color profile.
#[derive(Debug)]
pub enum ContentColor {
    Parametric(ParametricColor),
    Icc(Vec<u8>),
}

/// Colors, with a profile as its bytes.
pub enum ContentColorView {
    Parametric(ParametricColor),
    Icc(Seq<u8>),
}

impl View for ContentColor {
    type V = ContentColorView;

    open spec fn view(&self) -> ContentColorView {
        match *self {
            ContentColor::Parametric(color) => ContentColorView::Parametric(color),
            ContentColor::Icc(bytes) => ContentColorView::Icc(bytes@),
        }
    }
}

pub const INTENT_PERCEPTUAL: u32 = 0;

pub const INTENT_RELATIVE: u32 = 1;

pub const FEATURE_ICC_V2_V4: u32 = 0;

pub const FEATURE_PARAMETRIC: u32 = 1;

pub const FEATURE_SET_PRIMARIES: u32 = 2;

pub const FEATURE_SET_TF_POWER: u32 = 3;

pub const FEATURE_SET_LUMINANCES: u32 = 4;

pub const TF_GAMMA22: u32 = 2;

pub const TF_EXT_LINEAR: u32 = 5;

/// The sRGB curve, as version one spells it.
pub const TF_SRGB: u32 = 9;

pub const TF_ST2084_PQ: u32 = 11;

pub const TF_HLG: u32 = 13;

/// The sRGB curve, as later versions spell it.
pub const TF_COMPOUND_POWER_2_4: u32 = 14;

pub const PRIMARIES_SRGB: u32 = 1;

pub const PRIMARIES_BT2020: u32 = 6;

pub const PRIMARIES_DISPLAY_P3: u32 = 9;

pub const PRIMARIES_ADOBE_RGB: u32 = 10;

/// The smallest color profile: a header and the number of its tags.
pub const ICC_MIN_BYTES: u32 = 132;

/// The largest color profile that is taken.
pub const ICC_MAX_BYTES: u32 = 16_777_216;

/// The transfer function that a protocol number stands for. Both spellings of
/// the sRGB curve are understood.
pub open spec fn transfer_named(tf: u32) -> Option<NamedTransfer> {
    if tf == TF_EXT_LINEAR {
        Some(NamedTransfer::Linear)
    } else if tf == TF_GAMMA22 {
        Some(NamedTransfer::Gamma22)
    } else if tf == TF_SRGB || tf == TF_COMPOUND_POWER_2_4 {
        Some(NamedTransfer::Srgb)
    } else if tf == TF_ST2084_PQ {
        Some(NamedTransfer::Pq)
    } else if tf == TF_HLG {
        Some(NamedTransfer::Hlg)
    } else {
        None
    }
}

/// The transfer function that a protocol number stands for.
pub fn named_transfer(tf: u32) -> (transfer: Option<ContentTransfer>)
    ensures
        transfer == match transfer_named(tf) {
            Some(named) => Some(ContentTransfer::Named(named)),
            None => None,
        },
{
    if tf == TF_EXT_LINEAR {
        Some(ContentTransfer::Named(NamedTransfer::Linear))
    } else if tf == TF_GAMMA22 {
        Some(ContentTransfer::Named(NamedTransfer::Gamma22))
    } else if tf == TF_SRGB || tf == TF_COMPOUND_POWER_2_4 {
        Some(ContentTransfer::Named(NamedTransfer::Srgb))
    } else if tf == TF_ST2084_PQ {
        Some(ContentTransfer::Named(NamedTransfer::Pq))
    } else if tf == TF_HLG {
        Some(ContentTransfer::Named(NamedTransfer::Hlg))
    } else {
        None
    }
}

/// The primaries that a protocol number stands for.
pub open spec fn primaries_named(p: u32) -> Option<NamedPrimaries> {
    if p == PRIMARIES_SRGB {
        Some(NamedPrimaries::Srgb)
    } else if p == PRIMARIES_BT2020 {
        Some(NamedPrimaries::Bt2020)
    } else if p == PRIMARIES_DISPLAY_P3 {
        Some(NamedPrimaries::DisplayP3)
    } else if p == PRIMARIES_ADOBE_RGB {
        Some(NamedPrimaries::AdobeRgb)
    } else {
        None
    }
}

/// The primaries that a protocol number stands for.
pub fn named_primaries(p: u32) -> (primaries: Option<NamedPrimaries>)
    ensures
        primaries == primaries_named(p),
{
    if p == PRIMARIES_SRGB {
        Some(NamedPrimaries::Srgb)
    } else if p == PRIMARIES_BT2020 {
        Some(NamedPrimaries::Bt2020)
    } else if p == PRIMARIES_DISPLAY_P3 {
        Some(NamedPrimaries::DisplayP3)
    } else if p == PRIMARIES_ADOBE_RGB {
        Some(NamedPrimaries::AdobeRgb)
    } else {
        None
    }
}

/// The protocol number of a transfer function, for a client of the given
/// version.
pub open spec fn transfer_number(tf: NamedTransfer, version: u32) -> u32 {
    match tf {
        NamedTransfer::Linear => TF_EXT_LINEAR,
        NamedTransfer::Gamma22 => TF_GAMMA22,
        NamedTransfer::Srgb => if version >= 2 {
            TF_COMPOUND_POWER_2_4
        } else {
            TF_SRGB
        },
        NamedTransfer::Pq => TF_ST2084_PQ,
        NamedTransfer::Hlg => TF_HLG,
    }
}

/// The protocol number of a transfer function. A client is never told a number
/// that its version does not know.
pub fn transfer_wire_id(tf: NamedTransfer, version: u32) -> (id: u32)
    ensures
        id == transfer_number(tf, version),
{
    match tf {
        NamedTransfer::Linear => TF_EXT_LINEAR,
        NamedTransfer::Gamma22 => TF_GAMMA22,
        NamedTransfer::Srgb => if version >= 2 {
            TF_COMPOUND_POWER_2_4
        } else {
            TF_SRGB
        },
        NamedTransfer::Pq => TF_ST2084_PQ,
        NamedTransfer::Hlg => TF_HLG,
    }
}

/// The protocol number of named primaries.
pub open spec fn primaries_number(p: NamedPrimaries) -> u32 {
    match p {
        NamedPrimaries::Srgb => PRIMARIES_SRGB,
        NamedPrimaries::Bt2020 => PRIMARIES_BT2020,
        NamedPrimaries::DisplayP3 => PRIMARIES_DISPLAY_P3,
        NamedPrimaries::AdobeRgb => PRIMARIES_ADOBE_RGB,
    }
}

/// The protocol number of named primaries.
pub fn primaries_wire_id(p: NamedPrimaries) -> (id: u32)
    ensures
        id == primaries_number(p),
{
    match p {
        NamedPrimaries::Srgb => PRIMARIES_SRGB,
        NamedPrimaries::Bt2020 => PRIMARIES_BT2020,
        NamedPrimaries::DisplayP3 => PRIMARIES_DISPLAY_P3,
        NamedPrimaries::AdobeRgb => PRIMARIES_ADOBE_RGB,
    }
}

/// The number that a client of any version is told of a transfer function means
/// that transfer function when the client says it.
pub proof fn transfer_numbers_come_back(tf: NamedTransfer, version: u32)
    ensures
        transfer_named(transfer_number(tf, version)) == Some(tf),
{
}

/// The number that a client is told of primaries means those primaries when the
/// client says it, and no other number does.
pub proof fn primaries_numbers_come_back(p: NamedPrimaries, number: u32)
    ensures
        primaries_named(primaries_number(p)) == Some(p),
        primaries_named(number) == Some(p) ==> number == primaries_number(p),
{
}

/// What a client is told the compositor supports.
#[derive(Debug)]
pub struct ColorCapabilities {
    pub intents: Vec<u32>,
    pub features: Vec<u32>,
    pub transfers: Vec<u32>,
    pub primaries: Vec<u32>,
}

/// What a client of the given version is told the compositor supports.
pub fn capabilities(version: u32) -> (supported: ColorCapabilities)
    ensures
        supported.intents@ == seq![INTENT_PERCEPTUAL, INTENT_RELATIVE],
        supported.features@ == seq![
            FEATURE_ICC_V2_V4,
            FEATURE_PARAMETRIC,
            FEATURE_SET_PRIMARIES,
            FEATURE_SET_TF_POWER,
            FEATURE_SET_LUMINANCES,
        ],
        supported.transfers@ == seq![
            TF_EXT_LINEAR,
            TF_GAMMA22,
            transfer_number(NamedTransfer::Srgb, version),
            TF_ST2084_PQ,
            TF_HLG,
        ],
        supported.primaries@ == seq![
            PRIMARIES_SRGB,
            PRIMARIES_BT2020,
            PRIMARIES_DISPLAY_P3,
            PRIMARIES_ADOBE_RGB,
        ],
{
    let mut intents: Vec<u32> = Vec::new();
    intents.push(INTENT_PERCEPTUAL);
    intents.push(INTENT_RELATIVE);
    assert(intents@ =~= seq![INTENT_PERCEPTUAL, INTENT_RELATIVE]);
    let mut features: Vec<u32> = Vec::new();
    features.push(FEATURE_ICC_V2_V4);
    features.push(FEATURE_PARAMETRIC);
    features.push(FEATURE_SET_PRIMARIES);
    features.push(FEATURE_SET_TF_POWER);
    features.push(FEATURE_SET_LUMINANCES);
    let mut transfers: Vec<u32> = Vec::new();
    transfers.push(TF_EXT_LINEAR);
    transfers.push(TF_GAMMA22);
    transfers.push(transfer_wire_id(NamedTransfer::Srgb, version));
    transfers.push(TF_ST2084_PQ);
    transfers.push(TF_HLG);
    let mut primaries: Vec<u32> = Vec::new();
    primaries.push(PRIMARIES_SRGB);
    primaries.push(PRIMARIES_BT2020);
    primaries.push(PRIMARIES_DISPLAY_P3);
    primaries.push(PRIMARIES_ADOBE_RGB);
    ColorCapabilities { intents, features, transfers, primaries }
}

/// The colors that the outputs show, given the luminances of the two kinds of
/// pipeline: sRGB, or BT.2020 with the PQ transfer function.
pub open spec fn output_color(
    pipeline: ColorPipeline,
    sdr: Luminances,
    hdr: Luminances,
) -> ParametricColor {
    match pipeline {
        ColorPipeline::Sdr | ColorPipeline::SdrDeepColor => ParametricColor {
            primaries: ContentPrimaries::Named(NamedPrimaries::Srgb),
            transfer: ContentTransfer::Named(NamedTransfer::Srgb),
            luminances: Some(sdr),
            max_cll: None,
            max_fall: None,
        },
        ColorPipeline::Hdr => ParametricColor {
            primaries: ContentPrimaries::Named(NamedPrimaries::Bt2020),
            transfer: ContentTransfer::Named(NamedTransfer::Pq),
            luminances: Some(hdr),
            max_cll: None,
            max_fall: None,
        },
    }
}

/// The colors that the outputs show. They are the same on every output.
pub fn pipeline_description(pipeline: ColorPipeline, sdr: Luminances, hdr: Luminances) -> (color:
    ParametricColor)
    ensures
        color == output_color(pipeline, sdr, hdr),
{
    match pipeline {
        ColorPipeline::Sdr | ColorPipeline::SdrDeepColor => ParametricColor {
            primaries: ContentPrimaries::Named(NamedPrimaries::Srgb),
            transfer: ContentTransfer::Named(NamedTransfer::Srgb),
            luminances: Some(sdr),
            max_cll: None,
            max_fall: None,
        },
        ColorPipeline::Hdr => ParametricColor {
            primaries: ContentPrimaries::Named(NamedPrimaries::Bt2020),
            transfer: ContentTransfer::Named(NamedTransfer::Pq),
            luminances: Some(hdr),
            max_cll: None,
            max_fall: None,
        },
    }
}

/// The number of the next description. Zero is never used.
pub fn fresh_identity(counter: &mut u32) -> (identity: u32)
    ensures
        identity == if *old(counter) == 0 {
            1
        } else {
            *old(counter)
        },
        *final(counter) == if *old(counter) == u32::MAX {
            0
        } else {
            (*old(counter) + 1) as u32
        },
{
    let identity: u32 = if *counter == 0 {
        1
    } else {
        *counter
    };
    *counter = counter.wrapping_add(1);
    identity
}

/// A description of colors that a client can refer to.
#[derive(Debug)]
pub struct ImageDescription {
    pub value: ContentColor,
    /// Whether the description turned out to be unusable.
    pub failed: bool,
}

/// Why a surface does not take a description.
#[derive(Debug, Clone, Copy, PartialEq, Eq, Structural)]
pub enum ColorSurfaceError {
    RenderIntent,
    ImageDescription,
    /// The surface is gone.
    Inert,
}

/// Why a description cannot be made.
#[derive(Debug, Clone, Copy, PartialEq, Eq, Structural)]
pub enum CreatorError {
    IncompleteSet,
    AlreadySet,
    UnsupportedFeature,
    InvalidTf,
    InvalidPrimariesNamed,
    InvalidLuminance,
    BadFd,
    BadSize,
    OutOfFile,
}

fn copy_bytes(bytes: &Vec<u8>) -> (copy: Vec<u8>)
    ensures
        copy@ == bytes@,
{
    let mut copy: Vec<u8> = Vec::new();
    let mut index: usize = 0;
    while index < bytes.len()
        invariant
            index <= bytes.len(),
            copy@ == bytes@.take(index as int),
        decreases bytes.len() - index,
    {
        copy.push(bytes[index]);
        index += 1;
    }
    assert(bytes@.take(bytes.len() as int) =~= bytes@);
    copy
}

impl ContentColor {
    /// A copy of the colors.
    pub fn copy(&self) -> (copy: ContentColor)
        ensures
            copy@ == self@,
    {
        match self {
            ContentColor::Parametric(color) => ContentColor::Parametric(*color),
            ContentColor::Icc(bytes) => ContentColor::Icc(copy_bytes(bytes)),
        }
    }
}

/// Decide what a surface's colors become with its next commit.
pub fn set_image_description(
    surface_exists: bool,
    description: Option<&ImageDescription>,
    render_intent: u32,
) -> (result: Result<ContentColor, ColorSurfaceError>)
    ensures
        !surface_exists ==> result == Err::<ContentColor, ColorSurfaceError>(
            ColorSurfaceError::Inert,
        ),
        surface_exists && render_intent != INTENT_PERCEPTUAL && render_intent != INTENT_RELATIVE
            ==> result == Err::<ContentColor, ColorSurfaceError>(ColorSurfaceError::RenderIntent),
        surface_exists && (render_intent == INTENT_PERCEPTUAL || render_intent == INTENT_RELATIVE)
            ==> match description {
            Some(description) if !description.failed => {
                &&& result matches Ok(value)
                &&& value@ == description.value@
            },
            _ => result == Err::<ContentColor, ColorSurfaceError>(
                ColorSurfaceError::ImageDescription,
            ),
        },
{
    if !surface_exists {
        return Err(ColorSurfaceError::Inert);
    }
    if render_intent != INTENT_PERCEPTUAL && render_intent != INTENT_RELATIVE {
        return Err(ColorSurfaceError::RenderIntent);
    }
    match description {
        Some(description) => if description.failed {
            Err(ColorSurfaceError::ImageDescription)
        } else {
            Ok(description.value.copy())
        },
        None => Err(ColorSurfaceError::ImageDescription),
    }
}

/// A description made of a color profile, as far as it has been made.
#[derive(Debug)]
pub struct IccCreator {
    pub bytes: Option<Vec<u8>>,
}

/// Whether bytes hold the given text at an offset.
pub open spec fn holds_at(bytes: Seq<u8>, offset: int, text: Seq<u8>) -> bool {
    offset + text.len() <= bytes.len() && bytes.subrange(offset, offset + text.len()) == text
}

/// Whether bytes begin like a color profile for RGB displays or scanners.
pub open spec fn profile_header(bytes: Seq<u8>) -> bool {
    &&& bytes.len() >= ICC_MIN_BYTES
    &&& holds_at(bytes, 36, seq![0x61u8, 0x63u8, 0x73u8, 0x70u8])
    &&& (holds_at(bytes, 12, seq![0x6du8, 0x6eu8, 0x74u8, 0x72u8]) || holds_at(
        bytes,
        12,
        seq![0x73u8, 0x63u8, 0x6eu8, 0x72u8],
    ))
    &&& holds_at(bytes, 16, seq![0x52u8, 0x47u8, 0x42u8, 0x20u8])
}

fn four_at(bytes: &Vec<u8>, offset: usize, a: u8, b: u8, c: u8, d: u8) -> (same: bool)
    requires
        offset + 4 <= bytes.len(),
    ensures
        same == holds_at(bytes@, offset as int, seq![a, b, c, d]),
{
    let same = bytes[offset] == a && bytes[offset + 1] == b && bytes[offset + 2] == c
        && bytes[offset
        + 3] == d;
    proof {
        let part = bytes@.subrange(offset as int, offset + 4);
        let text = seq![a, b, c, d];
        assert(part[0] == bytes@[offset as int] && part[1] == bytes@[offset + 1] && part[2]
            == bytes@[offset + 2] && part[3] == bytes@[offset + 3]);
        if same {
            assert(part =~= text);
        } else {
            assert(text[0] == a && text[1] == b && text[2] == c && text[3] == d);
        }
    }
    same
}

/// Whether bytes begin like a color profile for RGB displays or scanners.
pub fn is_profile(bytes: &Vec<u8>) -> (valid: bool)
    ensures
        valid == profile_header(bytes@),
{
    if bytes.len() < 132 {
        return false;
    }
    four_at(bytes, 36, 0x61, 0x63, 0x73, 0x70) && (four_at(bytes, 12, 0x6d, 0x6e, 0x74, 0x72)
        || four_at(bytes, 12, 0x73, 0x63, 0x6e, 0x72)) && four_at(
        bytes,
        16,
        0x52,
        0x47,
        0x42,
        0x20,
    )
}

impl IccCreator {
    /// Nothing has been given.
    pub fn new() -> (creator: IccCreator)
        ensures
            creator.bytes is None,
    {
        IccCreator { bytes: None }
    }

    /// Check a file that is to hold the profile. `file_size` is its size, if it
    /// can be found out.
    pub fn check_file(&self, offset: u32, length: u32, file_size: Option<i64>) -> (result: Result<
        (),
        CreatorError,
    >)
        ensures
            result == if self.bytes is Some {
                Err::<(), CreatorError>(CreatorError::AlreadySet)
            } else if !(ICC_MIN_BYTES <= length <= ICC_MAX_BYTES) {
                Err::<(), CreatorError>(CreatorError::BadSize)
            } else {
                match file_size {
                    None => Err::<(), CreatorError>(CreatorError::BadFd),
                    Some(size) => if offset + length > size {
                        Err::<(), CreatorError>(CreatorError::OutOfFile)
                    } else {
                        Ok::<(), CreatorError>(())
                    },
                }
            },
    {
        if self.bytes.is_some() {
            return Err(CreatorError::AlreadySet);
        }
        if length < ICC_MIN_BYTES || length > ICC_MAX_BYTES {
            return Err(CreatorError::BadSize);
        }
        match file_size {
            None => Err(CreatorError::BadFd),
            Some(size) => if offset as i64 + length as i64 > size {
                Err(CreatorError::OutOfFile)
            } else {
                Ok(())
            },
        }
    }

    /// The profile has been read, or could not be.
    pub fn set_icc_file(&mut self, read: Option<Vec<u8>>) -> (result: Result<(), CreatorError>)
        ensures
            read is None ==> result == Err::<(), CreatorError>(CreatorError::BadFd)
                && *final(self) == *old(self),
            read is Some ==> result == Ok::<(), CreatorError>(()) && final(self).bytes == read,
    {
        match read {
            None => Err(CreatorError::BadFd),
            Some(bytes) => {
                self.bytes = Some(bytes);
                Ok(())
            },
        }
    }

    /// Make the description. One whose profile is unusable fails.
    pub fn create(&mut self) -> (result: Result<ImageDescription, CreatorError>)
        ensures
            final(self).bytes is None,
            match old(self).bytes {
                None => result == Err::<ImageDescription, CreatorError>(
                    CreatorError::IncompleteSet,
                ),
                Some(bytes) => {
                    &&& result matches Ok(description)
                    &&& description.value@ == ContentColorView::Icc(bytes@)
                    &&& description.failed == !profile_header(bytes@)
                },
            },
    {
        let mut taken: Option<Vec<u8>> = None;
        std::mem::swap(&mut taken, &mut self.bytes);
        match taken {
            None => Err(CreatorError::IncompleteSet),
            Some(bytes) => {
                let valid = is_profile(&bytes);
                Ok(ImageDescription { value: ContentColor::Icc(bytes), failed: !valid })
            },
        }
    }
}

/// A description made of parameters, as far as it has been made.
#[derive(Debug, Clone, Copy, PartialEq, Eq, Structural)]
pub struct ParamsCreator {
    pub primaries: Option<ContentPrimaries>,
    pub transfer: Option<ContentTransfer>,
    pub luminances: Option<Luminances>,
    pub max_cll: Option<u32>,
    pub max_fall: Option<u32>,
}

/// Whether a chromaticity is one that a color can have.
pub open spec fn plausible(x: i32, y: i32) -> bool {
    0 <= x < 1_000_000 && 0 <= y < 1_000_000 && x + y <= 1_000_000
}

fn is_plausible(x: i32, y: i32) -> (answer: bool)
    ensures
        answer == plausible(x, y),
{
    0 <= x && x < 1_000_000 && 0 <= y && y < 1_000_000 && x + y <= 1_000_000
}

impl CustomPrimaries {
    /// Whether every primary is a color.
    pub open spec fn all_plausible(self) -> bool {
        plausible(self.rx, self.ry) && plausible(self.gx, self.gy) && plausible(self.bx, self.by)
            && plausible(self.wx, self.wy)
    }
}

impl Luminances {
    /// Whether the luminances can be those of content.
    pub open spec fn sensible(self) -> bool {
        self.max > 0 && self.reference > 0 && self.min <= self.max * 10_000
    }
}

impl ParamsCreator {
    /// Nothing has been given.
    pub fn new() -> (creator: ParamsCreator)
        ensures
            creator == (ParamsCreator {
                primaries: None,
                transfer: None,
                luminances: None,
                max_cll: None,
                max_fall: None,
            }),
    {
        ParamsCreator {
            primaries: None,
            transfer: None,
            luminances: None,
            max_cll: None,
            max_fall: None,
        }
    }

    /// The brightest pixel. It can always be given, and given again.
    pub fn set_max_cll(&mut self, max_cll: u32)
        ensures
            *final(self) == (ParamsCreator { max_cll: Some(max_cll), ..*old(self) }),
    {
        self.max_cll = Some(max_cll);
    }

    /// The brightest frame average. It can always be given, and given again.
    pub fn set_max_fall(&mut self, max_fall: u32)
        ensures
            *final(self) == (ParamsCreator { max_fall: Some(max_fall), ..*old(self) }),
    {
        self.max_fall = Some(max_fall);
    }

    /// The luminances.
    pub fn set_luminances(&mut self, min: u32, max: u32, reference: u32) -> (result: Result<
        (),
        CreatorError,
    >)
        ensures
            ({
                let given = Luminances { min, max, reference };
                &&& result == if old(self).luminances is Some {
                    Err::<(), CreatorError>(CreatorError::AlreadySet)
                } else if !given.sensible() {
                    Err::<(), CreatorError>(CreatorError::InvalidLuminance)
                } else {
                    Ok::<(), CreatorError>(())
                }
                &&& *final(self) == if result is Ok {
                    ParamsCreator { luminances: Some(given), ..*old(self) }
                } else {
                    *old(self)
                }
            }),
    {
        if self.luminances.is_some() {
            return Err(CreatorError::AlreadySet);
        }
        if !(max > 0 && reference > 0 && min as u64 <= max as u64 * 10_000) {
            return Err(CreatorError::InvalidLuminance);
        }
        self.luminances = Some(Luminances { min, max, reference });
        Ok(())
    }

    /// Metadata of the display that the content was made on is not supported.
    pub fn set_mastering(&self) -> (result: Result<(), CreatorError>)
        ensures
            result == Err::<(), CreatorError>(CreatorError::UnsupportedFeature),
    {
        Err(CreatorError::UnsupportedFeature)
    }

    /// The transfer function, by its number.
    pub fn set_tf_named(&mut self, tf: u32) -> (result: Result<(), CreatorError>)
        ensures
            result == if old(self).transfer is Some {
                Err::<(), CreatorError>(CreatorError::AlreadySet)
            } else if transfer_named(tf) is None {
                Err::<(), CreatorError>(CreatorError::InvalidTf)
            } else {
                Ok::<(), CreatorError>(())
            },
            *final(self) == if result is Ok {
                ParamsCreator {
                    transfer: Some(ContentTransfer::Named(transfer_named(tf)->0)),
                    ..*old(self)
                }
            } else {
                *old(self)
            },
    {
        if self.transfer.is_some() {
            return Err(CreatorError::AlreadySet);
        }
        match named_transfer(tf) {
            None => Err(CreatorError::InvalidTf),
            Some(transfer) => {
                self.transfer = Some(transfer);
                Ok(())
            },
        }
    }

    /// The transfer function, by its exponent, which lies between one half and
    /// eight.
    pub fn set_tf_power(&mut self, exponent: u32) -> (result: Result<(), CreatorError>)
        ensures
            result == if old(self).transfer is Some {
                Err::<(), CreatorError>(CreatorError::AlreadySet)
            } else if !(5_000 <= exponent <= 80_000) {
                Err::<(), CreatorError>(CreatorError::InvalidTf)
            } else {
                Ok::<(), CreatorError>(())
            },
            *final(self) == if result is Ok {
                ParamsCreator {
                    transfer: Some(ContentTransfer::Gamma(exponent)),
                    ..*old(self)
                }
            } else {
                *old(self)
            },
    {
        if self.transfer.is_some() {
            return Err(CreatorError::AlreadySet);
        }
        if exponent < 5_000 || exponent > 80_000 {
            return Err(CreatorError::InvalidTf);
        }
        self.transfer = Some(ContentTransfer::Gamma(exponent));
        Ok(())
    }

    /// The primaries, by their number.
    pub fn set_primaries_named(&mut self, primaries: u32) -> (result: Result<(), CreatorError>)
        ensures
            result == if old(self).primaries is Some {
                Err::<(), CreatorError>(CreatorError::AlreadySet)
            } else if primaries_named(primaries) is None {
                Err::<(), CreatorError>(CreatorError::InvalidPrimariesNamed)
            } else {
                Ok::<(), CreatorError>(())
            },
            *final(self) == if result is Ok {
                ParamsCreator {
                    primaries: Some(ContentPrimaries::Named(primaries_named(primaries)->0)),
                    ..*old(self)
                }
            } else {
                *old(self)
            },
    {
        if self.primaries.is_some() {
            return Err(CreatorError::AlreadySet);
        }
        match named_primaries(primaries) {
            None => Err(CreatorError::InvalidPrimariesNamed),
            Some(named) => {
                self.primaries = Some(ContentPrimaries::Named(named));
                Ok(())
            },
        }
    }

    /// The primaries, by their chromaticities.
    pub fn set_primaries(&mut self, primaries: CustomPrimaries) -> (result: Result<
        (),
        CreatorError,
    >)
        ensures
            result == if old(self).primaries is Some {
                Err::<(), CreatorError>(CreatorError::AlreadySet)
            } else if !primaries.all_plausible() {
                Err::<(), CreatorError>(CreatorError::InvalidPrimariesNamed)
            } else {
                Ok::<(), CreatorError>(())
            },
            *final(self) == if result is Ok {
                ParamsCreator {
                    primaries: Some(ContentPrimaries::Custom(primaries)),
                    ..*old(self)
                }
            } else {
                *old(self)
            },
    {
        if self.primaries.is_some() {
            return Err(CreatorError::AlreadySet);
        }
        if !(is_plausible(primaries.rx, primaries.ry) && is_plausible(primaries.gx, primaries.gy)
            && is_plausible(primaries.bx, primaries.by) && is_plausible(
            primaries.wx,
            primaries.wy,
        )) {
            return Err(CreatorError::InvalidPrimariesNamed);
        }
        self.primaries = Some(ContentPrimaries::Custom(primaries));
        Ok(())
    }

    /// Make the description. Primaries and a transfer function are required.
    pub fn create(&self) -> (result: Result<ImageDescription, CreatorError>)
        ensures
            match (self.primaries, self.transfer) {
                (Some(primaries), Some(transfer)) => {
                    &&& result matches Ok(description)
                    &&& description.value == ContentColor::Parametric(
                        ParametricColor {
                            primaries,
                            transfer,
                            luminances: self.luminances,
                            max_cll: self.max_cll,
                            max_fall: self.max_fall,
                        },
                    )
                    &&& !description.failed
                },
                _ => result == Err::<ImageDescription, CreatorError>(CreatorError::IncompleteSet),
            },
    {
        match (self.primaries, self.transfer) {
            (Some(primaries), Some(transfer)) => Ok(
                ImageDescription {
                    value: ContentColor::Parametric(
                        ParametricColor {
                            primaries,
                            transfer,
                            luminances: self.luminances,
                            max_cll: self.max_cll,
                            max_fall: self.max_fall,
                        },
                    ),
                    failed: false,
                },
            ),
            _ => Err(CreatorError::IncompleteSet),
        }
    }
}

/// What a client is told about a description.
#[derive(Debug, Clone, Copy, PartialEq, Eq, Structural)]
pub enum InfoEvent {
    PrimariesNamed(u32),
    Primaries(CustomPrimaries),
    TfNamed(u32),
    TfPower(u32),
    Luminances(Luminances),
    TargetLuminance { min: u32, max: u32 },
    TargetPrimaries(CustomPrimaries),
    TargetMaxCll(u32),
    TargetMaxFall(u32),
}

/// The chromaticities of primaries.
pub open spec fn chromaticities(primaries: ContentPrimaries) -> CustomPrimaries {
    match primaries {
        ContentPrimaries::Custom(xy) => xy,
        ContentPrimaries::Named(NamedPrimaries::Srgb) => CustomPrimaries {
            rx: 640_000,
            ry: 330_000,
            gx: 300_000,
            gy: 600_000,
            bx: 150_000,
            by: 60_000,
            wx: 312_700,
            wy: 329_000,
        },
        ContentPrimaries::Named(NamedPrimaries::Bt2020) => CustomPrimaries {
            rx: 708_000,
            ry: 292_000,
            gx: 170_000,
            gy: 797_000,
            bx: 131_000,
            by: 46_000,
            wx: 312_700,
            wy: 329_000,
        },
        ContentPrimaries::Named(NamedPrimaries::DisplayP3) => CustomPrimaries {
            rx: 680_000,
            ry: 320_000,
            gx: 265_000,
            gy: 690_000,
            bx: 150_000,
            by: 60_000,
            wx: 312_700,
            wy: 329_000,
        },
        ContentPrimaries::Named(NamedPrimaries::AdobeRgb) => CustomPrimaries {
            rx: 640_000,
            ry: 330_000,
            gx: 210_000,
            gy: 710_000,
            bx: 150_000,
            by: 60_000,
            wx: 312_700,
            wy: 329_000,
        },
    }
}

/// The named primaries are colors.
pub proof fn named_primaries_are_plausible(named: NamedPrimaries)
    ensures
        chromaticities(ContentPrimaries::Named(named)).all_plausible(),
{
}

/// The chromaticities of primaries.
pub fn primaries_chromaticities(primaries: ContentPrimaries) -> (xy: CustomPrimaries)
    ensures
        xy == chromaticities(primaries),
{
    match primaries {
        ContentPrimaries::Custom(xy) => xy,
        ContentPrimaries::Named(NamedPrimaries::Srgb) => CustomPrimaries {
            rx: 640_000,
            ry: 330_000,
            gx: 300_000,
            gy: 600_000,
            bx: 150_000,
            by: 60_000,
            wx: 312_700,
            wy: 329_000,
        },
        ContentPrimaries::Named(NamedPrimaries::Bt2020) => CustomPrimaries {
            rx: 708_000,
            ry: 292_000,
            gx: 170_000,
            gy: 797_000,
            bx: 131_000,
            by: 46_000,
            wx: 312_700,
            wy: 329_000,
        },
        ContentPrimaries::Named(NamedPrimaries::DisplayP3) => CustomPrimaries {
            rx: 680_000,
            ry: 320_000,
            gx: 265_000,
            gy: 690_000,
            bx: 150_000,
            by: 60_000,
            wx: 312_700,
            wy: 329_000,
        },
        ContentPrimaries::Named(NamedPrimaries::AdobeRgb) => CustomPrimaries {
            rx: 640_000,
            ry: 330_000,
            gx: 210_000,
            gy: 710_000,
            bx: 150_000,
            by: 60_000,
            wx: 312_700,
            wy: 329_000,
        },
    }
}

/// What a client of the given version is told about parametric colors, in order.
pub open spec fn parametric_events(color: ParametricColor, version: u32) -> Seq<InfoEvent> {
    seq![
        match color.primaries {
            ContentPrimaries::Named(named) => InfoEvent::PrimariesNamed(primaries_number(named)),
            ContentPrimaries::Custom(xy) => InfoEvent::Primaries(xy),
        },
        match color.transfer {
            ContentTransfer::Named(named) => InfoEvent::TfNamed(transfer_number(named, version)),
            ContentTransfer::Gamma(exponent) => InfoEvent::TfPower(exponent),
        },
    ] + (match color.luminances {
        Some(luminances) => seq![
            InfoEvent::Luminances(luminances),
            InfoEvent::TargetLuminance { min: luminances.min, max: luminances.max },
        ],
        None => Seq::empty(),
    }) + seq![InfoEvent::TargetPrimaries(chromaticities(color.primaries))] + (
    match color.max_cll {
        Some(max_cll) => seq![InfoEvent::TargetMaxCll(max_cll)],
        None => Seq::empty(),
    }) + (match color.max_fall {
        Some(max_fall) => seq![InfoEvent::TargetMaxFall(max_fall)],
        None => Seq::empty(),
    })
}

/// List what a client is told about parametric colors.
pub fn parametric_info(color: &ParametricColor, version: u32) -> (events: Vec<InfoEvent>)
    ensures
        events@ == parametric_events(*color, version),
{
    let mut events: Vec<InfoEvent> = Vec::new();
    events.push(
        match color.primaries {
            ContentPrimaries::Named(named) => InfoEvent::PrimariesNamed(primaries_wire_id(named)),
            ContentPrimaries::Custom(xy) => InfoEvent::Primaries(xy),
        },
    );
    events.push(
        match color.transfer {
            ContentTransfer::Named(named) => InfoEvent::TfNamed(transfer_wire_id(named, version)),
            ContentTransfer::Gamma(exponent) => InfoEvent::TfPower(exponent),
        },
    );
    if let Some(luminances) = color.luminances {
        events.push(InfoEvent::Luminances(luminances));
        events.push(InfoEvent::TargetLuminance { min: luminances.min, max: luminances.max });
    }
    events.push(InfoEvent::TargetPrimaries(primaries_chromaticities(color.primaries)));
    if let Some(max_cll) = color.max_cll {
        events.push(InfoEvent::TargetMaxCll(max_cll));
    }
    if let Some(max_fall) = color.max_fall {
        events.push(InfoEvent::TargetMaxFall(max_fall));
    }
    assert(events@ =~= parametric_events(*color, version));
    events
}

/// What asking about a description leads to.
#[derive(Debug)]
pub enum Information<'a> {
    /// The description failed.
    NotReady,
    Parameters(Vec<InfoEvent>),
    /// The color profile, to be handed over as a file.
    Profile(&'a Vec<u8>),
}

impl ImageDescription {
    /// A client of the given version asks about the description.
    pub fn information(&self, version: u32) -> (answer: Information<'_>)
        ensures
            if self.failed {
                answer is NotReady
            } else {
                match self.value {
                    ContentColor::Parametric(color) => {
                        &&& answer matches Information::Parameters(events)
                        &&& events@ == parametric_events(color, version)
                    },
                    ContentColor::Icc(bytes) => {
                        &&& answer matches Information::Profile(profile)
                        &&& profile@ == bytes@
                    },
                }
            },
    {
        if self.failed {
            return Information::NotReady;
        }
        match &self.value {
            ContentColor::Parametric(color) => Information::Parameters(
                parametric_info(color, version),
            ),
            ContentColor::Icc(bytes) => Information::Profile(bytes),
        }
    }
}

/// The color objects of one surface.
#[derive(Debug)]
pub struct SurfaceColor {
    pub color_management: Option<u64>,
    pub color_feedback: Option<u64>,
    /// What the surface's colors become with its next commit, if they change:
    /// described, or not described.
    pub pending: Option<Option<ContentColor>>,
}

/// A surface has such an object already.
#[derive(Debug, Clone, Copy, PartialEq, Eq, Structural)]
pub struct SurfaceExists;

impl SurfaceColor {
    /// A surface without color objects.
    pub fn new() -> (surface: SurfaceColor)
        ensures
            surface.color_management is None,
            surface.color_feedback is None,
            surface.pending is None,
    {
        SurfaceColor { color_management: None, color_feedback: None, pending: None }
    }

    /// A client wants to describe the surface's colors.
    pub fn get_surface(&mut self, resource: u64) -> (result: Result<(), SurfaceExists>)
        ensures
            result == if old(self).color_management is Some {
                Err::<(), SurfaceExists>(SurfaceExists)
            } else {
                Ok::<(), SurfaceExists>(())
            },
            *final(self) == if result is Ok {
                SurfaceColor { color_management: Some(resource), ..*old(self) }
            } else {
                *old(self)
            },
    {
        if self.color_management.is_some() {
            return Err(SurfaceExists);
        }
        self.color_management = Some(resource);
        Ok(())
    }

    /// A client wants to know which colors suit the surface.
    pub fn get_feedback(&mut self, resource: u64) -> (result: Result<(), SurfaceExists>)
        ensures
            result == if old(self).color_feedback is Some {
                Err::<(), SurfaceExists>(SurfaceExists)
            } else {
                Ok::<(), SurfaceExists>(())
            },
            *final(self) == if result is Ok {
                SurfaceColor { color_feedback: Some(resource), ..*old(self) }
            } else {
                *old(self)
            },
    {
        if self.color_feedback.is_some() {
            return Err(SurfaceExists);
        }
        self.color_feedback = Some(resource);
        Ok(())
    }

    /// The surface's colors are no longer described. That is also so when the
    /// describing object is destroyed.
    pub fn unset_image_description(&mut self)
        ensures
            *final(self) == (SurfaceColor { pending: Some(None), ..*old(self) }),
    {
        self.pending = Some(None);
    }

    /// A describing object was destroyed.
    pub fn color_management_destroyed(&mut self, resource: u64)
        ensures
            *final(self) == if old(self).color_management == Some(resource) {
                SurfaceColor { color_management: None, ..*old(self) }
            } else {
                *old(self)
            },
    {
        if let Some(current) = self.color_management {
            if current == resource {
                self.color_management = None;
            }
        }
    }

    /// A feedback object was destroyed.
    pub fn color_feedback_destroyed(&mut self, resource: u64)
        ensures
            *final(self) == if old(self).color_feedback == Some(resource) {
                SurfaceColor { color_feedback: None, ..*old(self) }
            } else {
                *old(self)
            },
    {
        if let Some(current) = self.color_feedback {
            if current == resource {
                self.color_feedback = None;
            }
        }
    }
}

/// The objects that are told when the colors of the outputs change.
#[derive(Debug)]
pub struct ColorOutputs {
    pub outputs: Vec<u64>,
}

impl ColorOutputs {
    /// None.
    pub fn new() -> (outputs: ColorOutputs)
        ensures
            outputs.outputs@.len() == 0,
    {
        ColorOutputs { outputs: Vec::new() }
    }

    /// A client wants to know the colors of an output.
    pub fn add_output(&mut self, resource: u64)
        ensures
            final(self).outputs@ == old(self).outputs@.push(resource),
    {
        self.outputs.push(resource);
    }

    /// An object was destroyed.
    pub fn destroy_output(&mut self, resource: u64)
        ensures
            final(self).outputs@ == without(old(self).outputs@, resource),
    {
        remove_value(&mut self.outputs, resource);
    }
}

/// What a client of any version is told first about described colors are their
/// primaries and their transfer function, in numbers that mean just those when a
/// client says them.
pub proof fn described_colors_are_told_back(color: ParametricColor, version: u32)
    ensures
        parametric_events(color, version).len() >= 3,
        color.primaries matches ContentPrimaries::Custom(xy) ==> parametric_events(
            color,
            version,
        )[0] == InfoEvent::Primaries(xy),
        color.primaries matches ContentPrimaries::Named(named) ==> {
            &&& parametric_events(color, version)[0] matches InfoEvent::PrimariesNamed(number)
            &&& primaries_named(number) == Some(named)
        },
        color.transfer matches ContentTransfer::Gamma(exponent) ==> parametric_events(
            color,
            version,
        )[1] == InfoEvent::TfPower(exponent),
        color.transfer matches ContentTransfer::Named(named) ==> {
            &&& parametric_events(color, version)[1] matches InfoEvent::TfNamed(number)
            &&& transfer_named(number) == Some(named)
        },
{
}

/// The numbers that clients say transfer functions by are those of the protocol.
pub proof fn transfer_numbers_are_the_protocols(tf: u32, transfer: Option<ContentTransfer>)
    requires
        call_ensures(named_transfer, (tf,), transfer),
    ensures
        transfer == Some(ContentTransfer::Named(NamedTransfer::Gamma22)) <==> tf == 2,
        transfer == Some(ContentTransfer::Named(NamedTransfer::Linear)) <==> tf == 5,
        transfer == Some(ContentTransfer::Named(NamedTransfer::Srgb)) <==> tf == 9 || tf == 14,
        transfer == Some(ContentTransfer::Named(NamedTransfer::Pq)) <==> tf == 11,
        transfer == Some(ContentTransfer::Named(NamedTransfer::Hlg)) <==> tf == 13,
        !(transfer matches Some(ContentTransfer::Gamma(_))),
{
}

/// The numbers that clients say primaries by are those of the protocol.
pub proof fn primaries_numbers_are_the_protocols(number: u32, primaries: Option<NamedPrimaries>)
    requires
        call_ensures(named_primaries, (number,), primaries),
    ensures
        primaries == Some(NamedPrimaries::Srgb) <==> number == 1,
        primaries == Some(NamedPrimaries::Bt2020) <==> number == 6,
        primaries == Some(NamedPrimaries::DisplayP3) <==> number == 9,
        primaries == Some(NamedPrimaries::AdobeRgb) <==> number == 10,
{
}

/// The number that a client is told of a transfer function means that transfer
/// function when the client says it, and clients of the first version are never told
/// a number that came later.
pub proof fn told_transfers_are_understood(
    tf: NamedTransfer,
    version: u32,
    id: u32,
    back: Option<ContentTransfer>,
)
    requires
        call_ensures(transfer_wire_id, (tf, version), id),
        call_ensures(named_transfer, (id,), back),
    ensures
        back == Some(ContentTransfer::Named(tf)),
        version < 2 ==> id != 14,
        version >= 2 ==> id != 9,
{
}

/// The number that a client is told of primaries means those when it says it.
pub proof fn told_primaries_are_understood(
    primaries: NamedPrimaries,
    id: u32,
    back: Option<NamedPrimaries>,
)
    requires
        call_ensures(primaries_wire_id, (primaries,), id),
        call_ensures(named_primaries, (id,), back),
    ensures
        back == Some(primaries),
{
}

/// What a client says in describing colors is what the description holds, and a
/// description takes primaries and a transfer function.
pub proof fn descriptions_hold_what_was_said(
    creator: ParamsCreator,
    result: Result<ImageDescription, CreatorError>,
)
    requires
        call_ensures(ParamsCreator::create, (&creator,), result),
    ensures
        result is Ok <==> creator.primaries is Some && creator.transfer is Some,
        result is Err ==> result->Err_0 == CreatorError::IncompleteSet,
        result matches Ok(description) ==> {
            &&& !description.failed
            &&& description.value matches ContentColor::Parametric(color)
            &&& Some(color.primaries) == creator.primaries
            &&& Some(color.transfer) == creator.transfer
            &&& color.luminances == creator.luminances
            &&& color.max_cll == creator.max_cll
            &&& color.max_fall == creator.max_fall
        },
{
}

/// Luminances are taken once, as given, where the darkest is not above the brightest
/// and the brightest and the reference are not zero.
pub proof fn luminances_are_taken_as_given(
    creator: &mut ParamsCreator,
    min: u32,
    max: u32,
    reference: u32,
    result: Result<(), CreatorError>,
)
    requires
        call_ensures(ParamsCreator::set_luminances, (creator, min, max, reference), result),
    ensures
        result is Ok <==> old(creator).luminances is None && max > 0 && reference > 0
            && min <= 10_000
            * max,
        result == Err::<(), CreatorError>(CreatorError::AlreadySet)
            <==> old(creator).luminances is Some,
        result is Ok ==> {
            &&& final(creator).luminances is Some
            &&& final(creator).luminances->0.min == min
            &&& final(creator).luminances->0.max == max
            &&& final(creator).luminances->0.reference == reference
            &&& final(creator).primaries == old(creator).primaries
            &&& final(creator).transfer == old(creator).transfer
            &&& final(creator).max_cll == old(creator).max_cll
            &&& final(creator).max_fall == old(creator).max_fall
        },
        result is Err ==> *final(creator) == *old(creator),
{
}

/// A transfer function is taken once: by a number that the protocol knows, or by an
/// exponent between one half and eight, in ten-thousandths.
pub proof fn transfer_functions_are_taken_once(
    named: &mut ParamsCreator,
    tf: u32,
    by_name: Result<(), CreatorError>,
    power: &mut ParamsCreator,
    exponent: u32,
    by_power: Result<(), CreatorError>,
)
    requires
        call_ensures(ParamsCreator::set_tf_named, (named, tf), by_name),
        call_ensures(ParamsCreator::set_tf_power, (power, exponent), by_power),
    ensures
        by_name is Ok <==> old(named).transfer is None && (tf == 2 || tf == 5 || tf == 9 || tf == 11
            || tf == 13 || tf == 14),
        by_name is Err ==> *final(named) == *old(named),
        by_name is Ok ==> final(named).transfer is Some && final(named).primaries
            == old(named).primaries,
        by_power is Ok <==> old(power).transfer is None && 5_000 <= exponent && exponent <= 80_000,
        by_power is Err ==> *final(power) == *old(power),
        by_power is Ok ==> final(power).transfer == Some(ContentTransfer::Gamma(exponent)),
        old(named).transfer is Some ==> by_name
            == Err::<(), CreatorError>(CreatorError::AlreadySet),
        old(power).transfer is Some ==> by_power
            == Err::<(), CreatorError>(CreatorError::AlreadySet),
{
}

/// Primaries are taken once, as given, where each of them and the white point is a
/// color.
pub proof fn primaries_are_taken_as_given(
    creator: &mut ParamsCreator,
    primaries: CustomPrimaries,
    result: Result<(), CreatorError>,
)
    requires
        call_ensures(ParamsCreator::set_primaries, (creator, primaries), result),
    ensures
        result is Ok ==> old(creator).primaries is None && final(creator).primaries == Some(
            ContentPrimaries::Custom(primaries),
        ) && final(creator).transfer == old(creator).transfer,
        result is Ok ==> 0 <= primaries.rx && 0 <= primaries.ry && primaries.rx + primaries.ry
            <= 1_000_000 && 0 <= primaries.gx && 0 <= primaries.gy && primaries.gx + primaries.gy
            <= 1_000_000 && 0 <= primaries.bx && 0 <= primaries.by && primaries.bx + primaries.by
            <= 1_000_000 && 0 <= primaries.wx && 0 <= primaries.wy && primaries.wx + primaries.wy
            <= 1_000_000,
        old(creator).primaries is None && 0 <= primaries.rx && 0 <= primaries.ry && primaries.rx
            + primaries.ry < 1_000_000 && 0 <= primaries.gx && 0 <= primaries.gy && primaries.gx
            + primaries.gy < 1_000_000 && 0 <= primaries.bx && 0 <= primaries.by && primaries.bx
            + primaries.by < 1_000_000 && 0 <= primaries.wx && 0 <= primaries.wy && primaries.wx
            + primaries.wy < 1_000_000 ==> result is Ok,
        result is Err ==> *final(creator) == *old(creator),
        old(creator).primaries is Some ==> result
            == Err::<(), CreatorError>(CreatorError::AlreadySet),
{
}

/// Brightness limits can be given again; the last ones count.
pub proof fn brightness_limits_are_kept(
    cll: &mut ParamsCreator,
    max_cll: u32,
    fall: &mut ParamsCreator,
    max_fall: u32,
)
    requires
        call_ensures(ParamsCreator::set_max_cll, (cll, max_cll), ()),
        call_ensures(ParamsCreator::set_max_fall, (fall, max_fall), ()),
    ensures
        final(cll).max_cll == Some(max_cll) && final(cll).max_fall == old(cll).max_fall,
        final(cll).luminances == old(cll).luminances,
        final(fall).max_fall == Some(max_fall) && final(fall).max_cll == old(fall).max_cll,
        final(fall).luminances == old(fall).luminances,
{
}

/// A client that asks about described colors is told the luminances and brightness
/// limits that were given, and where the primaries are.
pub proof fn described_colors_are_told_in_full(
    color: ParametricColor,
    version: u32,
    events: Vec<InfoEvent>,
    xy: CustomPrimaries,
)
    requires
        call_ensures(parametric_info, (&color, version), events),
        call_ensures(primaries_chromaticities, (color.primaries,), xy),
    ensures
        color.luminances matches Some(given) ==> events@.contains(InfoEvent::Luminances(given))
            && events@.contains(
            InfoEvent::TargetLuminance { min: given.min, max: given.max },
        ),
        color.luminances is None ==> forall|i: int|
            0 <= i < events@.len() ==> !((#[trigger] events@[i]) is Luminances),
        color.max_cll matches Some(max) ==> events@.contains(InfoEvent::TargetMaxCll(max)),
        color.max_fall matches Some(max) ==> events@.contains(InfoEvent::TargetMaxFall(max)),
        events@.contains(InfoEvent::TargetPrimaries(xy)),
        color.primaries matches ContentPrimaries::Custom(given) ==> xy == given,
{
    let lead: int = if color.luminances is Some {
        4
    } else {
        2
    };
    assert(events@[lead] == InfoEvent::TargetPrimaries(xy));
    if color.luminances is Some {
        assert(events@[2] == InfoEvent::Luminances(color.luminances->0));
        assert(events@[3] == (InfoEvent::TargetLuminance {
            min: color.luminances->0.min,
            max: color.luminances->0.max,
        }));
    }
    if color.max_cll is Some {
        assert(events@[lead + 1] == InfoEvent::TargetMaxCll(color.max_cll->0));
        if color.max_fall is Some {
            assert(events@[lead + 2] == InfoEvent::TargetMaxFall(color.max_fall->0));
        }
    } else if color.max_fall is Some {
        assert(events@[lead + 1] == InfoEvent::TargetMaxFall(color.max_fall->0));
    }
}

/// The named primaries are the ones of their standards: all have the same white
/// point, and BT.2020 the widest red and green.
pub proof fn named_primaries_are_the_standards(named: NamedPrimaries, xy: CustomPrimaries)
    requires
        call_ensures(primaries_chromaticities, (ContentPrimaries::Named(named),), xy),
    ensures
        xy.wx == 312_700 && xy.wy == 329_000,
        (xy.rx, xy.ry) == match named {
            NamedPrimaries::Srgb | NamedPrimaries::AdobeRgb => (640_000i32, 330_000i32),
            NamedPrimaries::Bt2020 => (708_000i32, 292_000i32),
            NamedPrimaries::DisplayP3 => (680_000i32, 320_000i32),
        },
        (xy.gx, xy.gy) == match named {
            NamedPrimaries::Srgb => (300_000i32, 600_000i32),
            NamedPrimaries::AdobeRgb => (210_000i32, 710_000i32),
            NamedPrimaries::Bt2020 => (170_000i32, 797_000i32),
            NamedPrimaries::DisplayP3 => (265_000i32, 690_000i32),
        },
        (xy.bx, xy.by) == match named {
            NamedPrimaries::Bt2020 => (131_000i32, 46_000i32),
            _ => (150_000i32, 60_000i32),
        },
{
}

/// The outputs show BT.2020 with the PQ curve and the luminances of a
/// high-dynamic-range pipeline if and only if they run one, else sRGB.
pub proof fn outputs_are_described_by_their_pipeline(
    pipeline: ColorPipeline,
    sdr: Luminances,
    hdr: Luminances,
    color: ParametricColor,
)
    requires
        call_ensures(pipeline_description, (pipeline, sdr, hdr), color),
    ensures
        pipeline == ColorPipeline::Hdr ==> {
            &&& color.primaries == ContentPrimaries::Named(NamedPrimaries::Bt2020)
            &&& color.transfer == ContentTransfer::Named(NamedTransfer::Pq)
            &&& color.luminances == Some(hdr)
        },
        pipeline != ColorPipeline::Hdr ==> {
            &&& color.primaries == ContentPrimaries::Named(NamedPrimaries::Srgb)
            &&& color.transfer == ContentTransfer::Named(NamedTransfer::Srgb)
            &&& color.luminances == Some(sdr)
        },
        color.max_cll is None && color.max_fall is None,
{
}

/// A surface takes a description that is usable, for one of the two ways to render
/// it, and then has just those colors.
pub proof fn surfaces_take_usable_descriptions(
    description: ImageDescription,
    render_intent: u32,
    result: Result<ContentColor, ColorSurfaceError>,
)
    requires
        call_ensures(
            set_image_description,
            (true, Some(&description), render_intent),
            result,
        ),
    ensures
        result is Ok <==> render_intent <= 1 && !description.failed,
        result == Err::<ContentColor, ColorSurfaceError>(ColorSurfaceError::RenderIntent)
            <==> render_intent > 1,
        result matches Ok(color) ==> match (description.value, color) {
            (ContentColor::Parametric(given), ContentColor::Parametric(taken)) => given == taken,
            (ContentColor::Icc(given), ContentColor::Icc(taken)) => given@ == taken@,
            _ => false,
        },
{
}

/// A color profile is taken in full or not at all: within the size limits and within
/// the file.
pub proof fn profiles_lie_within_their_file(
    creator: IccCreator,
    offset: u32,
    length: u32,
    size: i64,
    result: Result<(), CreatorError>,
)
    requires
        call_ensures(IccCreator::check_file, (&creator, offset, length, Some(size)), result),
    ensures
        result is Ok <==> creator.bytes is None && 132 <= length && length <= 16 * 1024 * 1024
            && offset + length <= size,
        creator.bytes is Some ==> result == Err::<(), CreatorError>(CreatorError::AlreadySet),
{
}

/// A description made of a profile holds the profile's bytes, and fails where they do
/// not begin as one for an RGB display or scanner.
pub proof fn profiles_are_kept_as_read(
    creator: &mut IccCreator,
    result: Result<ImageDescription, CreatorError>,
)
    requires
        call_ensures(IccCreator::create, (creator,), result),
    ensures
        result is Ok <==> old(creator).bytes is Some,
        final(creator).bytes is None,
        result matches Ok(description) ==> {
            let bytes = old(creator).bytes->0@;
            &&& description.value matches ContentColor::Icc(kept)
            &&& kept@ == bytes
            &&& !description.failed ==> bytes.len() >= 132 && bytes[36] == 0x61 && bytes[37] == 0x63
                && bytes[38] == 0x73 && bytes[39] == 0x70 && bytes[16] == 0x52 && bytes[17] == 0x47
                && bytes[18] == 0x42 && bytes[19] == 0x20
        },
{
    if creator.bytes is Some && profile_header(creator.bytes->0@) {
        let bytes = creator.bytes->0@;
        let signature = bytes.subrange(36, 40);
        let space = bytes.subrange(16, 20);
        assert(signature[0] == bytes[36] && signature[1] == bytes[37] && signature[2] == bytes[38]
            && signature[3] == bytes[39]);
        assert(space[0] == bytes[16] && space[1] == bytes[17] && space[2] == bytes[18] && space[3]
            == bytes[19]);
    }
}

/// Descriptions are numbered from the counter on, and never zero.
pub proof fn identities_are_not_zero(counter: &mut u32, identity: u32)
    requires
        call_ensures(fresh_identity, (counter,), identity),
    ensures
        identity != 0,
        *old(counter) != 0 ==> identity == *old(counter),
        (*final(counter) - *old(counter) - 1) % 0x1_0000_0000 == 0,
{
}

/// A surface has one object of each kind at a time.
pub proof fn surfaces_have_one_color_object(
    managed: &mut SurfaceColor,
    resource: u64,
    result: Result<(), SurfaceExists>,
    watched: &mut SurfaceColor,
    feedback: Result<(), SurfaceExists>,
)
    requires
        call_ensures(SurfaceColor::get_surface, (managed, resource), result),
        call_ensures(SurfaceColor::get_feedback, (watched, resource), feedback),
    ensures
        result is Ok <==> old(managed).color_management is None,
        result is Ok ==> final(managed).color_management == Some(resource)
            && final(managed).color_feedback == old(managed).color_feedback,
        result is Err ==> *final(managed) == *old(managed),
        feedback is Ok <==> old(watched).color_feedback is None,
        feedback is Ok ==> final(watched).color_feedback == Some(resource)
            && final(watched).color_management == old(watched).color_management,
        feedback is Err ==> *final(watched) == *old(watched),
{
}

/// A profile is recognised by its signature, by its class of a display or a scanner, and by
/// its color space of red, green and blue, each at its place in the header.
pub proof fn profiles_are_known_by_their_header(bytes: Vec<u8>, valid: bool)
    requires
        call_ensures(is_profile, (&bytes,), valid),
    ensures
        valid ==> {
            &&& bytes@[36] == 'a' as u8 && bytes@[37] == 'c' as u8 && bytes@[38] == 's' as u8
                && bytes@[39] == 'p' as u8
            &&& bytes@[16] == 'R' as u8 && bytes@[17] == 'G' as u8 && bytes@[18] == 'B' as u8
                && bytes@[19] == ' ' as u8
            &&& {
                ||| bytes@[12] == 'm' as u8 && bytes@[13] == 'n' as u8 && bytes@[14] == 't' as u8
                    && bytes@[15] == 'r' as u8
                ||| bytes@[12] == 's' as u8 && bytes@[13] == 'c' as u8 && bytes@[14] == 'n' as u8
                    && bytes@[15] == 'r' as u8
            }
        },
{
    if valid {
        let signature = bytes@.subrange(36, 40);
        let class = bytes@.subrange(12, 16);
        let space = bytes@.subrange(16, 20);
        assert(signature[0] == bytes@[36] && signature[1] == bytes@[37] && signature[2]
            == bytes@[38] && signature[3] == bytes@[39]);
        assert(class[0] == bytes@[12] && class[1] == bytes@[13] && class[2] == bytes@[14]
            && class[3] == bytes@[15]);
        assert(space[0] == bytes@[16] && space[1] == bytes@[17] && space[2] == bytes@[18]
            && space[3] == bytes@[19]);
    }
}

/// A description tells its own content: a failed one nothing, a profile its bytes.
pub proof fn descriptions_tell_their_content(
    description: ImageDescription,
    version: u32,
    answer: Information<'_>,
)
    requires
        call_ensures(ImageDescription::information, (&description, version), answer),
    ensures
        description.failed <==> answer is NotReady,
        !description.failed ==> (description.value is Icc <==> answer is Profile),
        !description.failed ==> (description.value is Parametric <==> answer is Parameters),
        answer matches Information::Profile(profile) ==> profile@ == description.value->Icc_0@,
{
}

/// Primaries are named once, by a number that is known.
pub proof fn named_primaries_are_taken_once(
    creator: &mut ParamsCreator,
    number: u32,
    result: Result<(), CreatorError>,
)
    requires
        call_ensures(ParamsCreator::set_primaries_named, (creator, number), result),
    ensures
        old(creator).primaries is Some ==> result is Err && result->Err_0 is AlreadySet,
        result is Ok ==> old(creator).primaries is None && final(creator).primaries is Some
            && final(creator).primaries->0 is Named,
        result is Err ==> *final(creator) == *old(creator),
        final(creator).transfer == old(creator).transfer,
{
}

} // verus!
