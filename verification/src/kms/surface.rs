//! What a render surface is made for.

use vstd::prelude::*;
use crate::kms::backend::DrmBackend;
use crate::kms::color::{ColorPolicy, DisplayColorMode};
use crate::kms::plan::optional_text;

verus! {

/// The luminance of standard white on a high-dynamic-range desktop where none
/// is configured: 203 candela per square metre, as the bits of a single-precision number.
pub const DEFAULT_SDR_WHITE_BITS: u32 = 0x434B_0000;

/// The encoding of a render surface's colors.
#[derive(Debug, Clone, Copy, PartialEq, Eq, Structural)]
pub enum SurfaceColors {
    /// The renderer's own choice.
    Unspecified,
    /// That of the configured profile.
    Profile,
    Srgb,
    /// BT.2020 with the PQ transfer function. Standard white has the given
    /// luminance, as the bits of a single-precision number.
    Bt2020Pq { sdr_white_bits: u32 },
}

/// What a render surface is made for.
#[derive(Debug, Clone, Copy, PartialEq, Eq, Structural)]
pub struct SurfacePlan {
    pub width: u32,
    pub height: u32,
    pub colors: SurfaceColors,
    /// Whether it has ten bits to a color.
    pub deep: bool,
}

/// The luminance of standard white that the settings ask for: that of the first
/// entry with one.
pub open spec fn first_white(entries: Seq<(String, ColorPolicy)>) -> Option<u32>
    decreases entries.len(),
{
    if entries.len() == 0 {
        None
    } else if entries[0].1.sdr_white_bits is Some {
        entries[0].1.sdr_white_bits
    } else {
        first_white(entries.skip(1))
    }
}

impl DrmBackend {
    /// The color profile to read before a surface is created. One that encodes
    /// high dynamic range has no use for it.
    pub open spec fn wanted_profile(self) -> Option<Seq<char>> {
        if self.displays.color_mode == DisplayColorMode::Hdr {
            None
        } else {
            optional_text(self.displays.icc_profile)
        }
    }

    /// The color profile to read before a surface is created.
    pub fn profile_to_read(&self) -> (path: Option<&String>)
        ensures
            match path {
                Some(text) => self.wanted_profile() == Some(text@),
                None => self.wanted_profile() is None,
            },
    {
        match self.displays.color_mode {
            DisplayColorMode::Hdr => None,
            _ => match &self.displays.icc_profile {
                Some(text) => Some(text),
                None => None,
            },
        }
    }

    /// The luminance of standard white that the settings ask for.
    pub fn configured_sdr_white_nits(&self) -> (bits: Option<u32>)
        ensures
            bits == first_white(self.settings.color.entries@),
    {
        let entries = &self.settings.color.entries;
        let mut index: usize = 0;
        assert(entries@.skip(0) =~= entries@);
        while index < entries.len()
            invariant
                index <= entries.len(),
                entries@ == self.settings.color.entries@,
                first_white(entries@) == first_white(entries@.skip(index as int)),
            decreases entries.len() - index,
        {
            assert(entries@.skip(index as int).skip(1) =~= entries@.skip(index + 1));
            let bits: Option<u32> = entries[index].1.sdr_white_bits;
            if bits.is_some() {
                return bits;
            }
            index += 1;
        }
        None
    }

    /// What a surface for the current displays is made for. `profile` says
    /// whether a profile was wanted and could be used.
    pub open spec fn planned_surface(self, profile: bool) -> SurfacePlan {
        SurfacePlan {
            width: self.displays.size.0,
            height: self.displays.size.1,
            colors: match self.displays.color_mode {
                DisplayColorMode::Hdr => SurfaceColors::Bt2020Pq {
                    sdr_white_bits: match first_white(self.settings.color.entries@) {
                        Some(bits) => bits,
                        None => DEFAULT_SDR_WHITE_BITS,
                    },
                },
                _ if profile => SurfaceColors::Profile,
                DisplayColorMode::SdrDeepColor => SurfaceColors::Srgb,
                DisplayColorMode::Sdr => SurfaceColors::Unspecified,
            },
            deep: self.displays.color_mode != DisplayColorMode::Sdr,
        }
    }

    /// What a surface for the current displays is made for. `profile` says
    /// whether a profile was wanted and could be used.
    pub fn surface_plan(&self, profile: bool) -> (plan: SurfacePlan)
        ensures
            plan == self.planned_surface(profile),
    {
        let colors = match self.displays.color_mode {
            DisplayColorMode::Hdr => SurfaceColors::Bt2020Pq {
                sdr_white_bits: match self.configured_sdr_white_nits() {
                    Some(bits) => bits,
                    None => DEFAULT_SDR_WHITE_BITS,
                },
            },
            DisplayColorMode::SdrDeepColor => if profile {
                SurfaceColors::Profile
            } else {
                SurfaceColors::Srgb
            },
            DisplayColorMode::Sdr => if profile {
                SurfaceColors::Profile
            } else {
                SurfaceColors::Unspecified
            },
        };
        SurfacePlan {
            width: self.displays.size.0,
            height: self.displays.size.1,
            colors,
            deep: self.displays.color_mode != DisplayColorMode::Sdr,
        }
    }
}

/// A surface is as large as the desktop, deep unless the pipeline is plain, and encoded for
/// the pipeline; a profile is used only where high dynamic range is not.
pub proof fn surfaces_are_made_for_the_pipeline(
    backend: DrmBackend,
    profile: bool,
    plan: SurfacePlan,
    white: Option<u32>,
)
    requires
        call_ensures(DrmBackend::surface_plan, (&backend, profile), plan),
        call_ensures(DrmBackend::configured_sdr_white_nits, (&backend,), white),
    ensures
        plan.width == backend.displays.size.0 && plan.height == backend.displays.size.1,
        plan.deep <==> backend.displays.color_mode != DisplayColorMode::Sdr,
        plan.colors is Bt2020Pq <==> backend.displays.color_mode == DisplayColorMode::Hdr,
        plan.colors is Profile <==> profile && backend.displays.color_mode != DisplayColorMode::Hdr,
        plan.colors is Srgb <==> !profile && backend.displays.color_mode
            == DisplayColorMode::SdrDeepColor,
        plan.colors matches SurfaceColors::Bt2020Pq { sdr_white_bits } ==> sdr_white_bits
            == match white {
            Some(bits) => bits,
            None => 0x434B_0000u32,
        },
{
}

/// The profile to read is the displays' own, where one is used at all.
pub proof fn profiles_are_not_read_for_high_range(backend: DrmBackend, path: Option<&String>)
    requires
        call_ensures(DrmBackend::profile_to_read, (&backend,), path),
    ensures
        backend.displays.color_mode == DisplayColorMode::Hdr ==> path is None,
        backend.displays.color_mode != DisplayColorMode::Hdr ==> (path is Some
            <==> backend.displays.icc_profile is Some),
        path is Some ==> path->0@ == backend.displays.icc_profile->0@,
{
}

} // verus!
