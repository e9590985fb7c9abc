//! The plan for driving the attached displays, and the display set that comes
//! of it.

use vstd::prelude::*;
use crate::kms::assign::{is_first_assignment, OutputChoice};
use crate::kms::color::{
    allowed_mode, mode_for_format, requested_mode, ColorPolicy, DisplayColorMode,
    EdidColorCapabilities,
};
use crate::kms::config::ConnectorSettings;
use crate::kms::error::DrmError;
use crate::kms::formats::{ByteOrder, ARGB8888, XRGB8888};
use crate::kms::modes::ModeSpec;
use crate::kms::select::{
    all_choices, choose_format, choose_mode, comes_before, drivable, format_choice, is_chosen_mode,
    is_format_assignment, is_ranking, mode_entries, rank_connectors, ConnectorProbe, FormatChoice,
    ModeProbe,
    PlaneProbe,
};

verus! {

/// A connector that is to be driven: which one, in which mode, by which
/// controller and plane, and where on the desktop it begins.
#[derive(Debug, Clone, Copy, PartialEq, Eq, Structural)]
pub struct PlannedOutput {
    pub connector: usize,
    pub mode: usize,
    pub crtc: u32,
    pub plane: u32,
    pub x: u32,
}

/// What is configured for outputs, by connector name.
#[derive(Debug)]
pub struct OutputSettings {
    pub modes: ConnectorSettings<ModeSpec>,
    pub color: ConnectorSettings<ColorPolicy>,
    pub icc: ConnectorSettings<String>,
}

/// The plan for driving the attached displays.
#[derive(Debug)]
pub struct OutputPlan {
    pub outputs: Vec<PlannedOutput>,
    /// The controller and plane of each output, with the layouts it takes.
    pub choices: Vec<OutputChoice>,
    /// The size of the framebuffer that all outputs share.
    pub size: (u32, u32),
    pub format: u32,
    pub modifiers: Vec<u64>,
    pub color_mode: DisplayColorMode,
    /// The color profile of the framebuffer.
    pub icc_profile: Option<String>,
}

/// The framebuffer sizes that a card takes: the least and the greatest width
/// and height.
#[derive(Debug, Clone, Copy, PartialEq, Eq, Structural)]
pub struct FramebufferLimits {
    pub min_width: u32,
    pub max_width: u32,
    pub min_height: u32,
    pub max_height: u32,
}

/// The combined width of the first `count` modes.
pub open spec fn total_width(modes: Seq<ModeProbe>, count: int) -> int
    decreases count,
{
    if count <= 0 {
        0
    } else {
        total_width(modes, count - 1) + modes[count - 1].width
    }
}

/// The greatest height of the first `count` modes.
pub open spec fn greatest_height(modes: Seq<ModeProbe>, count: int) -> int
    decreases count,
{
    if count <= 0 {
        0
    } else {
        let earlier = greatest_height(modes, count - 1);
        if earlier >= modes[count - 1].height {
            earlier
        } else {
            modes[count - 1].height as int
        }
    }
}

/// How many of the first `count` modes fit side by side in the width range.
pub open spec fn fitting(modes: Seq<ModeProbe>, count: int) -> int
    decreases count,
{
    if count <= 0 {
        0
    } else if total_width(modes, count) <= u32::MAX {
        count
    } else {
        fitting(modes, count - 1)
    }
}

/// The framebuffer for modes shown side by side, or why there is none.
pub open spec fn desktop(modes: Seq<ModeProbe>, limits: FramebufferLimits) -> Result<
    (u32, u32),
    DrmError,
> {
    let width = total_width(modes, modes.len() as int);
    let height = greatest_height(modes, modes.len() as int);
    if width > u32::MAX {
        Err(
            DrmError::DesktopTooLarge(
                u32::MAX,
                greatest_height(modes, fitting(modes, modes.len() as int)) as u32,
            ),
        )
    } else if limits.min_width <= width <= limits.max_width && limits.min_height <= height
        <= limits.max_height {
        Ok((width as u32, height as u32))
    } else {
        Err(DrmError::DesktopTooLarge(width as u32, height as u32))
    }
}

/// Widths only add up.
proof fn lemma_width_grows(modes: Seq<ModeProbe>, less: int, more: int)
    requires
        0 <= less <= more,
    ensures
        total_width(modes, less) <= total_width(modes, more),
    decreases more - less,
{
    if less < more {
        lemma_width_grows(modes, less, more - 1);
    }
}

/// Where the width first overflows, the modes before it are the ones that fit.
proof fn lemma_fitting(modes: Seq<ModeProbe>, fit: int, count: int)
    requires
        0 <= fit < count,
        total_width(modes, fit) <= u32::MAX,
        total_width(modes, fit + 1) > u32::MAX,
    ensures
        fitting(modes, count) == fit,
    decreases count,
{
    lemma_width_grows(modes, fit + 1, count);
    assert(fitting(modes, fit) == fit);
    if count > fit + 1 {
        lemma_fitting(modes, fit, count - 1);
    }
}

/// The framebuffer for modes shown side by side.
pub fn desktop_size(modes: &[ModeProbe], limits: FramebufferLimits) -> (result: Result<
    (u32, u32),
    DrmError,
>)
    ensures
        result == desktop(modes@, limits),
{
    let mut width: u32 = 0;
    let mut height: u32 = 0;
    let mut index: usize = 0;
    while index < modes.len()
        invariant
            index <= modes.len(),
            width == total_width(modes@, index as int),
            height == greatest_height(modes@, index as int),
        decreases modes.len() - index,
    {
        width =
        match width.checked_add(modes[index].width as u32) {
            Some(sum) => sum,
            None => {
                proof {
                    lemma_width_grows(modes@, index + 1, modes.len() as int);
                    lemma_fitting(modes@, index as int, modes.len() as int);
                }
                return Err(DrmError::DesktopTooLarge(u32::MAX, height));
            },
        };
        if (modes[index].height as u32) > height {
            height = modes[index].height as u32;
        }
        index += 1;
    }
    if width < limits.min_width || width > limits.max_width || height < limits.min_height || height
        > limits.max_height {
        return Err(DrmError::DesktopTooLarge(width, height));
    }
    Ok((width, height))
}

/// The setting in an optional value, by reference.
pub open spec fn setting_ref<T>(setting: &Option<T>) -> Option<&T> {
    match setting {
        Some(value) => Some(value),
        None => None,
    }
}

/// The mode that a connector is shown in.
pub open spec fn chosen_mode(connector: ConnectorProbe, spec: Option<ModeSpec>) -> int {
    choose|index: int| is_mode_choice(connector, spec, index)
}

/// Whether `index` is the mode that a connector is shown in.
pub open spec fn is_mode_choice(
    connector: ConnectorProbe,
    spec: Option<ModeSpec>,
    index: int,
) -> bool {
    0 <= index < connector.modes@.len() && is_chosen_mode(
        mode_entries(connector.modes@),
        setting_ref(&spec),
        index,
    )
}

/// The choice of a mode is unique.
pub proof fn mode_choice_is_unique(
    connector: ConnectorProbe,
    spec: Option<ModeSpec>,
    left: int,
    right: int,
)
    requires
        is_mode_choice(connector, spec, left),
        is_mode_choice(connector, spec, right),
    ensures
        left == right,
{
}

/// The modes that ranked connectors are shown in.
pub open spec fn ranked_modes(
    connectors: Seq<ConnectorProbe>,
    ranks: Seq<usize>,
    settings: ConnectorSettings<ModeSpec>,
) -> Seq<ModeProbe> {
    ranks.map_values(
        |r: usize|
            {
                let connector = connectors[r as int];
                connector.modes@[chosen_mode(connector, settings.setting(connector.name@))]
            },
    )
}

/// The color settings of ranked connectors.
pub open spec fn ranked_policies(
    connectors: Seq<ConnectorProbe>,
    ranks: Seq<usize>,
    policies: ConnectorSettings<ColorPolicy>,
) -> Seq<Option<ColorPolicy>> {
    ranks.map_values(|r: usize| policies.setting(connectors[r as int].name@))
}

/// The color capabilities of ranked connectors.
pub open spec fn ranked_capabilities(
    connectors: Seq<ConnectorProbe>,
    ranks: Seq<usize>,
) -> Seq<EdidColorCapabilities> {
    ranks.map_values(|r: usize| connectors[r as int].color_caps)
}

/// The profile of the first of the ranked connectors from `from` on that has one
/// configured.
pub open spec fn first_profile(
    connectors: Seq<ConnectorProbe>,
    ranks: Seq<usize>,
    profiles: ConnectorSettings<String>,
    from: int,
) -> Option<Seq<char>>
    decreases ranks.len() - from,
{
    if from >= ranks.len() {
        None
    } else {
        match profiles.setting(connectors[ranks[from] as int].name@) {
            Some(path) => Some(path@),
            None => first_profile(connectors, ranks, profiles, from + 1),
        }
    }
}

/// The text in an optional string.
pub open spec fn optional_text(text: Option<String>) -> Option<Seq<char>> {
    match text {
        Some(text) => Some(text@),
        None => None,
    }
}

/// The pipeline asked of ranked connectors.
pub open spec fn asked_mode(
    connectors: Seq<ConnectorProbe>,
    ranks: Seq<usize>,
    policies: ConnectorSettings<ColorPolicy>,
) -> DisplayColorMode {
    allowed_mode(
        ranked_policies(connectors, ranks, policies),
        ranked_capabilities(connectors, ranks),
    )
}

/// Whether the outputs of a plan are the ranked connectors, each in its chosen
/// mode and driven as assigned, standing side by side.
pub open spec fn outputs_follow(
    connectors: Seq<ConnectorProbe>,
    ranks: Seq<usize>,
    settings: ConnectorSettings<ModeSpec>,
    choices: Seq<OutputChoice>,
    outputs: Seq<PlannedOutput>,
) -> bool {
    &&& outputs.len() == ranks.len()
    &&& choices.len() == ranks.len()
    &&& forall|i: int|
        #![trigger outputs[i]]
        0 <= i < outputs.len() ==> {
            let connector = connectors[ranks[i] as int];
            &&& outputs[i].connector == ranks[i]
            &&& outputs[i].mode == chosen_mode(connector, settings.setting(connector.name@))
            &&& is_mode_choice(
                connector,
                settings.setting(connector.name@),
                outputs[i].mode as int,
            )
            &&& outputs[i].crtc == choices[i].crtc
            &&& outputs[i].plane == choices[i].plane
            &&& outputs[i].x == total_width(ranked_modes(connectors, ranks, settings), i)
        }
}

/// Whether `plan` drives the ranked connectors with the format at `index`.
pub open spec fn plan_follows(
    order: ByteOrder,
    connectors: Seq<ConnectorProbe>,
    ranks: Seq<usize>,
    planes: Seq<PlaneProbe>,
    settings: OutputSettings,
    index: int,
    plan: OutputPlan,
) -> bool {
    let asked = asked_mode(connectors, ranks, settings.color);
    let format = asked.formats()[index];
    &&& plan.format == format
    &&& plan.color_mode == mode_for_format(asked, index)
    &&& is_format_assignment(
        all_choices(order, connectors, ranks, planes, format, ranks.len() as int)->Ok_0,
        plan.choices@,
        plan.modifiers@,
    )
    &&& outputs_follow(connectors, ranks, settings.modes, plan.choices@, plan.outputs@)
    &&& optional_text(plan.icc_profile) == if asked == DisplayColorMode::Hdr {
        None
    } else {
        first_profile(connectors, ranks, settings.icc, 0)
    }
}

/// What planning answers for ranked connectors.
pub open spec fn is_plan(
    order: ByteOrder,
    connectors: Seq<ConnectorProbe>,
    ranks: Seq<usize>,
    planes: Seq<PlaneProbe>,
    limits: FramebufferLimits,
    settings: OutputSettings,
    result: Result<OutputPlan, DrmError>,
) -> bool {
    let asked = asked_mode(connectors, ranks, settings.color);
    if ranks.len() == 0 {
        result == Err::<OutputPlan, DrmError>(DrmError::NoConnector)
    } else {
        match format_choice(order, connectors, ranks, planes, asked.formats(), 0) {
            FormatChoice::Failure(error) => result == Err::<OutputPlan, DrmError>(error),
            FormatChoice::Nothing => result == Err::<OutputPlan, DrmError>(DrmError::NoPlane),
            FormatChoice::Format(index) => match desktop(
                ranked_modes(connectors, ranks, settings.modes),
                limits,
            ) {
                Err(error) => result == Err::<OutputPlan, DrmError>(error),
                Ok(size) => result is Ok && result->Ok_0.size == size && plan_follows(
                    order,
                    connectors,
                    ranks,
                    planes,
                    settings,
                    index,
                    result->Ok_0,
                ),
            },
        }
    }
}

/// Find the profile of the first ranked connector that has one configured.
fn find_profile(
    connectors: &[ConnectorProbe],
    ranks: &[usize],
    profiles: &ConnectorSettings<String>,
) -> (profile: Option<String>)
    requires
        is_ranking(connectors@, ranks@),
    ensures
        optional_text(profile) == first_profile(connectors@, ranks@, *profiles, 0),
{
    let mut index: usize = 0;
    while index < ranks.len()
        invariant
            index <= ranks.len(),
            is_ranking(connectors@, ranks@),
            first_profile(connectors@, ranks@, *profiles, 0) == first_profile(
                connectors@,
                ranks@,
                *profiles,
                index as int,
            ),
        decreases ranks.len() - index,
    {
        let rank: usize = ranks[index];
        if let Some(path) = profiles.get(connectors[rank].name.as_str()) {
            return Some(path.clone());
        }
        index += 1;
    }
    None
}

/// Plan how to drive the attached displays, reading plane tables in the given
/// byte order.
///
/// Connected displays are ordered by kind and number and stand side by side.
/// They share one framebuffer, so its format must suit a primary plane of each:
/// the best format of the pipeline that all of them allow is tried first, and
/// falling back to an 8-bit format falls back to plain sRGB.
pub fn plan_outputs(
    order: ByteOrder,
    connectors: &[ConnectorProbe],
    planes: &[PlaneProbe],
    limits: FramebufferLimits,
    settings: &OutputSettings,
) -> (result: Result<OutputPlan, DrmError>)
    ensures
        exists|ranks: Seq<usize>| #[trigger]
            is_ranking(connectors@, ranks) && is_plan(
                order,
                connectors@,
                ranks,
                planes@,
                limits,
                *settings,
                result,
            ),
{
    let ranks = rank_connectors(connectors);
    if ranks.len() == 0 {
        return Err(DrmError::NoConnector);
    }
    let mut policies: Vec<Option<ColorPolicy>> = Vec::new();
    let mut capabilities: Vec<EdidColorCapabilities> = Vec::new();
    let mut modes: Vec<ModeProbe> = Vec::new();
    let mut picked_modes: Vec<usize> = Vec::new();
    let mut index: usize = 0;
    while index < ranks.len()
        invariant
            index <= ranks.len(),
            is_ranking(connectors@, ranks@),
            policies@ == ranked_policies(
                connectors@,
                ranks@.take(index as int),
                settings.color,
            ),
            capabilities@ == ranked_capabilities(connectors@, ranks@.take(index as int)),
            modes@ == ranked_modes(connectors@, ranks@.take(index as int), settings.modes),
            picked_modes.len() == index,
            forall|i: int|
                #![trigger picked_modes@[i]]
                0 <= i < index ==> {
                    let connector = connectors@[ranks@[i] as int];
                    let spec = settings.modes.setting(connector.name@);
                    picked_modes@[i] == chosen_mode(connector, spec) && is_mode_choice(
                        connector,
                        spec,
                        picked_modes@[i] as int,
                    )
                },
        decreases ranks.len() - index,
    {
        let rank: usize = ranks[index];
        let connector = &connectors[rank];
        let name = connector.name.as_str();
        let policy: Option<ColorPolicy> = match settings.color.get(name) {
            Some(policy) => Some(*policy),
            None => None,
        };
        policies.push(policy);
        capabilities.push(connector.color_caps);
        let spec = settings.modes.get(name);
        let picked = choose_mode(connector.modes.as_slice(), spec);
        proof {
            let setting = settings.modes.setting(connector.name@);
            assert(setting_ref(&setting) == spec);
            assert(is_mode_choice(*connector, setting, picked as int));
            mode_choice_is_unique(
                *connector,
                setting,
                picked as int,
                chosen_mode(*connector, setting),
            );
        }
        modes.push(connector.modes[picked]);
        picked_modes.push(picked);
        proof {
            assert(ranks@.take(index + 1) =~= ranks@.take(index as int).push(rank));
            assert(policies@ =~= ranked_policies(
                connectors@,
                ranks@.take(index + 1),
                settings.color,
            ));
            assert(capabilities@ =~= ranked_capabilities(connectors@, ranks@.take(index + 1)));
            assert(modes@ =~= ranked_modes(connectors@, ranks@.take(index + 1), settings.modes));
        }
        index += 1;
    }
    assert(ranks@.take(ranks.len() as int) =~= ranks@);
    let asked = requested_mode(policies.as_slice(), capabilities.as_slice());
    let icc_profile: Option<String> = match asked {
        DisplayColorMode::Hdr => None,
        DisplayColorMode::Sdr | DisplayColorMode::SdrDeepColor => find_profile(
            connectors,
            ranks.as_slice(),
            &settings.icc,
        ),
    };
    let formats = asked.fb_candidates();
    let found = match choose_format(
        order,
        connectors,
        ranks.as_slice(),
        planes,
        formats.as_slice(),
    ) {
        Err(error) => return Err(error),
        Ok(None) => return Err(DrmError::NoPlane),
        Ok(Some(found)) => found,
    };
    let size = match desktop_size(modes.as_slice(), limits) {
        Err(error) => return Err(error),
        Ok(size) => size,
    };
    let format: u32 = formats[found.index];
    let color_mode: DisplayColorMode = if found.index > 0 && (format == XRGB8888 || format
        == ARGB8888) {
        DisplayColorMode::Sdr
    } else {
        asked
    };
    proof {
        let candidates = all_choices(
            order,
            connectors@,
            ranks@,
            planes@,
            format,
            ranks.len() as int,
        )->Ok_0;
        lemma_choices_len(
            order,
            connectors@,
            ranks@,
            planes@,
            asked.formats(),
            0,
        );
        lemma_assignment_len(candidates, found.choices@, found.modifiers@);
    }
    let mut outputs: Vec<PlannedOutput> = Vec::new();
    let mut x: u32 = 0;
    let mut at: usize = 0;
    while at < ranks.len()
        invariant
            at <= ranks.len(),
            outputs.len() == at,
            found.choices.len() == ranks.len(),
            picked_modes.len() == ranks.len(),
            is_ranking(connectors@, ranks@),
            modes@ == ranked_modes(connectors@, ranks@, settings.modes),
            total_width(modes@, modes.len() as int) <= u32::MAX,
            x == total_width(modes@, at as int),
            forall|i: int|
                #![trigger picked_modes@[i]]
                0 <= i < ranks.len() ==> {
                    let connector = connectors@[ranks@[i] as int];
                    let spec = settings.modes.setting(connector.name@);
                    picked_modes@[i] == chosen_mode(connector, spec) && is_mode_choice(
                        connector,
                        spec,
                        picked_modes@[i] as int,
                    )
                },
            forall|i: int|
                #![trigger outputs@[i]]
                0 <= i < at ==> outputs@[i].connector == ranks@[i] && outputs@[i].mode
                    == picked_modes@[i] && outputs@[i].crtc == found.choices@[i].crtc
                    && outputs@[i].plane == found.choices@[i].plane && outputs@[i].x
                    == total_width(modes@, i),
        decreases ranks.len() - at,
    {
        outputs.push(
            PlannedOutput {
                connector: ranks[at],
                mode: picked_modes[at],
                crtc: found.choices[at].crtc,
                plane: found.choices[at].plane,
                x,
            },
        );
        proof {
            lemma_width_grows(modes@, at + 1, modes.len() as int);
        }
        x = x + modes[at].width as u32;
        at += 1;
    }
    let plan = OutputPlan {
        outputs,
        choices: found.choices,
        size,
        format,
        modifiers: found.modifiers,
        color_mode,
        icc_profile,
    };
    proof {
        assert forall|i: int|
            #![trigger plan.outputs@[i]]
            0 <= i < plan.outputs@.len() implies {
            let connector = connectors@[ranks@[i] as int];
            &&& plan.outputs@[i].connector == ranks@[i]
            &&& plan.outputs@[i].mode == chosen_mode(
                connector,
                settings.modes.setting(connector.name@),
            )
            &&& is_mode_choice(
                connector,
                settings.modes.setting(connector.name@),
                plan.outputs@[i].mode as int,
            )
            &&& plan.outputs@[i].crtc == plan.choices@[i].crtc
            &&& plan.outputs@[i].plane == plan.choices@[i].plane
            &&& plan.outputs@[i].x == total_width(
                ranked_modes(connectors@, ranks@, settings.modes),
                i,
            )
        } by {
            let picked = picked_modes@[i];
        }
        assert(plan_follows(
            order,
            connectors@,
            ranks@,
            planes@,
            *settings,
            found.index as int,
            plan,
        ));
    }
    Ok(plan)
}

/// There are choices for each ranked connector.
proof fn lemma_all_choices_len(
    order: ByteOrder,
    connectors: Seq<ConnectorProbe>,
    ranks: Seq<usize>,
    planes: Seq<PlaneProbe>,
    format: u32,
    count: int,
)
    requires
        0 <= count,
    ensures
        all_choices(order, connectors, ranks, planes, format, count) matches Ok(list)
            ==> list.len() == count,
    decreases count,
{
    if count > 0 {
        lemma_all_choices_len(order, connectors, ranks, planes, format, count - 1);
    }
}

/// A format is used only where every plane that matters could be read.
proof fn lemma_choices_len(
    order: ByteOrder,
    connectors: Seq<ConnectorProbe>,
    ranks: Seq<usize>,
    planes: Seq<PlaneProbe>,
    formats: Seq<u32>,
    from: int,
)
    requires
        0 <= from,
    ensures
        format_choice(order, connectors, ranks, planes, formats, from) matches FormatChoice::Format(
            index,
        ) ==> all_choices(
            order,
            connectors,
            ranks,
            planes,
            formats[index],
            ranks.len() as int,
        ) matches Ok(list) && list.len() == ranks.len(),
    decreases formats.len() - from,
{
    if from < formats.len() {
        lemma_all_choices_len(
            order,
            connectors,
            ranks,
            planes,
            formats[from],
            ranks.len() as int,
        );
        lemma_choices_len(order, connectors, ranks, planes, formats, from + 1);
    }
}

/// An assignment has one choice for each connector.
proof fn lemma_assignment_len(
    candidates: Seq<Seq<crate::kms::assign::ChoiceView>>,
    choices: Seq<OutputChoice>,
    modifiers: Seq<u64>,
)
    requires
        is_format_assignment(candidates, choices, modifiers),
    ensures
        choices.len() == candidates.len(),
{
    let picks = choose|picks: Seq<int>| #[trigger]
        is_first_assignment(candidates, picks) && crate::kms::assign::selects(
            candidates,
            picks,
            choices,
        ) && modifiers == crate::kms::assign::shared_modifiers(candidates, picks);
    assert(crate::kms::assign::is_assignment(candidates, picks));
}

/// Planned outputs stand side by side: each begins where the one before it
/// ends, and the last ends at the right edge of the desktop.
pub proof fn planned_outputs_tile_the_desktop(
    connectors: Seq<ConnectorProbe>,
    ranks: Seq<usize>,
    settings: ConnectorSettings<ModeSpec>,
    choices: Seq<OutputChoice>,
    outputs: Seq<PlannedOutput>,
    limits: FramebufferLimits,
    index: int,
)
    requires
        outputs_follow(connectors, ranks, settings, choices, outputs),
        desktop(ranked_modes(connectors, ranks, settings), limits) is Ok,
        0 <= index < outputs.len(),
    ensures
        index == 0 ==> outputs[index].x == 0,
        index > 0 ==> outputs[index].x == outputs[index - 1].x + connectors[outputs[index
            - 1].connector as int].modes@[outputs[index - 1].mode as int].width,
        index == outputs.len() - 1 ==> outputs[index].x
            + connectors[outputs[index].connector as int].modes@[outputs[index].mode as int].width
            == desktop(ranked_modes(connectors, ranks, settings), limits)->Ok_0.0,
{
    let modes = ranked_modes(connectors, ranks, settings);
    let here = outputs[index];
    if index > 0 {
        let before = outputs[index - 1];
        assert(total_width(modes, index) == total_width(modes, index - 1) + modes[index
            - 1].width);
    }
    if index == outputs.len() - 1 {
        assert(total_width(modes, index + 1) == total_width(modes, index) + modes[index].width);
    }
}

proof fn lemma_greatest_height(modes: Seq<ModeProbe>, count: int)
    requires
        0 <= count <= modes.len(),
    ensures
        forall|i: int|
            0 <= i < count ==> (#[trigger] modes[i]).height <= greatest_height(modes, count),
        count > 0 ==> exists|i: int|
            0 <= i < count && (#[trigger] modes[i]).height == greatest_height(modes, count),
    decreases count,
{
    if count > 0 {
        lemma_greatest_height(modes, count - 1);
        let earlier = greatest_height(modes, count - 1);
        if earlier >= modes[count - 1].height && count > 1 {
            let i = choose|i: int|
                0 <= i < count - 1 && (#[trigger] modes[i]).height == earlier;
            assert(modes[i].height == greatest_height(modes, count));
        } else {
            assert(modes[count - 1].height == greatest_height(modes, count));
        }
    }
}

/// The framebuffer is as high as the highest mode, and within what the card takes.
pub proof fn desktops_are_as_high_as_their_modes(
    modes: &[ModeProbe],
    limits: FramebufferLimits,
    size: (u32, u32),
    index: int,
)
    requires
        call_ensures(desktop_size, (modes, limits), Ok(size)),
        0 <= index < modes@.len(),
    ensures
        modes@[index].height <= size.1,
        modes@[index].width <= size.0,
        exists|i: int| 0 <= i < modes@.len() && (#[trigger] modes@[i]).height == size.1,
        limits.min_width <= size.0 <= limits.max_width,
        limits.min_height <= size.1 <= limits.max_height,
{
    lemma_greatest_height(modes@, modes@.len() as int);
    lemma_width_grows(modes@, index + 1, modes@.len() as int);
    lemma_width_grows(modes@, 0, index);
}

/// One more mode makes the framebuffer wider by its own width.
pub proof fn modes_stand_side_by_side(
    modes: &[ModeProbe],
    fewer: &[ModeProbe],
    limits: FramebufferLimits,
    size: (u32, u32),
    smaller: (u32, u32),
)
    requires
        call_ensures(desktop_size, (modes, limits), Ok(size)),
        call_ensures(desktop_size, (fewer, limits), Ok(smaller)),
        modes@.len() > 0,
        fewer@ == modes@.drop_last(),
    ensures
        size.0 == smaller.0 + modes@.last().width,
        fewer@.len() == 0 ==> size.0 == modes@.last().width,
{
    lemma_same_widths(modes@, fewer@, fewer@.len() as int);
}

proof fn lemma_same_widths(modes: Seq<ModeProbe>, fewer: Seq<ModeProbe>, count: int)
    requires
        0 <= count <= fewer.len() <= modes.len(),
        forall|i: int| 0 <= i < fewer.len() ==> #[trigger] fewer[i] == modes[i],
    ensures
        total_width(modes, count) == total_width(fewer, count),
    decreases count,
{
    if count > 0 {
        lemma_same_widths(modes, fewer, count - 1);
        assert(fewer[count - 1] == modes[count - 1]);
    }
}

/// A plan drives the connected displays that have a mode, in order of kind and number,
/// side by side from the left edge, on a framebuffer as wide as all of them and as high
/// as the highest.
pub proof fn plans_put_displays_side_by_side(
    order: ByteOrder,
    connectors: &[ConnectorProbe],
    planes: &[PlaneProbe],
    limits: FramebufferLimits,
    settings: OutputSettings,
    plan: OutputPlan,
    i: int,
)
    requires
        call_ensures(plan_outputs, (order, connectors, planes, limits, &settings), Ok(plan)),
        0 <= i < plan.outputs@.len(),
    ensures
        ({
            let here = plan.outputs@[i];
            let connector = connectors@[here.connector as int];
            let mode = connector.modes@[here.mode as int];
            &&& here.connector < connectors@.len() && connector.connected
            &&& here.mode < connector.modes@.len()
            &&& i == 0 ==> here.x == 0
            &&& i + 1 < plan.outputs@.len() ==> {
                let next = plan.outputs@[i + 1];
                let right = connectors@[next.connector as int];
                &&& next.x == here.x + mode.width
                &&& connector.interface <= right.interface
                &&& connector.interface == right.interface ==> connector.interface_id
                    <= right.interface_id
            }
            &&& i + 1 == plan.outputs@.len() ==> plan.size.0 == here.x + mode.width
            &&& mode.height <= plan.size.1
            &&& limits.min_width <= plan.size.0 <= limits.max_width
            &&& limits.min_height <= plan.size.1 <= limits.max_height
        }),
        forall|c: usize|
            #![trigger connectors@[c as int]]
            c < connectors@.len() && connectors@[c as int].connected
                && connectors@[c as int].modes@.len() > 0 ==> exists|k: int|
                #![trigger plan.outputs@[k]]
                0 <= k < plan.outputs@.len() && plan.outputs@[k].connector == c,
{
    let ranks = choose|ranks: Seq<usize>| #[trigger]
        is_ranking(connectors@, ranks) && is_plan(
            order,
            connectors@,
            ranks,
            planes@,
            limits,
            settings,
            Ok::<OutputPlan, DrmError>(plan),
        );
    let modes = ranked_modes(connectors@, ranks, settings.modes);
    let here = plan.outputs@[i];
    assert(drivable(connectors@[ranks[i] as int]));
    assert(modes[i] == connectors@[here.connector as int].modes@[here.mode as int]);
    assert(total_width(modes, i + 1) == total_width(modes, i) + modes[i].width);
    lemma_greatest_height(modes, modes.len() as int);
    assert(modes[i].height <= greatest_height(modes, modes.len() as int));
    if i + 1 < plan.outputs@.len() {
        let next = plan.outputs@[i + 1];
        assert(comes_before(connectors@, ranks[i] as int, ranks[i + 1] as int));
    }
    assert forall|c: usize|
        #![trigger connectors@[c as int]]
        c < connectors@.len() && connectors@[c as int].connected
            && connectors@[c as int].modes@.len() > 0 implies exists|k: int|
        #![trigger plan.outputs@[k]]
        0 <= k < plan.outputs@.len() && plan.outputs@[k].connector == c by {
        assert(drivable(connectors@[c as int]));
        let k = ranks.index_of(c);
        assert(plan.outputs@[k].connector == ranks[k]);
    }
}

/// A plan uses no controller and no plane for two displays, and each framebuffer layout
/// that it lists is one that every display's plane takes.
pub proof fn plans_share_no_controller(
    order: ByteOrder,
    connectors: &[ConnectorProbe],
    planes: &[PlaneProbe],
    limits: FramebufferLimits,
    settings: OutputSettings,
    plan: OutputPlan,
    i: int,
    j: int,
)
    requires
        call_ensures(plan_outputs, (order, connectors, planes, limits, &settings), Ok(plan)),
        0 <= i < j < plan.outputs@.len(),
    ensures
        plan.outputs@[i].crtc != plan.outputs@[j].crtc,
        plan.outputs@[i].plane != plan.outputs@[j].plane,
        plan.outputs@[i].connector != plan.outputs@[j].connector,
        plan.modifiers@.len() > 0,
        plan.choices@.len() == plan.outputs@.len(),
        plan.choices@[i].crtc == plan.outputs@[i].crtc,
        plan.choices@[i].plane == plan.outputs@[i].plane,
        forall|m: u64| #[trigger]
            plan.modifiers@.contains(m) ==> plan.choices@[i].modifiers@.contains(m),
{
    let ranks = choose|ranks: Seq<usize>| #[trigger]
        is_ranking(connectors@, ranks) && is_plan(
            order,
            connectors@,
            ranks,
            planes@,
            limits,
            settings,
            Ok::<OutputPlan, DrmError>(plan),
        );
    let candidates = all_choices(
        order,
        connectors@,
        ranks,
        planes@,
        plan.format,
        ranks.len() as int,
    )->Ok_0;
    let picks = choose|picks: Seq<int>| #[trigger]
        is_first_assignment(candidates, picks) && crate::kms::assign::selects(
            candidates,
            picks,
            plan.choices@,
        ) && plan.modifiers@ == crate::kms::assign::shared_modifiers(candidates, picks);
    let a = plan.outputs@[i];
    let b = plan.outputs@[j];
    assert(plan.choices@[i]@ == crate::kms::assign::picked(candidates, picks, i));
    assert(plan.choices@[j]@ == crate::kms::assign::picked(candidates, picks, j));
    let p = picks[i];
    let q = picks[j];
    assert(comes_before(connectors@, ranks[i] as int, ranks[j] as int));
    assert forall|m: u64| #[trigger]
        plan.modifiers@.contains(m) implies plan.choices@[i].modifiers@.contains(m) by {
        crate::kms::assign::shared_modifiers_are_accepted_by_all(candidates, picks, m, i);
    }
}

proof fn lemma_first_profile(
    connectors: Seq<ConnectorProbe>,
    ranks: Seq<usize>,
    profiles: ConnectorSettings<String>,
    from: int,
)
    requires
        0 <= from <= ranks.len(),
    ensures
        match first_profile(connectors, ranks, profiles, from) {
            Some(path) => exists|i: int|
                #![trigger ranks[i]]
                from <= i < ranks.len() && profiles.setting(
                    connectors[ranks[i] as int].name@,
                ) is Some && profiles.setting(connectors[ranks[i] as int].name@)->0@ == path,
            None => forall|i: int|
                #![trigger ranks[i]]
                from <= i < ranks.len() ==> profiles.setting(
                    connectors[ranks[i] as int].name@,
                ) is None,
        },
    decreases ranks.len() - from,
{
    if from < ranks.len() {
        lemma_first_profile(connectors, ranks, profiles, from + 1);
        let here = ranks[from];
    }
}

proof fn lemma_chosen_index(
    order: ByteOrder,
    connectors: Seq<ConnectorProbe>,
    ranks: Seq<usize>,
    planes: Seq<PlaneProbe>,
    formats: Seq<u32>,
    from: int,
)
    requires
        0 <= from,
    ensures
        format_choice(order, connectors, ranks, planes, formats, from) matches FormatChoice::Format(
            index,
        ) ==> from <= index < formats.len(),
    decreases formats.len() - from,
{
    if from < formats.len() {
        lemma_chosen_index(order, connectors, ranks, planes, formats, from + 1);
    }
}

/// High dynamic range is planned only where every driven connector opts in and decodes it,
/// and deep color only where every one opts in; both only with a ten-bit format.
pub proof fn planned_colors_suit_every_display(
    order: ByteOrder,
    connectors: &[ConnectorProbe],
    planes: &[PlaneProbe],
    limits: FramebufferLimits,
    settings: OutputSettings,
    plan: OutputPlan,
    c: usize,
)
    requires
        call_ensures(plan_outputs, (order, connectors, planes, limits, &settings), Ok(plan)),
        c < connectors@.len(),
        connectors@[c as int].connected && connectors@[c as int].modes@.len() > 0,
    ensures
        plan.color_mode == DisplayColorMode::Hdr ==> {
            let policy = settings.color.setting(connectors@[c as int].name@);
            policy is Some && policy->0.hdr && connectors@[c as int].color_caps.hdr_pq
        },
        plan.color_mode == DisplayColorMode::SdrDeepColor ==> {
            let policy = settings.color.setting(connectors@[c as int].name@);
            policy is Some && policy->0.deep_color
        },
        plan.color_mode != DisplayColorMode::Sdr ==> plan.format != XRGB8888 && plan.format
            != ARGB8888,
        plan.color_mode == DisplayColorMode::Sdr ==> plan.format == XRGB8888 || plan.format
            == ARGB8888,
{
    let ranks = choose|ranks: Seq<usize>| #[trigger]
        is_ranking(connectors@, ranks) && is_plan(
            order,
            connectors@,
            ranks,
            planes@,
            limits,
            settings,
            Ok::<OutputPlan, DrmError>(plan),
        );
    let policies = ranked_policies(connectors@, ranks, settings.color);
    let capabilities = ranked_capabilities(connectors@, ranks);
    let asked = asked_mode(connectors@, ranks, settings.color);
    lemma_chosen_index(order, connectors@, ranks, planes@, asked.formats(), 0);
    assert(drivable(connectors@[c as int]));
    let k = ranks.index_of(c);
    assert(ranks[k] == c);
    assert(policies[k] == settings.color.setting(connectors@[c as int].name@));
    assert(capabilities[k] == connectors@[c as int].color_caps);
}

/// The profile of a plan is the one that is configured for a driven connector; without one
/// none is configured for any, or high dynamic range is asked for.
pub proof fn planned_profiles_are_configured(
    order: ByteOrder,
    connectors: &[ConnectorProbe],
    planes: &[PlaneProbe],
    limits: FramebufferLimits,
    settings: OutputSettings,
    plan: OutputPlan,
    c: usize,
)
    requires
        call_ensures(plan_outputs, (order, connectors, planes, limits, &settings), Ok(plan)),
        c < connectors@.len(),
        connectors@[c as int].connected && connectors@[c as int].modes@.len() > 0,
    ensures
        plan.icc_profile matches Some(path) ==> exists|d: int|
            #![trigger connectors@[d]]
            0 <= d < connectors@.len() && connectors@[d].connected && settings.icc.setting(
                connectors@[d].name@,
            ) is Some && settings.icc.setting(connectors@[d].name@)->0@ == path@,
        plan.icc_profile is None && settings.icc.setting(connectors@[c as int].name@) is Some ==> {
            let policy = settings.color.setting(connectors@[c as int].name@);
            policy is Some && policy->0.hdr && connectors@[c as int].color_caps.hdr_pq
        },
        plan.color_mode == DisplayColorMode::Hdr ==> plan.icc_profile is None,
{
    let ranks = choose|ranks: Seq<usize>| #[trigger]
        is_ranking(connectors@, ranks) && is_plan(
            order,
            connectors@,
            ranks,
            planes@,
            limits,
            settings,
            Ok::<OutputPlan, DrmError>(plan),
        );
    let policies = ranked_policies(connectors@, ranks, settings.color);
    let capabilities = ranked_capabilities(connectors@, ranks);
    assert(drivable(connectors@[c as int]));
    let k = ranks.index_of(c);
    assert(ranks[k] == c);
    assert(policies[k] == settings.color.setting(connectors@[c as int].name@));
    assert(capabilities[k] == connectors@[c as int].color_caps);
    lemma_first_profile(connectors@, ranks, settings.icc, 0);
    if plan.icc_profile is Some {
        let path = plan.icc_profile->0@;
        let i = choose|i: int|
            #![trigger ranks[i]]
            0 <= i < ranks.len() && settings.icc.setting(
                connectors@[ranks[i] as int].name@,
            ) is Some && settings.icc.setting(connectors@[ranks[i] as int].name@)->0@ == path;
        let d = ranks[i] as int;
        assert(drivable(connectors@[d]));
        assert(connectors@[d].connected);
    }
}

} // verus!
