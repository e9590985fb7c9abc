//! What the rest of the compositor is told about the outputs.

use vstd::prelude::*;
use crate::geometry::Point;
use crate::kms::backend::DrmBackend;
use crate::kms::color::{DisplayColorMode, EdidColorCapabilities};
use crate::kms::modes::{refresh_mhz_of, OutputMode};
use crate::kms::output::{Output, Scale};

verus! {

/// An output as the rest of the compositor sees it.
#[derive(Debug)]
pub struct OutputInfo {
    pub connector: String,
    pub mode: OutputMode,
    pub scale: Scale,
    /// Where the output's corner is on the desktop.
    pub logical_origin: Point,
    pub available_modes: Vec<OutputMode>,
    pub color_caps: EdidColorCapabilities,
}

/// The session color pipeline in effect.
#[derive(Debug, Clone, Copy, PartialEq, Eq, Structural)]
pub enum ColorPipeline {
    Sdr,
    SdrDeepColor,
    Hdr,
}

/// Whether `info` describes the one output of a display whose modes and colors
/// are managed elsewhere.
pub open spec fn describes_only(
    info: OutputInfo,
    connector: Seq<char>,
    physical_size: (u32, u32),
    scale: Scale,
) -> bool {
    &&& info.connector@ == connector
    &&& info.mode == (OutputMode {
        width: physical_size.0 as i32,
        height: physical_size.1 as i32,
        refresh_mhz: 0,
    })
    &&& info.scale == scale
    &&& info.logical_origin == (Point { x: 0, y: 0 })
    &&& info.available_modes@.len() == 0
    &&& info.color_caps == (EdidColorCapabilities { hdr_pq: false })
}

/// Describe the one output of a display whose modes and colors are managed
/// elsewhere.
pub fn only_output(connector: &str, physical_size: (u32, u32), scale: Scale) -> (infos: Vec<
    OutputInfo,
>)
    ensures
        infos.len() == 1,
        describes_only(infos@[0], connector@, physical_size, scale),
{
    let mut infos: Vec<OutputInfo> = Vec::new();
    infos.push(
        OutputInfo {
            connector: connector.to_owned(),
            mode: OutputMode {
                width: #[verifier::truncate]
                (physical_size.0 as i32),
                height: #[verifier::truncate]
                (physical_size.1 as i32),
                refresh_mhz: 0,
            },
            scale,
            logical_origin: Point { x: 0, y: 0 },
            available_modes: Vec::new(),
            color_caps: EdidColorCapabilities { hdr_pq: false },
        },
    );
    infos
}

/// Whether `info` describes `output`.
pub open spec fn describes(info: OutputInfo, output: Output) -> bool {
    &&& info.connector@ == output.name@
    &&& info.mode == (OutputMode {
        width: output.width as i32,
        height: output.height as i32,
        refresh_mhz: refresh_mhz_of(output.vrefresh),
    })
    &&& info.scale == output.scale
    &&& info.logical_origin == (Point { x: output.x as i32, y: output.y as i32 })
    &&& info.available_modes@ == output.available_modes@
    &&& info.color_caps == output.color_caps
}

fn copy_modes(modes: &Vec<OutputMode>) -> (copy: Vec<OutputMode>)
    ensures
        copy@ == modes@,
{
    let mut copy: Vec<OutputMode> = Vec::new();
    let mut index: usize = 0;
    while index < modes.len()
        invariant
            index <= modes.len(),
            copy@ == modes@.take(index as int),
        decreases modes.len() - index,
    {
        copy.push(modes[index]);
        index += 1;
    }
    assert(modes@.take(modes.len() as int) =~= modes@);
    copy
}

impl DrmBackend {
    /// Describe the driven outputs, in their order on the desktop.
    pub fn output_infos(&self) -> (infos: Vec<OutputInfo>)
        ensures
            infos.len() == self.displays.outputs.len(),
            forall|i: int|
                0 <= i < infos.len() ==> describes(#[trigger] infos@[i], self.displays.outputs@[i]),
    {
        let mut infos: Vec<OutputInfo> = Vec::new();
        let mut index: usize = 0;
        while index < self.displays.outputs.len()
            invariant
                index <= self.displays.outputs.len(),
                infos.len() == index,
                forall|i: int|
                    0 <= i < infos.len() ==> describes(
                        #[trigger] infos@[i],
                        self.displays.outputs@[i],
                    ),
            decreases self.displays.outputs.len() - index,
        {
            let output = &self.displays.outputs[index];
            infos.push(
                OutputInfo {
                    connector: output.name.clone(),
                    mode: OutputMode::advertised(output.width, output.height, output.vrefresh),
                    scale: output.scale,
                    logical_origin: Point { x: output.x as i32, y: output.y as i32 },
                    available_modes: copy_modes(&output.available_modes),
                    color_caps: output.color_caps,
                },
            );
            index += 1;
        }
        infos
    }

    /// The color pipeline that the outputs were set up for.
    pub fn color_pipeline(&self) -> (pipeline: ColorPipeline)
        ensures
            pipeline == match self.displays.color_mode {
                DisplayColorMode::Sdr => ColorPipeline::Sdr,
                DisplayColorMode::SdrDeepColor => ColorPipeline::SdrDeepColor,
                DisplayColorMode::Hdr => ColorPipeline::Hdr,
            },
    {
        match self.displays.color_mode {
            DisplayColorMode::Sdr => ColorPipeline::Sdr,
            DisplayColorMode::SdrDeepColor => ColorPipeline::SdrDeepColor,
            DisplayColorMode::Hdr => ColorPipeline::Hdr,
        }
    }
}

/// Each output is described under its own name, in its own mode, at its own place and
/// scale, in order.
pub proof fn outputs_are_reported_as_they_are(
    backend: DrmBackend,
    infos: Vec<OutputInfo>,
    index: int,
)
    requires
        call_ensures(DrmBackend::output_infos, (&backend,), infos),
        0 <= index < backend.displays.outputs@.len(),
        backend.displays.outputs@[index].x <= i32::MAX,
        backend.displays.outputs@[index].y <= i32::MAX,
    ensures
        infos@.len() == backend.displays.outputs@.len(),
        ({
            let output = backend.displays.outputs@[index];
            let info = infos@[index];
            &&& info.connector@ == output.name@
            &&& info.mode.width == output.width && info.mode.height == output.height
            &&& 1000 * output.vrefresh <= u32::MAX ==> info.mode.refresh_mhz == 1000
                * output.vrefresh
            &&& info.scale.bits == output.scale.bits
            &&& info.logical_origin.x == output.x && info.logical_origin.y == output.y
            &&& info.available_modes@ == output.available_modes@
            &&& info.color_caps.hdr_pq == output.color_caps.hdr_pq
        }),
{
    assert(describes(infos@[index], backend.displays.outputs@[index]));
}

/// A display that is managed elsewhere is one output of its own size and scale at the
/// corner, with no modes to choose from; the pipeline that is told is the one in effect.
pub proof fn only_outputs_fill_the_desktop(
    connector: &str,
    size: (u32, u32),
    scale: Scale,
    infos: Vec<OutputInfo>,
    backend: DrmBackend,
    pipeline: ColorPipeline,
)
    requires
        size.0 <= i32::MAX && size.1 <= i32::MAX,
        call_ensures(only_output, (connector, size, scale), infos),
        call_ensures(DrmBackend::color_pipeline, (&backend,), pipeline),
    ensures
        infos@.len() == 1,
        infos@[0].connector@ == connector@,
        infos@[0].mode.width == size.0 && infos@[0].mode.height == size.1,
        infos@[0].scale == scale,
        infos@[0].logical_origin.x == 0 && infos@[0].logical_origin.y == 0,
        infos@[0].available_modes@.len() == 0,
        pipeline == ColorPipeline::Hdr <==> backend.displays.color_mode == DisplayColorMode::Hdr,
        pipeline == ColorPipeline::Sdr <==> backend.displays.color_mode == DisplayColorMode::Sdr,
{
}

} // verus!
