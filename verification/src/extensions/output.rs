//! Logical output geometry for clients.

use std::collections::HashMap;
use vstd::prelude::*;
use crate::geometry::{Point, Size};
use crate::seqs::remove_value;
use crate::text::text_has_nul;

verus! {

/// Which event ends a batch of logical geometry.
#[derive(Debug, Clone, Copy, PartialEq, Eq, Structural)]
pub enum XdgOutputBatchDone {
    XdgOutput,
    WlOutput,
}

/// Decide which event ends a batch. From version three on it is a second one of
/// the core output, where that has one.
pub fn xdg_output_batch_done(xdg_version: i32, wl_output_version: i32) -> (done: XdgOutputBatchDone)
    ensures
        done == if xdg_version >= 3 && wl_output_version >= 2 {
            XdgOutputBatchDone::WlOutput
        } else {
            XdgOutputBatchDone::XdgOutput
        },
{
    if xdg_version >= 3 && wl_output_version >= 2 {
        XdgOutputBatchDone::WlOutput
    } else {
        XdgOutputBatchDone::XdgOutput
    }
}

/// Decide which event ends a batch for an output object that may be gone.
pub fn finish_xdg_output_batch(xdg_version: i32, wl_output_version: Option<i32>) -> (done:
    XdgOutputBatchDone)
    ensures
        done == match wl_output_version {
            Some(version) if xdg_version >= 3 && version >= 2 => XdgOutputBatchDone::WlOutput,
            _ => XdgOutputBatchDone::XdgOutput,
        },
{
    let version: i32 = match wl_output_version {
        Some(version) => version,
        None => 0,
    };
    xdg_output_batch_done(xdg_version, version)
}

/// Where an output is on the desktop.
#[derive(Debug, Clone, Copy, PartialEq, Eq, Structural)]
pub struct LogicalGeometry {
    pub origin: Point,
    pub size: Size,
}

/// What a client is told about an output.
#[derive(Debug)]
pub struct XdgOutputDescription {
    pub origin: Point,
    pub size: Size,
    /// The connector's name, for clients that know of names.
    pub name: Option<String>,
}

/// The name of an output that a client is told.
pub open spec fn told_name(connector: Option<Seq<char>>) -> Seq<char> {
    match connector {
        None => "unknown"@,
        Some(name) => if name.contains('\0') {
            "output"@
        } else {
            name
        },
    }
}

/// Describe an output to a client: by its own geometry, or else by the
/// desktop's, or else by a fixed one. From version two on its name is told.
pub fn describe_output(
    info: Option<(&str, LogicalGeometry)>,
    desktop: Option<LogicalGeometry>,
    version: i32,
) -> (description: XdgOutputDescription)
    ensures
        ({
            let geometry = match (info, desktop) {
                (Some((_, geometry)), _) => geometry,
                (None, Some(geometry)) => geometry,
                (None, None) => LogicalGeometry {
                    origin: Point { x: 0, y: 0 },
                    size: Size { w: 1280, h: 720 },
                },
            };
            description.origin == geometry.origin && description.size == geometry.size
        }),
        version < 2 ==> description.name is None,
        version >= 2 ==> {
            &&& description.name matches Some(name)
            &&& name@ == told_name(
                match info {
                    Some((connector, _)) => Some(connector@),
                    None => None,
                },
            )
        },
{
    let geometry = match info {
        Some((_, geometry)) => geometry,
        None => match desktop {
            Some(geometry) => geometry,
            None => LogicalGeometry {
                origin: Point { x: 0, y: 0 },
                size: Size { w: 1280, h: 720 },
            },
        },
    };
    let name = if version >= 2 {
        match info {
            Some((connector, _)) => if text_has_nul(connector) {
                Some("output".to_owned())
            } else {
                Some(connector.to_owned())
            },
            None => Some("unknown".to_owned()),
        }
    } else {
        None
    };
    XdgOutputDescription { origin: geometry.origin, size: geometry.size, name }
}

/// The objects that describe outputs to clients, and the outputs they describe.
#[derive(Debug)]
pub struct XdgOutputs {
    pub resources: Vec<u64>,
    pub links: HashMap<u64, u64>,
}

impl XdgOutputs {
    /// None.
    pub fn new() -> (outputs: XdgOutputs)
        ensures
            outputs.resources@.len() == 0,
            outputs.links@ == Map::<u64, u64>::empty(),
    {
        XdgOutputs { resources: Vec::new(), links: HashMap::new() }
    }

    /// A client asked for the description of an output.
    pub fn add_output(&mut self, resource: u64, output: u64)
        ensures
            final(self).resources@ == old(self).resources@.push(resource),
            final(self).links@ == old(self).links@.insert(resource, output),
    {
        broadcast use vstd::std_specs::hash::group_hash_axioms;

        self.resources.push(resource);
        self.links.insert(resource, output);
    }

    /// A describing object was destroyed.
    pub fn destroy_output(&mut self, resource: u64)
        ensures
            final(self).resources@ == crate::seqs::without(old(self).resources@, resource),
            final(self).links@ == old(self).links@.remove(resource),
    {
        broadcast use vstd::std_specs::hash::group_hash_axioms;

        remove_value(&mut self.resources, resource);
        self.links.remove(&resource);
    }
}

/// A client is told an output's own place and size where they are known.
pub proof fn outputs_are_described_as_they_are(
    connector: &str,
    geometry: LogicalGeometry,
    desktop: Option<LogicalGeometry>,
    version: i32,
    description: XdgOutputDescription,
)
    requires
        call_ensures(
            describe_output,
            (Some((connector, geometry)), desktop, version),
            description,
        ),
    ensures
        description.origin.x == geometry.origin.x && description.origin.y == geometry.origin.y,
        description.size.w == geometry.size.w && description.size.h == geometry.size.h,
        description.name is Some <==> version >= 2,
        description.name is Some && !connector@.contains('\0') ==> description.name->0@
            == connector@,
{
}

/// A description ends with the core output's event only for clients and outputs that
/// both know of that.
pub proof fn batches_end_where_both_sides_know(
    xdg_version: i32,
    wl_output_version: Option<i32>,
    done: XdgOutputBatchDone,
)
    requires
        call_ensures(finish_xdg_output_batch, (xdg_version, wl_output_version), done),
    ensures
        done == XdgOutputBatchDone::WlOutput <==> xdg_version > 2 && wl_output_version is Some
            && wl_output_version->0 > 1,
{
}

} // verus!
