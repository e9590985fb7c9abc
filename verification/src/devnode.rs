//! Device numbers of character devices.

use vstd::prelude::*;

verus! {

/// The number of a device in the form that the kernel reports it: the low twelve
/// bits of the major number and the low eight of the minor number in front, the
/// rest behind them.
pub open spec fn device_number(major: u32, minor: u32) -> u64 {
    ((major as u64 & 0x0000_0fff) << 8) | ((major as u64 & 0xffff_f000) << 32) | (minor as u64
        & 0x0000_00ff) | ((minor as u64 & 0xffff_ff00) << 12)
}

/// The major number of a device.
pub open spec fn device_major(device: u64) -> u64 {
    ((device & 0x0000_0000_000f_ff00) >> 8) | ((device & 0xffff_f000_0000_0000) >> 32)
}

/// The minor number of a device.
pub open spec fn device_minor(device: u64) -> u64 {
    (device & 0x0000_0000_0000_00ff) | ((device & 0x0000_0fff_fff0_0000) >> 12)
}

/// `libc::makedev` of the Linux targets: puts the bits of the two numbers where
/// the kernel keeps them.
#[verifier::external_body]
pub(crate) fn make_device(major: u32, minor: u32) -> (device: u64)
    ensures
        device == device_number(major, minor),
{
    libc::makedev(major, minor)
}

/// `libc::major` of the Linux targets: takes the bits of the major number out of
/// a device's number.
#[verifier::external_body]
fn major_of(device: u64) -> (major: u32)
    ensures
        major == device_major(device),
{
    libc::major(device)
}

/// `libc::minor` of the Linux targets: takes the bits of the minor number out of
/// a device's number.
#[verifier::external_body]
fn minor_of(device: u64) -> (minor: u32)
    ensures
        minor == device_minor(device),
{
    libc::minor(device)
}

/// Two devices with the same number are the same.
pub proof fn device_numbers_are_unique(major: u32, minor: u32, other_major: u32, other_minor: u32)
    requires
        device_number(major, minor) == device_number(other_major, other_minor),
    ensures
        major == other_major,
        minor == other_minor,
{
    device_number_parts(major, minor);
    device_number_parts(other_major, other_minor);
}

/// A device's number tells its major and minor number.
pub proof fn device_number_parts(major: u32, minor: u32)
    ensures
        device_major(device_number(major, minor)) == major,
        device_minor(device_number(major, minor)) == minor,
{
    let a = major as u64;
    let b = minor as u64;
    let device = ((a & 0x0000_0fff) << 8) | ((a & 0xffff_f000) << 32) | (b & 0x0000_00ff) | ((b
        & 0xffff_ff00) << 12);
    assert(((device & 0x0000_0000_000f_ff00) >> 8) | ((device & 0xffff_f000_0000_0000) >> 32) == a
        && (device & 0x0000_0000_0000_00ff) | ((device & 0x0000_0fff_fff0_0000) >> 12) == b)
        by (bit_vector)
        requires
            a <= 0xffff_ffff,
            b <= 0xffff_ffff,
            device == ((a & 0x0000_0fff) << 8) | ((a & 0xffff_f000) << 32) | (b & 0x0000_00ff) | ((
            b & 0xffff_ff00) << 12),
    ;
}

/// The major and minor number of a device make up its number again.
pub proof fn device_parts_make_the_number(device: u64)
    ensures
        device_major(device) <= u32::MAX,
        device_minor(device) <= u32::MAX,
        device_number(device_major(device) as u32, device_minor(device) as u32) == device,
{
    let a = device_major(device);
    let b = device_minor(device);
    assert(a <= 0xffff_ffff && b <= 0xffff_ffff && ((a & 0x0000_0fff) << 8) | ((a & 0xffff_f000)
        << 32) | (b & 0x0000_00ff) | ((b & 0xffff_ff00) << 12) == device) by (bit_vector)
        requires
            a == ((device & 0x0000_0000_000f_ff00) >> 8) | ((device & 0xffff_f000_0000_0000) >> 32),
            b == (device & 0x0000_0000_0000_00ff) | ((device & 0x0000_0fff_fff0_0000) >> 12),
    ;
}

/// A device node by its two numbers.
#[derive(Debug, Clone, Copy, PartialEq, Eq, Structural)]
pub struct DrmNode {
    pub major: u32,
    pub minor: u32,
}

/// The bits of a file's mode that say what kind of file it is.
pub const FILE_KIND: u32 = 0o170000;

/// The file kind of character devices.
pub const CHARACTER_DEVICE: u32 = 0o020000;

/// The node of an open display card, from its file mode and device number. Only
/// character devices are nodes.
pub fn card_node(mode: u32, device: u64) -> (node: Option<DrmNode>)
    ensures
        mode & FILE_KIND != CHARACTER_DEVICE ==> node is None,
        mode & FILE_KIND == CHARACTER_DEVICE ==> node == Some(
            DrmNode { major: device_major(device) as u32, minor: device_minor(device) as u32 },
        ),
{
    if mode & FILE_KIND != CHARACTER_DEVICE {
        return None;
    }
    proof {
        device_parts_make_the_number(device);
    }
    Some(DrmNode { major: major_of(device), minor: minor_of(device) })
}

/// The device to advertise for an open display card: its own.
pub fn card_device(mode: u32, device: u64) -> (advertised: Option<u64>)
    ensures
        advertised == if mode & FILE_KIND == CHARACTER_DEVICE {
            Some(device)
        } else {
            None
        },
{
    match card_node(mode, device) {
        Some(node) => {
            proof {
                device_parts_make_the_number(device);
            }
            Some(make_device(node.major, node.minor))
        },
        None => None,
    }
}

/// The device to advertise for a renderer: its render node, or else its primary
/// node.
pub fn renderer_device(render: Option<DrmNode>, primary: Option<DrmNode>) -> (advertised: Option<
    u64,
>)
    ensures
        advertised == match (render, primary) {
            (Some(node), _) => Some(device_number(node.major, node.minor)),
            (None, Some(node)) => Some(device_number(node.major, node.minor)),
            (None, None) => None,
        },
{
    match render {
        Some(node) => Some(make_device(node.major, node.minor)),
        None => match primary {
            Some(node) => Some(make_device(node.major, node.minor)),
            None => None,
        },
    }
}

/// An open card is advertised by its own device number, as long as it is a character device,
/// and is known by the two parts of that number.
pub proof fn cards_are_advertised_as_themselves(
    mode: u32,
    device: u64,
    advertised: Option<u64>,
    node: Option<DrmNode>,
)
    requires
        call_ensures(card_device, (mode, device), advertised),
        call_ensures(card_node, (mode, device), node),
    ensures
        mode & 0o170000u32 == 0o020000u32 ==> advertised == Some(device) && node is Some
            && device_number(node->0.major, node->0.minor) == device,
        mode & 0o170000u32 != 0o020000u32 ==> advertised is None && node is None,
{
    device_parts_make_the_number(device);
}

/// A renderer is advertised by its render node where it has one, otherwise by its primary
/// node; the number that is advertised tells that node.
pub proof fn render_nodes_come_first(
    render: Option<DrmNode>,
    primary: Option<DrmNode>,
    advertised: Option<u64>,
)
    requires
        call_ensures(renderer_device, (render, primary), advertised),
    ensures
        advertised is None <==> render is None && primary is None,
        render matches Some(node) ==> device_major(advertised->0) == node.major && device_minor(
            advertised->0,
        ) == node.minor,
        render is None && primary is Some ==> device_major(advertised->0) == primary->0.major
            && device_minor(advertised->0) == primary->0.minor,
{
    if render is Some {
        device_number_parts(render->0.major, render->0.minor);
    } else if primary is Some {
        device_number_parts(primary->0.major, primary->0.minor);
    }
}

} // verus!
