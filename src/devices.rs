use vstd::prelude::*;
use vstd::string::StringExecFns;

use crate::types::DeviceInfo;

verus! {

/// Capability bit: single-planar video capture.
pub const CAP_VIDEO_CAPTURE: u32 = 0x0000_0001;

/// Capability bit: multi-planar video capture.
pub const CAP_VIDEO_CAPTURE_MPLANE: u32 = 0x0000_1000;

/// Capability bit: streaming I/O.
pub const CAP_STREAMING: u32 = 0x0400_0000;

/// What enumeration learnt of one capture node that could be opened.
#[derive(Clone, Debug)]
pub struct VideoNode {
    /// Device path, which identifies the node.
    pub path: String,
    /// Name the node reports, if any.
    pub name: Option<String>,
    /// Card name from the capability query.
    pub card: String,
    /// Capability bits from the capability query.
    pub capabilities: u32,
}

/// A node that can capture video by streaming.
pub open spec fn usable(caps: u32) -> bool {
    (caps & CAP_VIDEO_CAPTURE != 0 || caps & CAP_VIDEO_CAPTURE_MPLANE != 0) && caps & CAP_STREAMING
        != 0
}

pub open spec fn base_name(n: VideoNode) -> Seq<char> {
    match n.name {
        Some(s) => s@,
        None => n.card@,
    }
}

/// The usable nodes, in order.
pub open spec fn usable_nodes(nodes: Seq<VideoNode>) -> Seq<VideoNode>
    decreases nodes.len(),
{
    if nodes.len() == 0 {
        nodes
    } else if usable(nodes.last().capabilities) {
        usable_nodes(nodes.drop_last()).push(nodes.last())
    } else {
        usable_nodes(nodes.drop_last())
    }
}

/// How many of the nodes carry the base name `name`.
pub open spec fn name_count(nodes: Seq<VideoNode>, name: Seq<char>) -> nat
    decreases nodes.len(),
{
    if nodes.len() == 0 {
        0
    } else {
        name_count(nodes.drop_last(), name) + if base_name(nodes.last()) == name {
            1nat
        } else {
            0
        }
    }
}

/// The part of a path after its last `/` (all of it where there is none).
pub open spec fn after_last_slash(path: Seq<char>) -> Seq<char>
    decreases path.len(),
{
    if path.len() == 0 {
        path
    } else if path.last() == '/' {
        Seq::empty()
    } else {
        after_last_slash(path.drop_last()).push(path.last())
    }
}

/// The display name of node `n` among `nodes`: its base name, followed
/// by ` (<last path segment>)` where another node has the same name.
pub open spec fn display_name(nodes: Seq<VideoNode>, n: VideoNode) -> Seq<char> {
    if name_count(nodes, base_name(n)) > 1 {
        base_name(n) + " ("@ + after_last_slash(n.path@) + ")"@
    } else {
        base_name(n)
    }
}

/// Relies on str::rsplit: its first piece is the text after the last
/// separator, or the whole text where there is none.
#[verifier::external_body]
fn last_segment(path: &str) -> (r: String)
    ensures
        r@ == after_last_slash(path@),
{
    path.rsplit('/').next().unwrap_or(path).to_string()
}

fn node_name(n: &VideoNode) -> (r: String)
    ensures
        r@ == base_name(*n),
{
    match &n.name {
        Some(s) => s.clone(),
        None => n.card.clone(),
    }
}

fn copy_node(n: &VideoNode) -> (r: VideoNode)
    ensures
        r == *n,
{
    let name = match &n.name {
        Some(s) => Some(s.clone()),
        None => None,
    };
    VideoNode { path: n.path.clone(), name, card: n.card.clone(), capabilities: n.capabilities }
}

fn count_name(nodes: &Vec<VideoNode>, name: &String) -> (r: usize)
    ensures
        r == name_count(nodes@, name@),
{
    let mut count: usize = 0;
    let mut i: usize = 0;
    while i < nodes.len()
        invariant
            i <= nodes.len(),
            count == name_count(nodes@.subrange(0, i as int), name@),
            count <= i,
        decreases nodes.len() - i,
    {
        let ghost pre = nodes@.subrange(0, i as int + 1);
        assert(pre.drop_last() =~= nodes@.subrange(0, i as int));
        let other = node_name(&nodes[i]);
        if other == *name {
            count += 1;
        }
        i += 1;
    }
    assert(nodes@.subrange(0, nodes.len() as int) =~= nodes@);
    count
}

/// The capture devices among the enumerated nodes: those that capture
/// video by streaming, named by what the node reports (else the card
/// name), with the last path segment appended to names that repeat.
pub fn list_video_devices(nodes: &Vec<VideoNode>) -> (r: Vec<DeviceInfo>)
    ensures
        r.len() == usable_nodes(nodes@).len(),
        forall|i: int|
            0 <= i < r.len() ==> {
                &&& (#[trigger] r@[i]).id@ == usable_nodes(nodes@)[i].path@
                &&& r@[i].name@ == display_name(usable_nodes(nodes@), usable_nodes(nodes@)[i])
            },
{
    let mut kept: Vec<VideoNode> = Vec::new();
    let mut i: usize = 0;
    while i < nodes.len()
        invariant
            i <= nodes.len(),
            kept@ == usable_nodes(nodes@.subrange(0, i as int)),
        decreases nodes.len() - i,
    {
        let ghost pre = nodes@.subrange(0, i as int + 1);
        assert(pre.drop_last() =~= nodes@.subrange(0, i as int));
        assert(pre.last() == nodes@[i as int]);
        let caps = nodes[i].capabilities;
        let capture = caps & CAP_VIDEO_CAPTURE != 0 || caps & CAP_VIDEO_CAPTURE_MPLANE != 0;
        if capture && caps & CAP_STREAMING != 0 {
            kept.push(copy_node(&nodes[i]));
        }
        i += 1;
    }
    assert(nodes@.subrange(0, nodes.len() as int) =~= nodes@);
    let mut out: Vec<DeviceInfo> = Vec::new();
    let mut j: usize = 0;
    while j < kept.len()
        invariant
            j <= kept.len(),
            kept@ == usable_nodes(nodes@),
            out.len() == j,
            forall|k: int|
                0 <= k < j ==> {
                    &&& (#[trigger] out@[k]).id@ == kept@[k].path@
                    &&& out@[k].name@ == display_name(kept@, kept@[k])
                },
        decreases kept.len() - j,
    {
        let n = &kept[j];
        let name = node_name(n);
        let display = if count_name(&kept, &name) > 1 {
            let suffix = last_segment(n.path.as_str());
            let mut s = name.clone();
            s.append(" (");
            s.append(suffix.as_str());
            s.append(")");
            s
        } else {
            name
        };
        assert(display@ == display_name(kept@, kept@[j as int]));
        let ghost before = out@;
        out.push(DeviceInfo { id: n.path.clone(), name: display });
        assert forall|k: int| 0 <= k < j + 1 implies {
            &&& (#[trigger] out@[k]).id@ == kept@[k].path@
            &&& out@[k].name@ == display_name(kept@, kept@[k])
        } by {
            if k < j {
                assert(out@[k] == before[k]);
            }
        }
        j += 1;
    }
    out
}

} // verus!
