//! The device nodes of the new root.
//!
//! Eight character devices are made below `/dev`. Making them is safe to
//! repeat: a node that is already there with the right numbers and mode
//! is kept, and anything else under one of the names is refused.

use vstd::prelude::*;

verus! {

/// A character device that the new root needs.
#[derive(Clone, Copy, Debug, PartialEq, Eq)]
pub struct DeviceNode {
    /// File name below `/dev`.
    pub name: &'static str,
    /// Major device number.
    pub major: u32,
    /// Minor device number.
    pub minor: u32,
    /// Permission bits.
    pub mode: u32,
}

/// What lies at the place of a device node.
#[derive(Clone, Copy, Debug, PartialEq, Eq, Structural)]
pub enum NodeState {
    /// Nothing.
    Missing,
    /// A character device with these numbers and permission bits.
    CharDevice { major: u32, minor: u32, mode: u32 },
    /// A file of another kind.
    Other,
}

/// What to do about a device node.
#[derive(Clone, Copy, Debug, PartialEq, Eq, Structural)]
pub enum NodeAction {
    /// Make the node.
    Create,
    /// Leave the node as it is.
    Keep,
    /// Give up: the place is taken by something else.
    Refuse,
}

/// The caller lacks the privilege to make device nodes.
#[derive(Clone, Copy, Debug, PartialEq, Eq, Structural)]
pub struct PrivilegeError {
    /// The effective user id of the caller.
    pub euid: u32,
}

/// Permission bits of a device that everyone may read and write.
pub const MODE_SHARED: u32 = 0o666;

/// Permission bits of a device that only its owner may read and write.
pub const MODE_OWNER: u32 = 0o600;

/// The device nodes of the new root, in the order in which they are made.
pub open spec fn device_table() -> Seq<DeviceNode> {
    seq![
        DeviceNode { name: "null", major: 1, minor: 3, mode: MODE_SHARED },
        DeviceNode { name: "zero", major: 1, minor: 5, mode: MODE_SHARED },
        DeviceNode { name: "full", major: 1, minor: 7, mode: MODE_SHARED },
        DeviceNode { name: "random", major: 1, minor: 8, mode: MODE_SHARED },
        DeviceNode { name: "urandom", major: 1, minor: 9, mode: MODE_SHARED },
        DeviceNode { name: "tty", major: 5, minor: 0, mode: MODE_OWNER },
        DeviceNode { name: "console", major: 5, minor: 1, mode: MODE_OWNER },
        DeviceNode { name: "ptmx", major: 5, minor: 2, mode: MODE_SHARED },
    ]
}

/// The state of a place where `node` has been made.
pub open spec fn made(node: DeviceNode) -> NodeState {
    NodeState::CharDevice { major: node.major, minor: node.minor, mode: node.mode }
}

/// What to do about `node`, given what lies at its place.
pub open spec fn action_for(node: DeviceNode, found: NodeState) -> NodeAction {
    match found {
        NodeState::Missing => NodeAction::Create,
        NodeState::CharDevice { major, minor, mode } => if major == node.major && minor
            == node.minor && mode == node.mode {
            NodeAction::Keep
        } else {
            NodeAction::Refuse
        },
        NodeState::Other => NodeAction::Refuse,
    }
}

/// What lies at the place of `node` once `action` is carried out.
pub open spec fn state_after(node: DeviceNode, found: NodeState, action: NodeAction) -> NodeState {
    match action {
        NodeAction::Create => made(node),
        NodeAction::Keep => found,
        NodeAction::Refuse => found,
    }
}

/// The device nodes of the new root, in the order in which they are made.
pub fn device_nodes() -> (nodes: Vec<DeviceNode>)
    ensures
        nodes@ == device_table(),
{
    let mut nodes: Vec<DeviceNode> = Vec::new();
    nodes.push(DeviceNode { name: "null", major: 1, minor: 3, mode: MODE_SHARED });
    nodes.push(DeviceNode { name: "zero", major: 1, minor: 5, mode: MODE_SHARED });
    nodes.push(DeviceNode { name: "full", major: 1, minor: 7, mode: MODE_SHARED });
    nodes.push(DeviceNode { name: "random", major: 1, minor: 8, mode: MODE_SHARED });
    nodes.push(DeviceNode { name: "urandom", major: 1, minor: 9, mode: MODE_SHARED });
    nodes.push(DeviceNode { name: "tty", major: 5, minor: 0, mode: MODE_OWNER });
    nodes.push(DeviceNode { name: "console", major: 5, minor: 1, mode: MODE_OWNER });
    nodes.push(DeviceNode { name: "ptmx", major: 5, minor: 2, mode: MODE_SHARED });
    assert(nodes@ =~= device_table());
    nodes
}

/// What to do about `node`, given what lies at its place: make it where
/// nothing is there, keep a character device with the same numbers and
/// permission bits, and refuse anything else.
pub fn node_action(node: &DeviceNode, found: NodeState) -> (action: NodeAction)
    ensures
        action == action_for(*node, found),
{
    match found {
        NodeState::Missing => NodeAction::Create,
        NodeState::CharDevice { major, minor, mode } => {
            if major == node.major && minor == node.minor && mode == node.mode {
                NodeAction::Keep
            } else {
                NodeAction::Refuse
            }
        },
        NodeState::Other => NodeAction::Refuse,
    }
}

/// Checks that the caller may make device nodes, mount and change root:
/// only the user with effective id 0 may.
pub fn require_root(euid: u32) -> (checked: Result<(), PrivilegeError>)
    ensures
        checked == if euid == 0 {
            Ok::<(), PrivilegeError>(())
        } else {
            Err::<(), PrivilegeError>(PrivilegeError { euid })
        },
{
    if euid == 0 {
        Ok(())
    } else {
        Err(PrivilegeError { euid })
    }
}

/// Deciding twice is deciding once: after the action for a node is
/// carried out, the action for the same node changes nothing. Where the
/// first action does not refuse, the second keeps the node.
pub proof fn lemma_node_action_idempotent(node: DeviceNode, found: NodeState)
    ensures
        ({
            let first = action_for(node, found);
            let then = state_after(node, found, first);
            let second = action_for(node, then);
            &&& state_after(node, then, second) == then
            &&& first != NodeAction::Refuse ==> second == NodeAction::Keep && then == made(node)
            &&& first == NodeAction::Refuse ==> second == NodeAction::Refuse
        }),
{
}

/// The names of the device nodes differ from one another.
pub proof fn lemma_device_names_differ()
    ensures
        device_table().len() == 8,
        forall|i: int, j: int|
            0 <= i < j < 8 ==> (#[trigger] device_table()[i]).name@ != (
            #[trigger] device_table()[j]).name@,
{
    reveal_strlit("null");
    reveal_strlit("zero");
    reveal_strlit("full");
    reveal_strlit("random");
    reveal_strlit("urandom");
    reveal_strlit("tty");
    reveal_strlit("console");
    reveal_strlit("ptmx");
    let t = device_table();
    assert(t[0].name@.len() == 4 && t[0].name@[0] == 'n');
    assert(t[1].name@.len() == 4 && t[1].name@[0] == 'z');
    assert(t[2].name@.len() == 4 && t[2].name@[0] == 'f');
    assert(t[3].name@.len() == 6);
    assert(t[4].name@.len() == 7 && t[4].name@[0] == 'u');
    assert(t[5].name@.len() == 3);
    assert(t[6].name@.len() == 7 && t[6].name@[0] == 'c');
    assert(t[7].name@.len() == 4 && t[7].name@[0] == 'p');
}

} // verus!
