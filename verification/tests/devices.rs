use aoscbootstrap::devices::{
    device_nodes, node_action, require_root, DeviceNode, NodeAction, NodeState, PrivilegeError,
};

#[test]
fn eight_device_nodes_with_their_numbers() {
    let nodes = device_nodes();
    let plain: Vec<(&str, u32, u32, u32)> =
        nodes.iter().map(|n| (n.name, n.major, n.minor, n.mode)).collect();
    assert_eq!(
        plain,
        vec![
            ("null", 1, 3, 0o666),
            ("zero", 1, 5, 0o666),
            ("full", 1, 7, 0o666),
            ("random", 1, 8, 0o666),
            ("urandom", 1, 9, 0o666),
            ("tty", 5, 0, 0o600),
            ("console", 5, 1, 0o600),
            ("ptmx", 5, 2, 0o666),
        ]
    );
}

#[test]
fn device_names_are_distinct() {
    let nodes = device_nodes();
    for i in 0..nodes.len() {
        for j in 0..i {
            assert_ne!(nodes[i].name, nodes[j].name);
        }
    }
}

#[test]
fn missing_node_is_made() {
    for node in device_nodes() {
        assert_eq!(node_action(&node, NodeState::Missing), NodeAction::Create);
    }
}

#[test]
fn right_node_is_kept() {
    for node in device_nodes() {
        let found =
            NodeState::CharDevice { major: node.major, minor: node.minor, mode: node.mode };
        assert_eq!(node_action(&node, found), NodeAction::Keep);
    }
}

#[test]
fn wrong_node_is_refused() {
    let null = DeviceNode { name: "null", major: 1, minor: 3, mode: 0o666 };
    let wrong = [
        NodeState::CharDevice { major: 1, minor: 5, mode: 0o666 },
        NodeState::CharDevice { major: 5, minor: 3, mode: 0o666 },
        NodeState::CharDevice { major: 1, minor: 3, mode: 0o600 },
        NodeState::CharDevice { major: 1, minor: 3, mode: 0o644 },
        NodeState::Other,
    ];
    for found in wrong {
        assert_eq!(node_action(&null, found), NodeAction::Refuse);
    }
}

#[test]
fn making_the_nodes_twice_changes_nothing() {
    for node in device_nodes() {
        let mut state = NodeState::Missing;
        if node_action(&node, state) == NodeAction::Create {
            state = NodeState::CharDevice { major: node.major, minor: node.minor, mode: node.mode };
        }
        let after_first = state;
        assert_eq!(node_action(&node, state), NodeAction::Keep);
        assert_eq!(state, after_first);
    }
}

#[test]
fn only_root_may_make_nodes() {
    assert_eq!(require_root(0), Ok(()));
    assert_eq!(require_root(1000), Err(PrivilegeError { euid: 1000 }));
    assert_eq!(require_root(1), Err(PrivilegeError { euid: 1 }));
    assert_eq!(require_root(u32::MAX), Err(PrivilegeError { euid: u32::MAX }));
}
