use wardenkernel::adversarial::run_adversarial_tests;
use wardenkernel::capability::{
    run_tests, Capability, CapabilityToken, DELEGATION_DEPTH_EXCEEDED, MAX_DELEGATION_DEPTH,
    PERMISSION_ESCALATION_DENIED,
};

const READ: u32 = 1 << 0;
const WRITE: u32 = 1 << 1;
const DELETE: u32 = 1 << 2;

#[test]
fn readme_delegation_chain() {
    let root_token = CapabilityToken::new(0xDB_01, READ | WRITE | DELETE);
    let subagent_token = root_token.delegate(READ | WRITE).unwrap();
    let tool_token = subagent_token.delegate(READ).unwrap();
    assert!(tool_token.delegate(READ | DELETE).is_err());
    assert_eq!(tool_token, CapabilityToken { resource: 0xDB_01, permissions: READ, depth: 2 });
}

#[test]
fn token_new_is_root() {
    let t = CapabilityToken::new(3, 0b1010);
    assert_eq!(t.resource, 3);
    assert_eq!(t.permissions, 0b1010);
    assert_eq!(t.depth, 0);
}

#[test]
fn token_escalation_error() {
    let t = CapabilityToken::new(1, READ);
    assert_eq!(t.delegate(READ | WRITE), Err(PERMISSION_ESCALATION_DENIED));
    assert_eq!(
        PERMISSION_ESCALATION_DENIED,
        "PermissionEscalationDenied: requested rights exceed parent permissions"
    );
}

#[test]
fn token_depth_limit() {
    let mut t = CapabilityToken::new(1, READ | WRITE);
    for d in 0..MAX_DELEGATION_DEPTH {
        assert_eq!(t.depth, d);
        t = t.delegate(READ | WRITE).unwrap();
    }
    assert_eq!(t.depth, MAX_DELEGATION_DEPTH);
    assert_eq!(t.delegate(READ), Err(DELEGATION_DEPTH_EXCEEDED));
    // an escalation is reported before the depth
    assert_eq!(t.delegate(0xFF), Err(PERMISSION_ESCALATION_DENIED));
}

#[test]
fn token_identity_and_empty_delegation() {
    let t = CapabilityToken::new(8, READ | DELETE);
    assert_eq!(t.delegate(READ | DELETE).unwrap().permissions, READ | DELETE);
    let zero = t.delegate(0).unwrap();
    assert_eq!(zero.permissions, 0);
    assert!(zero.delegate(READ).is_err());
    assert!(zero.delegate(0).is_ok());
}

#[test]
fn token_chain_only_narrows() {
    let mut chain = vec![CapabilityToken::new(77, 0xF0F0)];
    for requested in [0xF0F0u32, 0x70F0, 0x7030, 0x0030, 0x0010, 0] {
        let next = chain.last().unwrap().delegate(requested).unwrap();
        chain.push(next);
    }
    for (j, t) in chain.iter().enumerate() {
        assert_eq!(t.permissions & !chain[0].permissions, 0);
        assert_eq!(t.resource, 77);
        assert_eq!(t.depth as usize, j);
    }
}

#[test]
fn capability_new_and_delegate() {
    let parent = Capability::new(101, 7);
    assert_eq!(parent, Capability { resource_id: 101, permissions: 7, delegation_depth: 0 });
    let child = parent.delegate(3).unwrap();
    assert_eq!(child, Capability { resource_id: 101, permissions: 3, delegation_depth: 1 });
    assert_eq!(child.delegate(4), Err(PERMISSION_ESCALATION_DENIED));
}

#[test]
fn capability_depth_saturates() {
    let c = Capability { resource_id: 1, permissions: 1, delegation_depth: u32::MAX };
    assert_eq!(c.delegate(1).unwrap().delegation_depth, u32::MAX);
}

#[test]
fn capability_scenarios_pass() {
    assert!(run_tests());
}

#[test]
fn adversarial_scenarios_pass() {
    assert!(run_adversarial_tests());
}
