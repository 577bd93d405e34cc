//! Capability tokens and the delegation rule: a delegated token can only narrow.
use vstd::prelude::*;

verus! {

const READ: u32 = 1 << 0;
const WRITE: u32 = 1 << 1;
const EXEC: u32 = 1 << 2;

/// Highest delegation depth a `CapabilityToken` may reach: a token at this
/// depth can no longer delegate.
pub const MAX_DELEGATION_DEPTH: u8 = 8;

/// Error returned when a delegation asks for permission bits the parent does not hold.
pub const PERMISSION_ESCALATION_DENIED: &'static str =
    "PermissionEscalationDenied: requested rights exceed parent permissions";

/// Error returned when a token already at `MAX_DELEGATION_DEPTH` is asked to delegate.
pub const DELEGATION_DEPTH_EXCEEDED: &'static str =
    "DelegationDepthExceeded: token has reached the maximum delegation depth";

/// `requested` asks for no permission bit outside `held`.
pub open spec fn mask_within(requested: u32, held: u32) -> bool {
    requested & !held == 0
}

/// Represents access permissions on a resource.
#[derive(Debug, Clone, Copy, PartialEq, Eq, Structural)]
pub struct Capability {
    /// Identifier for the underlying resource (e.g., memory range, channel, object ID).
    pub resource_id: u64,
    /// Bitmask of granted permissions (e.g., READ = 1, WRITE = 2, EXECUTE = 4).
    pub permissions: u32,
    /// Number of delegations performed from the root capability (0 = root).
    pub delegation_depth: u32,
}

impl Capability {
    /// The capability that a successful delegation of `requested_mask` hands out.
    pub open spec fn delegated(self, requested_mask: u32) -> Capability {
        Capability {
            resource_id: self.resource_id,
            permissions: requested_mask,
            delegation_depth: if self.delegation_depth == u32::MAX {
                u32::MAX
            } else {
                (self.delegation_depth + 1) as u32
            },
        }
    }

    /// Creates a new root capability with the given permissions and depth 0.
    pub fn new(resource_id: u64, permissions: u32) -> (cap: Self)
        ensures
            cap == (Capability { resource_id, permissions, delegation_depth: 0 }),
    {
        Capability { resource_id, permissions, delegation_depth: 0 }
    }

    /// Delegates a capability to a child context with a requested permission mask.
    ///
    /// Capabilities can only narrow: a request holding any bit that `self`
    /// does not hold is refused with `PERMISSION_ESCALATION_DENIED`.
    pub fn delegate(&self, requested_mask: u32) -> (r: Result<Capability, &'static str>)
        ensures
            r is Ok <==> mask_within(requested_mask, self.permissions),
            r matches Ok(child) ==> child == self.delegated(requested_mask),
            r matches Ok(child) ==> child.permissions == requested_mask && child.resource_id
                == self.resource_id && (child.delegation_depth == self.delegation_depth + 1
                || child.delegation_depth == self.delegation_depth == u32::MAX),
            r matches Err(e) ==> e == PERMISSION_ESCALATION_DENIED,
    {
        if (requested_mask & !self.permissions) != 0 {
            return Err(PERMISSION_ESCALATION_DENIED);
        }
        Ok(Capability {
            resource_id: self.resource_id,
            permissions: requested_mask,
            delegation_depth: self.delegation_depth.saturating_add(1),
        })
    }
}

/// A capability token bound to one resource, carrying a permission mask and
/// the number of delegations that led to it.
#[derive(Debug, Clone, Copy, PartialEq, Eq, Structural)]
pub struct CapabilityToken {
    /// Identifier of the resource the token grants access to.
    pub resource: u64,
    /// Bitmask of granted permissions.
    pub permissions: u32,
    /// Delegation provenance depth (0 for a root token).
    pub depth: u8,
}

impl CapabilityToken {
    /// `self` may hand out a token carrying exactly `requested`.
    pub open spec fn may_delegate(self, requested: u32) -> bool {
        mask_within(requested, self.permissions) && self.depth < MAX_DELEGATION_DEPTH
    }

    /// The token that a successful delegation of `requested` hands out.
    pub open spec fn child(self, requested: u32) -> CapabilityToken {
        CapabilityToken { resource: self.resource, permissions: requested, depth: (self.depth + 1) as u8 }
    }

    /// Creates a root token (depth 0) for `resource` with `permissions`.
    pub fn new(resource: u64, permissions: u32) -> (token: Self)
        ensures
            token == (CapabilityToken { resource, permissions, depth: 0 }),
    {
        CapabilityToken { resource, permissions, depth: 0 }
    }

    /// Delegates a narrowed token to a child context.
    ///
    /// Succeeds exactly when `requested_permissions` holds no bit outside
    /// `self.permissions` and `self.depth < MAX_DELEGATION_DEPTH`. An
    /// escalation is refused with `PERMISSION_ESCALATION_DENIED` (checked
    /// first); an exhausted depth with `DELEGATION_DEPTH_EXCEEDED`.
    pub fn delegate(&self, requested_permissions: u32) -> (r: Result<CapabilityToken, &'static str>)
        ensures
            r is Ok <==> self.may_delegate(requested_permissions),
            r matches Ok(child) ==> child == self.child(requested_permissions),
            r matches Ok(child) ==> child.permissions == requested_permissions && child.resource
                == self.resource && child.depth == self.depth + 1,
            !mask_within(requested_permissions, self.permissions)
                ==> r == Err::<CapabilityToken, &'static str>(PERMISSION_ESCALATION_DENIED),
            mask_within(requested_permissions, self.permissions) && self.depth >= MAX_DELEGATION_DEPTH
                ==> r == Err::<CapabilityToken, &'static str>(DELEGATION_DEPTH_EXCEEDED),
    {
        if (requested_permissions & !self.permissions) != 0 {
            return Err(PERMISSION_ESCALATION_DENIED);
        }
        if self.depth >= MAX_DELEGATION_DEPTH {
            return Err(DELEGATION_DEPTH_EXCEEDED);
        }
        Ok(CapabilityToken {
            resource: self.resource,
            permissions: requested_permissions,
            depth: self.depth + 1,
        })
    }
}

/// A delegated capability holds exactly the requested mask, names the same
/// resource, and counts one more delegation (staying at the maximum once
/// the count is saturated).
pub proof fn lemma_delegated_capability_is_exact(parent: Capability, requested_mask: u32)
    ensures
        parent.delegated(requested_mask).permissions == requested_mask,
        parent.delegated(requested_mask).resource_id == parent.resource_id,
        parent.delegation_depth < u32::MAX ==> parent.delegated(requested_mask).delegation_depth
            == parent.delegation_depth + 1,
        parent.delegation_depth == u32::MAX ==> parent.delegated(requested_mask).delegation_depth
            == u32::MAX,
{
}

/// A delegated token holds exactly the requested mask, names the same
/// resource, and sits one level deeper than a parent that may delegate.
pub proof fn lemma_child_token_is_exact(parent: CapabilityToken, requested: u32)
    ensures
        parent.child(requested).permissions == requested,
        parent.child(requested).resource == parent.resource,
        parent.may_delegate(requested) ==> parent.child(requested).depth == parent.depth + 1,
{
}

/// Every mask is within itself: identity delegation never asks for new rights.
pub proof fn lemma_mask_within_reflexive(m: u32)
    ensures
        mask_within(m, m),
{
    assert(m & !m == 0) by (bit_vector);
}

/// The empty mask is within every mask: empty delegation never asks for new rights.
pub proof fn lemma_empty_mask_within(m: u32)
    ensures
        mask_within(0, m),
{
    assert(0u32 & !m == 0) by (bit_vector);
}

/// Narrowing composes: a subset of a subset is a subset.
pub proof fn lemma_mask_within_transitive(a: u32, b: u32, c: u32)
    requires
        mask_within(a, b),
        mask_within(b, c),
    ensures
        mask_within(a, c),
{
    assert(a & !c == 0) by (bit_vector)
        requires
            a & !b == 0,
            b & !c == 0,
    ;
}

/// A mask is within `held` exactly when it is a bitwise subset of it:
/// intersecting with `held` keeps it whole and joining it to `held` adds nothing.
pub proof fn lemma_mask_within_is_subset(requested: u32, held: u32)
    ensures
        mask_within(requested, held) <==> requested & held == requested,
        mask_within(requested, held) <==> requested | held == held,
{
    assert((requested & !held == 0) <==> requested & held == requested) by (bit_vector);
    assert((requested & !held == 0) <==> requested | held == held) by (bit_vector);
}

/// Nothing but the empty mask is within the empty mask: a token without
/// permissions can only delegate a token without permissions.
pub proof fn lemma_within_empty_mask(requested: u32)
    ensures
        mask_within(requested, 0) <==> requested == 0,
{
    assert((requested & !0u32 == 0) <==> requested == 0) by (bit_vector);
}

/// Each element of `chain` after the first was delegated by its predecessor.
pub open spec fn is_delegation_chain(chain: Seq<CapabilityToken>) -> bool {
    forall|i: int, j: int|
        #![trigger chain[i], chain[j]]
        0 <= i && j == i + 1 && j < chain.len() ==> chain[i].may_delegate(chain[j].permissions)
            && chain[j] == chain[i].child(chain[j].permissions)
}

/// Tokens only narrow along any chain of delegations: every token of the
/// chain stays on the root's resource, holds a subset of the root's
/// permissions and sits exactly its position deeper than the root; a chain
/// of more than one token never reaches past `MAX_DELEGATION_DEPTH`.
pub proof fn lemma_delegation_chain_narrows(chain: Seq<CapabilityToken>)
    requires
        chain.len() > 0,
        is_delegation_chain(chain),
    ensures
        forall|j: int|
            0 <= j < chain.len() ==> mask_within(#[trigger] chain[j].permissions, chain[0].permissions)
                && chain[j].resource == chain[0].resource && chain[j].depth == chain[0].depth + j,
        chain.len() > 1 ==> chain[0].depth + chain.len() - 1 <= MAX_DELEGATION_DEPTH,
    decreases chain.len(),
{
    lemma_mask_within_reflexive(chain[0].permissions);
    if chain.len() > 1 {
        let prefix = chain.drop_last();
        let n = chain.len() - 1;
        assert forall|i: int, j: int|
            #![trigger prefix[i], prefix[j]]
            0 <= i && j == i + 1 && j < prefix.len() implies prefix[i].may_delegate(prefix[j].permissions)
                && prefix[j] == prefix[i].child(prefix[j].permissions) by {
            assert(prefix[i] == chain[i] && prefix[j] == chain[j]);
        }
        lemma_delegation_chain_narrows(prefix);
        let last = chain[n];
        let before = chain[n - 1];
        assert(before == prefix[n - 1]);
        assert(before.may_delegate(last.permissions) && last == before.child(last.permissions));
        lemma_mask_within_transitive(last.permissions, before.permissions, chain[0].permissions);
        assert forall|j: int| 0 <= j < chain.len() implies mask_within(
            #[trigger] chain[j].permissions,
            chain[0].permissions,
        ) && chain[j].resource == chain[0].resource && chain[j].depth == chain[0].depth + j by {
            if j < n {
                assert(chain[j] == prefix[j]);
            }
        }
    }
}

/// Each element of `chain` after the first was delegated by its predecessor.
pub open spec fn is_capability_chain(chain: Seq<Capability>) -> bool {
    forall|i: int, j: int|
        #![trigger chain[i], chain[j]]
        0 <= i && j == i + 1 && j < chain.len() ==> mask_within(chain[j].permissions, chain[i].permissions)
            && chain[j] == chain[i].delegated(chain[j].permissions)
}

/// Capabilities only narrow along any chain of delegations: every capability
/// of the chain names the root's resource and holds a subset of its permissions.
pub proof fn lemma_capability_chain_narrows(chain: Seq<Capability>)
    requires
        chain.len() > 0,
        is_capability_chain(chain),
    ensures
        forall|j: int|
            0 <= j < chain.len() ==> mask_within(#[trigger] chain[j].permissions, chain[0].permissions)
                && chain[j].resource_id == chain[0].resource_id,
    decreases chain.len(),
{
    lemma_mask_within_reflexive(chain[0].permissions);
    if chain.len() > 1 {
        let prefix = chain.drop_last();
        let n = chain.len() - 1;
        assert forall|i: int, j: int|
            #![trigger prefix[i], prefix[j]]
            0 <= i && j == i + 1 && j < prefix.len() implies mask_within(prefix[j].permissions, prefix[i].permissions)
                && prefix[j] == prefix[i].delegated(prefix[j].permissions) by {
            assert(prefix[i] == chain[i] && prefix[j] == chain[j]);
        }
        lemma_capability_chain_narrows(prefix);
        let last = chain[n];
        let before = chain[n - 1];
        assert(before == prefix[n - 1]);
        assert(mask_within(last.permissions, before.permissions));
        lemma_mask_within_transitive(last.permissions, before.permissions, chain[0].permissions);
        assert forall|j: int| 0 <= j < chain.len() implies mask_within(
            #[trigger] chain[j].permissions,
            chain[0].permissions,
        ) && chain[j].resource_id == chain[0].resource_id by {
            if j < n {
                assert(chain[j] == prefix[j]);
            }
        }
    }
}

proof fn lemma_sample_masks()
    by (bit_vector)
    ensures
        mask_within(READ | WRITE, READ | WRITE | EXEC),
        mask_within(READ, READ | WRITE),
        mask_within(READ, READ | WRITE | EXEC),
        !mask_within(READ | WRITE, READ),
        !mask_within(READ | EXEC, READ),
        !mask_within(WRITE, READ),
{
}

/// Runs the capability scenarios: valid narrowing, identity delegation,
/// empty delegation and refused escalation. Returns `true` when all behave.
pub fn run_tests() -> (passed: bool)
    ensures
        passed,
{
    proof {
        lemma_sample_masks();
        lemma_mask_within_reflexive(READ | WRITE);
        lemma_empty_mask_within(READ);
    }
    // Test 1: Valid narrowing
    let parent = Capability::new(101, READ | WRITE | EXEC);
    let child = match parent.delegate(READ | WRITE) {
        Ok(c) => c,
        Err(_) => return false,
    };
    if child.resource_id != 101 || child.permissions != (READ | WRITE) || child.delegation_depth != 1 {
        return false;
    }
    let grandchild = match child.delegate(READ) {
        Ok(gc) => gc,
        Err(_) => return false,
    };
    if grandchild.permissions != READ || grandchild.delegation_depth != 2 {
        return false;
    }
    // Test 2: Identity delegation
    let parent2 = Capability::new(102, READ | WRITE);
    let child2 = match parent2.delegate(READ | WRITE) {
        Ok(c) => c,
        Err(_) => return false,
    };
    if child2.permissions != (READ | WRITE) || child2.delegation_depth != 1 {
        return false;
    }
    // Test 3: Empty permission delegation
    let parent3 = Capability::new(103, READ);
    let child3 = match parent3.delegate(0) {
        Ok(c) => c,
        Err(_) => return false,
    };
    if child3.permissions != 0 || child3.delegation_depth != 1 {
        return false;
    }
    // Test 4: Prevent permission escalation
    let parent4 = Capability::new(104, READ);
    if parent4.delegate(READ | WRITE).is_ok() {
        return false;
    }
    // Test 5: Prevent escalation from narrowed child
    let parent5 = Capability::new(105, READ | WRITE | EXEC);
    let child5 = match parent5.delegate(READ) {
        Ok(c) => c,
        Err(_) => return false,
    };
    if child5.delegate(READ | EXEC).is_ok() || child5.delegate(WRITE).is_ok() {
        return false;
    }
    true
}

} // verus!
