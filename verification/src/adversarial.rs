//! Adversarial scenarios attempting capability privilege escalation.
use vstd::prelude::*;

use crate::capability;
use crate::capability::CapabilityToken;

verus! {

const READ: u32 = 1 << 0;
const WRITE: u32 = 1 << 1;
const EXEC: u32 = 1 << 2;
const ALL_PERMS: u32 = READ | WRITE | EXEC;

proof fn lemma_attack_masks()
    by (bit_vector)
    ensures
        !capability::mask_within(READ | WRITE, READ),
        !capability::mask_within(READ | WRITE | EXEC, READ | WRITE),
        !capability::mask_within(EXEC, READ),
        capability::mask_within(READ, ALL_PERMS),
        !capability::mask_within(WRITE, READ),
        !capability::mask_within(ALL_PERMS, READ),
        !capability::mask_within(0xFFFF_FFFF, READ | WRITE),
        !capability::mask_within(READ, 0),
        !capability::mask_within(1, 0),
{
}

/// Runs adversarial attack scenarios against the delegation rule.
/// Returns `true` if and only if every attack attempt is rejected.
pub fn run_adversarial_tests() -> (all_blocked: bool)
    ensures
        all_blocked,
{
    proof {
        lemma_attack_masks();
        capability::lemma_empty_mask_within(READ | WRITE);
    }
    let mut total_attempts: u32 = 0;
    let mut blocked_attempts: u32 = 0;

    // Attack Scenario 1: Direct bitwise permission escalation request
    total_attempts += 1;
    let read_only_cap = CapabilityToken::new(201, READ);
    if read_only_cap.delegate(READ | WRITE).is_err() {
        blocked_attempts += 1;
    }

    // Attack Scenario 2: Ungranted privilege bit injection (EXEC bit injection)
    total_attempts += 1;
    let rw_cap = CapabilityToken::new(202, READ | WRITE);
    if rw_cap.delegate(READ | WRITE | EXEC).is_err() {
        blocked_attempts += 1;
    }

    // Attack Scenario 3: Single ungranted permission bit request
    total_attempts += 1;
    if read_only_cap.delegate(EXEC).is_err() {
        blocked_attempts += 1;
    }

    // Attack Scenario 4: Multi-generational privilege recovery attempt
    total_attempts += 1;
    let parent_cap = CapabilityToken::new(203, ALL_PERMS);
    if let Ok(child_cap) = parent_cap.delegate(READ) {
        if child_cap.delegate(READ | WRITE).is_err() && child_cap.delegate(WRITE).is_err()
            && child_cap.delegate(EXEC).is_err() && child_cap.delegate(ALL_PERMS).is_err() {
            blocked_attempts += 1;
        }
    }

    // Attack Scenario 5: Full bitmask spectrum escalation attempt
    total_attempts += 1;
    let limited_cap = CapabilityToken::new(204, READ | WRITE);
    if limited_cap.delegate(0xFFFF_FFFF).is_err() {
        blocked_attempts += 1;
    }

    // Attack Scenario 6: Zero-permission capability attempting delegation of rights
    total_attempts += 1;
    if let Ok(zero_cap) = limited_cap.delegate(0) {
        if zero_cap.delegate(READ).is_err() && zero_cap.delegate(1).is_err() {
            blocked_attempts += 1;
        }
    }

    total_attempts == 6 && blocked_attempts == 6
}

} // verus!
