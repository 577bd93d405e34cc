//! Gateway integration scenario: a root agent, a narrowed sub-agent and the gateway between them.
use vstd::prelude::*;

use crate::capability;
use crate::capability::CapabilityToken;
use crate::gateway::{ToolGateway, ToolRequest};

verus! {

const READ: u32 = 1 << 0;
const WRITE: u32 = 1 << 1;
const EXECUTE: u32 = 1 << 2;

proof fn lemma_gateway_masks()
    by (bit_vector)
    ensures
        capability::mask_within(READ, READ | WRITE),
        capability::mask_within(WRITE, READ | WRITE),
        capability::mask_within(READ, READ),
        !capability::mask_within(WRITE, READ),
        !capability::mask_within(READ | EXECUTE, READ),
{
}

/// Runs the gateway scenario: the root token may read and write, the
/// delegated read-only token may read but neither write nor regain a right.
/// Returns `true` when every step behaves so.
pub fn run_gateway_tests() -> (passed: bool)
    ensures
        passed,
{
    proof {
        lemma_gateway_masks();
    }
    let api_endpoint_id: u64 = 0x1A2B_3C4D_5E6F;

    // 1. Root agent initializes with broad access (Read + Write)
    let root_token = CapabilityToken::new(api_endpoint_id, READ | WRITE);
    let mut gateway = ToolGateway::new(root_token);

    // Root agent can perform a Read operation
    let read_req = ToolRequest::new(api_endpoint_id, READ, "query=analytics");
    if gateway.execute_request(read_req).is_err() {
        return false;
    }

    // Root agent can perform a Write operation
    let write_req = ToolRequest::new(api_endpoint_id, WRITE, "action=update_config");
    if gateway.execute_request(write_req).is_err() {
        return false;
    }

    // 2. Root agent spawns a restricted sub-agent token (Read-only)
    let subagent_token = match root_token.delegate(READ) {
        Ok(t) => t,
        Err(_) => return false,
    };

    // Switch the gateway's active context to the restricted sub-agent
    gateway.set_token(subagent_token);

    // 3. Sub-agent Read operation through the gateway succeeds
    let sub_read_req = ToolRequest::new(api_endpoint_id, READ, "query=user_profile");
    if gateway.execute_request(sub_read_req).is_err() {
        return false;
    }

    // 4. Sub-agent Write operation through the gateway is intercepted
    let sub_write_req = ToolRequest::new(api_endpoint_id, WRITE, "action=delete_logs");
    let sub_write_res = gateway.execute_request(sub_write_req);
    if sub_write_res.is_ok() {
        return false;
    }

    // 5. Sub-agent escalation delegation to gain EXECUTE is rejected
    if subagent_token.delegate(READ | EXECUTE).is_ok() {
        return false;
    }

    true
}

} // verus!
