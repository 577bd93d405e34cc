//! Agent tool-execution gateway evaluating requests against an active capability token.
use vstd::prelude::*;

use crate::capability;
use crate::capability::CapabilityToken;

verus! {

/// Error returned when the active token names another resource than the request.
pub const RESOURCE_MISMATCH: &'static str =
    "ResourceMismatch: active token does not match target request resource ID";

/// Error returned when the active token lacks a permission bit the request needs.
pub const PERMISSION_DENIED: &'static str =
    "PermissionDenied: active token lacks required permissions for this action";

/// The lower-case hexadecimal digits, indexed by value.
pub open spec fn lower_hex_digit(d: nat) -> char {
    seq!['0', '1', '2', '3', '4', '5', '6', '7', '8', '9', 'a', 'b', 'c', 'd', 'e', 'f'][d as int]
}

/// Lower-case hexadecimal digits of `n`, most significant first, without
/// leading zeros (a single `0` for zero).
pub open spec fn lower_hex(n: nat) -> Seq<char>
    decreases n,
{
    if n < 16 {
        seq![lower_hex_digit(n)]
    } else {
        lower_hex(n / 16).push(lower_hex_digit(n % 16))
    }
}

/// The text of a permitted execution: the resource in `0x`-prefixed
/// lower-case hexadecimal and the payload in single quotes.
pub open spec fn permitted_message(resource_id: u64, payload: Seq<char>) -> Seq<char> {
    "ExecutionPermitted: action on resource 0x"@ + lower_hex(resource_id as nat)
        + " succeeded with payload '"@ + payload + "'"@
}

/// A character is a lower-case hexadecimal digit: `0`-`9` or `a`-`f`.
pub open spec fn is_lower_hex_char(c: char) -> bool {
    ('0' as int <= c as int <= '9' as int) || ('a' as int <= c as int <= 'f' as int)
}

/// The value of a hexadecimal digit character: `0`-`9` are worth 0 to 9,
/// `a`-`f` are worth 10 to 15.
pub open spec fn hex_digit_value(c: char) -> int {
    if c as int <= '9' as int {
        c as int - '0' as int
    } else {
        c as int - 'a' as int + 10
    }
}

/// Reads a string of hexadecimal digits in base 16, most significant first.
pub open spec fn read_hex(digits: Seq<char>) -> int
    decreases digits.len(),
{
    if digits.len() == 0 {
        0
    } else {
        read_hex(digits.drop_last()) * 16 + hex_digit_value(digits.last())
    }
}

/// The digit written for value `d` is a lower-case hexadecimal digit worth `d`.
pub proof fn lemma_lower_hex_digit_is_worth_its_value(d: nat)
    requires
        d < 16,
    ensures
        is_lower_hex_char(lower_hex_digit(d)),
        hex_digit_value(lower_hex_digit(d)) == d,
{
    if d == 0 {
        assert(lower_hex_digit(d) == '0')
    } else if d == 1 {
        assert(lower_hex_digit(d) == '1')
    } else if d == 2 {
        assert(lower_hex_digit(d) == '2')
    } else if d == 3 {
        assert(lower_hex_digit(d) == '3')
    } else if d == 4 {
        assert(lower_hex_digit(d) == '4')
    } else if d == 5 {
        assert(lower_hex_digit(d) == '5')
    } else if d == 6 {
        assert(lower_hex_digit(d) == '6')
    } else if d == 7 {
        assert(lower_hex_digit(d) == '7')
    } else if d == 8 {
        assert(lower_hex_digit(d) == '8')
    } else if d == 9 {
        assert(lower_hex_digit(d) == '9')
    } else if d == 10 {
        assert(lower_hex_digit(d) == 'a')
    } else if d == 11 {
        assert(lower_hex_digit(d) == 'b')
    } else if d == 12 {
        assert(lower_hex_digit(d) == 'c')
    } else if d == 13 {
        assert(lower_hex_digit(d) == 'd')
    } else if d == 14 {
        assert(lower_hex_digit(d) == 'e')
    } else if d == 15 {
        assert(lower_hex_digit(d) == 'f');
    }
}

/// The hexadecimal text of `n` is made of lower-case hexadecimal digits, has
/// no leading zero (a lone `0` for zero), and read back in base 16 gives `n`.
pub proof fn lemma_lower_hex_reads_back(n: nat)
    ensures
        lower_hex(n).len() >= 1,
        forall|i: int| 0 <= i < lower_hex(n).len() ==> is_lower_hex_char(#[trigger] lower_hex(n)[i]),
        lower_hex(n)[0] == '0' ==> n == 0,
        read_hex(lower_hex(n)) == n,
    decreases n,
{
    lemma_lower_hex_digit_is_worth_its_value(n % 16);
    if n < 16 {
        assert(n % 16 == n);
        assert(lower_hex(n).drop_last() =~= Seq::<char>::empty());
        assert(read_hex(lower_hex(n)) == read_hex(Seq::<char>::empty()) * 16 + hex_digit_value(
            lower_hex_digit(n),
        ));
    } else {
        let high = n / 16;
        lemma_lower_hex_reads_back(high);
        let s = lower_hex(n);
        assert(s == lower_hex(high).push(lower_hex_digit(n % 16)));
        assert(s.drop_last() =~= lower_hex(high));
        assert(s[0] == lower_hex(high)[0]);
        assert(n == high * 16 + n % 16);
        assert(s.last() == lower_hex_digit(n % 16));
        assert(read_hex(s) == read_hex(lower_hex(high)) * 16 + hex_digit_value(
            lower_hex_digit(n % 16),
        ));
        assert forall|i: int| 0 <= i < s.len() implies is_lower_hex_char(#[trigger] s[i]) by {
            if i < s.len() - 1 {
                assert(s[i] == lower_hex(high)[i]);
            }
        }
    }
}

/// In the permitted-execution text, the digits after `0x` are the resource's
/// hexadecimal text, which reads back to the resource identifier.
pub proof fn lemma_permitted_message_names_resource(resource_id: u64, payload: Seq<char>)
    ensures
        ({
            let prefix = "ExecutionPermitted: action on resource 0x"@;
            let digits = permitted_message(resource_id, payload).subrange(
                prefix.len() as int,
                (prefix.len() + lower_hex(resource_id as nat).len()) as int,
            );
            digits == lower_hex(resource_id as nat) && read_hex(digits) == resource_id
        }),
{
    lemma_lower_hex_reads_back(resource_id as nat);
    let prefix = "ExecutionPermitted: action on resource 0x"@;
    let hex = lower_hex(resource_id as nat);
    let msg = permitted_message(resource_id, payload);
    assert(msg.subrange(prefix.len() as int, (prefix.len() + hex.len()) as int) =~= hex);
}

/// `token` lets a request on `resource_id` needing `required_permission` through.
pub open spec fn grants(token: CapabilityToken, resource_id: u64, required_permission: u32) -> bool {
    token.resource == resource_id && capability::mask_within(required_permission, token.permissions)
}

/// The text of the lower-case hexadecimal digit `d`.
fn hex_digit_text(d: u64) -> (text: &'static str)
    requires
        d < 16,
    ensures
        text@ == seq![lower_hex_digit(d as nat)],
{
    proof {
        reveal_strlit("0");
        reveal_strlit("1");
        reveal_strlit("2");
        reveal_strlit("3");
        reveal_strlit("4");
        reveal_strlit("5");
        reveal_strlit("6");
        reveal_strlit("7");
        reveal_strlit("8");
        reveal_strlit("9");
        reveal_strlit("a");
        reveal_strlit("b");
        reveal_strlit("c");
        reveal_strlit("d");
        reveal_strlit("e");
        reveal_strlit("f");
    }
    match d {
        0 => "0",
        1 => "1",
        2 => "2",
        3 => "3",
        4 => "4",
        5 => "5",
        6 => "6",
        7 => "7",
        8 => "8",
        9 => "9",
        10 => "a",
        11 => "b",
        12 => "c",
        13 => "d",
        14 => "e",
        _ => "f",
    }
}

/// Appends the lower-case hexadecimal digits of `n` to `text`.
fn append_lower_hex(text: &mut String, n: u64)
    ensures
        final(text)@ == old(text)@ + lower_hex(n as nat),
    decreases n,
{
    let ghost start = text@;
    if n >= 16 {
        append_lower_hex(text, n / 16);
    }
    let digit = hex_digit_text(n % 16);
    text.append(digit);
    proof {
        if n >= 16 {
            assert((n / 16) as nat == (n as nat) / 16);
            assert(start + lower_hex((n / 16) as nat) + seq![lower_hex_digit((n % 16) as nat)]
                =~= start + lower_hex((n / 16) as nat).push(lower_hex_digit((n % 16) as nat)));
        } else {
            assert(n % 16 == n);
        }
    }
}

/// Builds the permitted-execution text: the resource in `0x`-prefixed
/// lower-case hexadecimal and the payload in single quotes.
fn permitted_text(resource_id: u64, payload: &str) -> (text: String)
    ensures
        text@ == permitted_message(resource_id, payload@),
{
    let mut text = String::from_str("ExecutionPermitted: action on resource 0x");
    append_lower_hex(&mut text, resource_id);
    text.append(" succeeded with payload '");
    text.append(payload);
    text.append("'");
    text
}

/// A request by an agent to execute a tool or access a resource.
#[derive(Debug, Clone, PartialEq, Eq)]
pub struct ToolRequest {
    /// Target resource or tool identifier.
    pub resource_id: u64,
    /// Permission required for this operation (e.g. Read = 1, Write = 2, Execute = 4, Delete = 8).
    pub required_permission: u32,
    /// Request payload or parameters.
    pub payload: String,
}

impl ToolRequest {
    /// Creates a new `ToolRequest`.
    pub fn new(resource_id: u64, required_permission: u32, payload: &str) -> (request: Self)
        ensures
            request.resource_id == resource_id,
            request.required_permission == required_permission,
            request.payload@ == payload@,
    {
        ToolRequest { resource_id, required_permission, payload: payload.to_owned() }
    }
}

/// Agent tool-execution gateway enforcing the active capability token.
#[derive(Debug, Clone)]
pub struct ToolGateway {
    /// Currently active capability token bound to the gateway execution context.
    pub active_token: CapabilityToken,
}

impl ToolGateway {
    /// Creates a new `ToolGateway` bound to an active capability token.
    pub fn new(active_token: CapabilityToken) -> (gateway: Self)
        ensures
            gateway.active_token == active_token,
    {
        ToolGateway { active_token }
    }

    /// Replaces the active token of the gateway.
    pub fn set_token(&mut self, token: CapabilityToken)
        ensures
            final(self).active_token == token,
    {
        self.active_token = token;
    }

    /// Evaluates a `ToolRequest` against the active token.
    ///
    /// The token's resource must be the request's (else `RESOURCE_MISMATCH`,
    /// checked first), and the token must hold every bit of the required
    /// permission (else `PERMISSION_DENIED`). A permitted request yields the
    /// permitted-execution text; the gateway itself is left unchanged.
    pub fn execute_request(&mut self, request: ToolRequest) -> (r: Result<String, &'static str>)
        ensures
            *final(self) == *old(self),
            r is Ok <==> grants(old(self).active_token, request.resource_id, request.required_permission),
            r matches Ok(text) ==> text@ == permitted_message(request.resource_id, request.payload@),
            old(self).active_token.resource != request.resource_id
                ==> r == Err::<String, &'static str>(RESOURCE_MISMATCH),
            old(self).active_token.resource == request.resource_id && !capability::mask_within(
                request.required_permission,
                old(self).active_token.permissions,
            ) ==> r == Err::<String, &'static str>(PERMISSION_DENIED),
    {
        if self.active_token.resource != request.resource_id {
            return Err(RESOURCE_MISMATCH);
        }
        if (request.required_permission & !self.active_token.permissions) != 0 {
            return Err(PERMISSION_DENIED);
        }
        Ok(permitted_text(request.resource_id, request.payload.as_str()))
    }
}

/// A token handed out by delegation lets through only requests its parent
/// would let through: a sub-agent cannot execute an operation its parent
/// could not.
pub proof fn lemma_delegated_token_grants_only_parent_rights(
    parent: CapabilityToken,
    requested: u32,
    resource_id: u64,
    required_permission: u32,
)
    requires
        parent.may_delegate(requested),
        grants(parent.child(requested), resource_id, required_permission),
    ensures
        grants(parent, resource_id, required_permission),
{
    capability::lemma_mask_within_transitive(required_permission, requested, parent.permissions);
}

/// Along any chain of delegations, whatever a gateway holding a later token
/// lets through, a gateway holding the root token lets through too.
pub proof fn lemma_chain_grants_only_root_rights(
    chain: Seq<CapabilityToken>,
    j: int,
    resource_id: u64,
    required_permission: u32,
)
    requires
        chain.len() > 0,
        capability::is_delegation_chain(chain),
        0 <= j < chain.len(),
        grants(chain[j], resource_id, required_permission),
    ensures
        grants(chain[0], resource_id, required_permission),
{
    capability::lemma_delegation_chain_narrows(chain);
    assert(capability::mask_within(chain[j].permissions, chain[0].permissions));
    capability::lemma_mask_within_transitive(
        required_permission,
        chain[j].permissions,
        chain[0].permissions,
    );
}

} // verus!
