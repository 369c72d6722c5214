//! Metering: the credit cost of one call, from the request and response sizes
//! and the rates of the endpoint, scaled by the number of replicas that each
//! make the call.
use vstd::prelude::*;
use vstd::string::StringSliceAdditionalSpecFns;
use crate::registry::ResolvedSource;

verus! {

/// The flat rate of a call to a literal URL, which has no provider.
pub const URL_CYCLES_PER_CALL: u64 = 3_000_000;

/// The per-byte rate of a call to a literal URL.
pub const URL_CYCLES_PER_MESSAGE_BYTE: u64 = 800;

/// `x`, or the largest `u128` where `x` exceeds it.
pub open spec fn capped(x: int) -> u128 {
    if x > u128::MAX {
        u128::MAX
    } else {
        x as u128
    }
}

/// The exact cost: the flat rate plus the per-byte rate for each byte sent
/// and each byte that the response may hold, on each of `nodes` replicas.
pub open spec fn call_cost(
    cycles_per_call: u64,
    cycles_per_message_byte: u64,
    payload_len: nat,
    max_response_bytes: u64,
    nodes: u32,
) -> int {
    (cycles_per_call + (payload_len + max_response_bytes) * cycles_per_message_byte) * nodes
}

/// The rates that a resolved source is charged at.
pub open spec fn rates(source: ResolvedSource) -> (u64, u64) {
    match source {
        ResolvedSource::Url(_) => (URL_CYCLES_PER_CALL, URL_CYCLES_PER_MESSAGE_BYTE),
        ResolvedSource::Provider(p) => (p.cycles_per_call, p.cycles_per_message_byte),
    }
}

/// The cost of a call to `source`, capped at the largest `u128`.
pub open spec fn request_cost(
    source: ResolvedSource,
    payload_len: nat,
    max_response_bytes: u64,
    nodes: u32,
) -> u128 {
    capped(call_cost(rates(source).0, rates(source).1, payload_len, max_response_bytes, nodes))
}

fn mul_capped(a: u128, b: u128) -> (r: u128)
    ensures
        r == capped(a * b),
{
    match a.checked_mul(b) {
        Some(v) => v,
        None => u128::MAX,
    }
}

/// Multiplying by at least one keeps a sum above the cap above it.
proof fn lemma_capped_product(x: int, y: int)
    requires
        x >= 0,
        y >= 0,
    ensures
        capped(capped(x) * y) == capped(x * y),
{
    if x > u128::MAX && y > 0 {
        assert(x * y >= x) by (nonlinear_arith)
            requires
                x >= 0,
                y >= 1,
        ;
        assert(u128::MAX * y >= u128::MAX) by (nonlinear_arith)
            requires
                y >= 1,
        ;
    }
}

/// The cost of a call, from the rates given.
pub fn get_call_cost(
    cycles_per_call: u64,
    cycles_per_message_byte: u64,
    payload_len: usize,
    max_response_bytes: u64,
    nodes_in_subnet: u32,
) -> (r: u128)
    ensures
        r == capped(
            call_cost(
                cycles_per_call,
                cycles_per_message_byte,
                payload_len as nat,
                max_response_bytes,
                nodes_in_subnet,
            ),
        ),
{
    let bytes: u128 = payload_len as u128 + max_response_bytes as u128;
    let per_byte = mul_capped(bytes, cycles_per_message_byte as u128);
    let per_node = per_byte.saturating_add(cycles_per_call as u128);
    let ghost x: int = cycles_per_call + bytes * cycles_per_message_byte;
    proof {
        assert(bytes * cycles_per_message_byte >= 0) by (nonlinear_arith)
            requires
                bytes >= 0,
                cycles_per_message_byte >= 0,
        ;
        assert(per_node == capped(x));
        lemma_capped_product(x, nodes_in_subnet as int);
    }
    mul_capped(per_node, nodes_in_subnet as u128)
}

/// The cost of a call to `source` with a payload of `json_rpc_payload`, counted
/// in UTF-8 bytes, that allows `max_response_bytes` in the response.
pub fn get_request_cost(
    source: &ResolvedSource,
    json_rpc_payload: &str,
    max_response_bytes: u64,
    nodes_in_subnet: u32,
) -> (r: u128)
    ensures
        r == request_cost(
            *source,
            json_rpc_payload.spec_bytes().len(),
            max_response_bytes,
            nodes_in_subnet,
        ),
{
    let len = json_rpc_payload.as_bytes().len();
    match source {
        ResolvedSource::Url(_) => get_call_cost(
            URL_CYCLES_PER_CALL,
            URL_CYCLES_PER_MESSAGE_BYTE,
            len,
            max_response_bytes,
            nodes_in_subnet,
        ),
        ResolvedSource::Provider(p) => get_call_cost(
            p.cycles_per_call,
            p.cycles_per_message_byte,
            len,
            max_response_bytes,
            nodes_in_subnet,
        ),
    }
}

/// A longer payload or a larger response allowance never costs less.
pub proof fn lemma_cost_monotone(
    source: ResolvedSource,
    len1: nat,
    len2: nat,
    max1: u64,
    max2: u64,
    nodes: u32,
)
    requires
        len1 <= len2,
        max1 <= max2,
    ensures
        request_cost(source, len1, max1, nodes) <= request_cost(source, len2, max2, nodes),
{
    let (c, b) = rates(source);
    let x1 = c + (len1 + max1) * b;
    let x2 = c + (len2 + max2) * b;
    assert(x1 <= x2) by (nonlinear_arith)
        requires
            x1 == c + (len1 + max1) * b,
            x2 == c + (len2 + max2) * b,
            len1 + max1 <= len2 + max2,
            b >= 0,
    ;
    assert(x1 * nodes <= x2 * nodes) by (nonlinear_arith)
        requires
            x1 <= x2,
            nodes >= 0,
    ;
}

/// The cost is the cost on one replica times the number of replicas, where
/// it stays below the cap.
pub proof fn lemma_cost_scales_with_nodes(source: ResolvedSource, len: nat, max: u64, nodes: u32)
    requires
        call_cost(rates(source).0, rates(source).1, len, max, nodes) <= u128::MAX,
    ensures
        request_cost(source, len, max, nodes) == request_cost(source, len, max, 1) * nodes,
{
    let (c, b) = rates(source);
    let x = c + (len + max) * b;
    assert(x >= 0) by (nonlinear_arith)
        requires
            x == c + (len + max) * b,
            c >= 0,
            b >= 0,
            len + max >= 0,
    ;
    if nodes > 0 {
        assert(x <= x * nodes) by (nonlinear_arith)
            requires
                x >= 0,
                nodes >= 1,
        ;
        assert(x * 1 == x);
    } else {
        assert(x * nodes == 0) by (nonlinear_arith)
            requires
                nodes == 0,
        ;
        assert(capped(x * 1) * nodes == 0) by (nonlinear_arith)
            requires
                nodes == 0,
        ;
    }
}

} // verus!
