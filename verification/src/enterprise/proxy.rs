//! The proxy's choice of the cluster node to connect to.
use vstd::prelude::*;
use crate::text::{decimal, push_decimal, push_str};

verus! {

/// The node to try after node `i`: the next one, going back to node 1
/// after the last of the `node_count` nodes.
pub open spec fn next_node_spec(i: u32, node_count: u32) -> u32 {
    if i + 1 > node_count {
        1
    } else {
        (i + 1) as u32
    }
}

/// The node to try after a failed connection to node `i`.
pub fn next_node(i: u32, node_count: u32) -> (r: u32)
    requires
        i < u32::MAX,
    ensures
        r == next_node_spec(i, node_count),
{
    let next = i + 1;
    if next > node_count {
        1
    } else {
        next
    }
}

/// The address of node `i` of the cluster: `{host}:{internode_port + i}`.
pub fn node_address(host: &str, internode_port: u32, i: u32) -> (r: String)
    requires
        internode_port + i <= u32::MAX,
    ensures
        r@ == host@ + ":"@ + decimal((internode_port + i) as nat),
{
    let mut s = String::new();
    push_str(&mut s, host);
    push_str(&mut s, ":");
    push_decimal(&mut s, (internode_port + i) as u64);
    s
}

} // verus!
