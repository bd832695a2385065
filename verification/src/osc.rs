//! The broadcast return path: decoding a datagram into a message tree,
//! flattening nested bundles depth-first, and correlating the leaves whose
//! address matches the head-position topic against the pending test.
//!
//! The datagram decode and the address-pattern match are the broadcast
//! protocol library's work, taken on trust behind named results; the tree
//! flattening and the correlation over the leaves are verified here.

use vstd::prelude::*;

use crate::correlate::spec_correlate;
use crate::correlate::correlate_step;
use crate::correlate::PendingTest;

verus! {

/// One leaf message of a broadcast packet, reduced to what the matcher
/// reads: its destination address and the bit pattern of its first argument,
/// when that argument is a single-precision value.
#[derive(Debug, PartialEq, Eq)]
pub struct OscLeaf {
    pub addr: String,
    pub x_bits: Option<u32>,
}

/// A broadcast packet: a single message, or a bundle of nested packets.
pub enum OscTree {
    Leaf(OscLeaf),
    Bundle(Vec<OscTree>),
}

/// The mathematical model of a leaf.
pub ghost struct LeafView {
    pub addr: Seq<char>,
    pub x_bits: Option<u32>,
}

/// The mathematical model of a packet tree.
pub ghost enum TreeView {
    Leaf(LeafView),
    Bundle(Seq<TreeView>),
}

/// The model of one leaf.
pub open spec fn leaf_view(l: OscLeaf) -> LeafView {
    LeafView { addr: l.addr@, x_bits: l.x_bits }
}

/// The model of a packet tree.
pub open spec fn tree_view(t: OscTree) -> TreeView
    decreases t,
{
    match t {
        OscTree::Leaf(l) => TreeView::Leaf(leaf_view(l)),
        OscTree::Bundle(ts) => TreeView::Bundle(trees_view(ts@)),
    }
}

/// The models of a sequence of packet trees, in order.
pub open spec fn trees_view(ts: Seq<OscTree>) -> Seq<TreeView>
    decreases ts,
{
    if ts.len() == 0 {
        Seq::empty()
    } else {
        trees_view(ts.drop_last()).push(tree_view(ts.last()))
    }
}

/// The models of a sequence of leaves, in order.
pub open spec fn leaves_view(ls: Seq<OscLeaf>) -> Seq<LeafView> {
    ls.map_values(|l: OscLeaf| leaf_view(l))
}

/// The reference flattening: the leaves of a tree, depth-first.
pub open spec fn spec_flatten(t: TreeView) -> Seq<LeafView>
    decreases t,
{
    match t {
        TreeView::Leaf(l) => seq![l],
        TreeView::Bundle(ts) => spec_flatten_seq(ts),
    }
}

/// The leaves of a forest, depth-first, left to right.
pub open spec fn spec_flatten_seq(ts: Seq<TreeView>) -> Seq<LeafView>
    decreases ts,
{
    if ts.len() == 0 {
        Seq::empty()
    } else {
        spec_flatten_seq(ts.drop_last()) + spec_flatten(ts.last())
    }
}

/// The model of a longer leaf sequence is the models of its parts.
proof fn lemma_leaves_view_add(a: Seq<OscLeaf>, b: Seq<OscLeaf>)
    ensures
        leaves_view(a + b) == leaves_view(a) + leaves_view(b),
{
    assert(leaves_view(a + b) =~= leaves_view(a) + leaves_view(b));
}

/// Flattens a packet tree into its leaves, depth-first — exactly the
/// reference flattening of the tree's model.
pub fn flatten(t: &OscTree) -> (r: Vec<OscLeaf>)
    ensures
        leaves_view(r@) == spec_flatten(tree_view(*t)),
    decreases *t,
{
    match t {
        OscTree::Leaf(l) => {
            let mut out: Vec<OscLeaf> = Vec::new();
            out.push(OscLeaf { addr: l.addr.clone(), x_bits: l.x_bits });
            assert(leaves_view(out@) =~= spec_flatten(tree_view(*t)));
            out
        },
        OscTree::Bundle(ts) => {
            let mut out: Vec<OscLeaf> = Vec::new();
            let mut i: usize = 0;
            proof {
                assert(trees_view(ts@.take(0)) =~= Seq::<TreeView>::empty());
                assert(leaves_view(out@) =~= Seq::<LeafView>::empty());
            }
            while i < ts.len()
                invariant
                    i <= ts@.len(),
                    *t == OscTree::Bundle(*ts),
                    tree_view(*t) == TreeView::Bundle(trees_view(ts@)),
                    leaves_view(out@) == spec_flatten_seq(trees_view(ts@.take(i as int))),
                decreases ts@.len() - i,
            {
                proof {
                    broadcast use vstd::std_specs::vec::group_vec_axioms;

                    assert(*t == OscTree::Bundle(*ts));
                    assert(decreases_to!(*t => *ts));
                    assert(decreases_to!(ts@ => ts@[i as int]));
                    assert(decreases_to!(*t => ts@[i as int]));
                }
                let mut sub = flatten(&ts[i]);
                let ghost out_pre = out@;
                let ghost sub_view = sub@;
                out.append(&mut sub);
                proof {
                    let prev = trees_view(ts@.take(i as int));
                    let next = trees_view(ts@.take(i + 1 as int));
                    assert(ts@.take(i + 1 as int).drop_last() =~= ts@.take(i as int));
                    assert(ts@.take(i + 1 as int).last() == ts@[i as int]);
                    assert(next == prev.push(tree_view(ts@[i as int])));
                    assert(next.drop_last() =~= prev);
                    assert(next.last() == tree_view(ts@[i as int]));
                    assert(spec_flatten_seq(next) == spec_flatten_seq(prev) + spec_flatten(
                        tree_view(ts@[i as int]),
                    ));
                    lemma_leaves_view_add(out_pre, sub_view);
                }
                i += 1;
            }
            proof {
                assert(ts@.take(ts@.len() as int) =~= ts@);
            }
            out
        },
    }
}

/// What the broadcast protocol library decodes a datagram to: the packet
/// tree, or nothing when the datagram is malformed. A function of the bytes
/// alone.
pub uninterp spec fn osc_parse(buf: Seq<u8>) -> Option<TreeView>;

/// Whether an address is valid and matches the fixed head-position topic
/// pattern. A function of the address alone (the pattern is a constant).
pub uninterp spec fn addr_matches_head(addr: Seq<char>) -> bool;

#[verifier::external_type_specification]
#[verifier::external_body]
pub struct ExOscPacket(rosc::OscPacket);

/// Relies on rosc's `OscPacket` shape: converts the decoded packet tree into
/// the library's own tree, one variant arm each, moving fields; of a leaf it
/// keeps the address and the bit pattern of the first argument when that
/// argument is a single-precision value. Part of the trusted decode below.
#[verifier::external_body]
fn convert_packet(p: rosc::OscPacket) -> OscTree {
    match p {
        rosc::OscPacket::Message(m) => OscTree::Leaf(
            OscLeaf {
                x_bits: match m.args.first() {
                    Some(rosc::OscType::Float(v)) => Some(v.to_bits()),
                    _ => None,
                },
                addr: m.addr,
            },
        ),
        rosc::OscPacket::Bundle(b) => OscTree::Bundle(
            b.content.into_iter().map(convert_packet).collect(),
        ),
    }
}

/// Relies on rosc::decoder::decode_udp: what a datagram decodes to depends on
/// its bytes alone; a malformed datagram is rejected, not decoded in part.
#[verifier::external_body]
fn decode_datagram(buf: &[u8]) -> (r: Option<OscTree>)
    ensures
        match r {
            Some(t) => osc_parse(buf@) == Some(tree_view(t)),
            None => osc_parse(buf@) is None,
        },
{
    match rosc::decoder::decode_udp(buf) {
        Ok((_, p)) => Some(convert_packet(p)),
        Err(_) => None,
    }
}

/// Relies on rosc::address::{Matcher, OscAddress}: whether an address is
/// valid and matches the fixed head-position pattern depends on the address
/// alone; an invalid address matches nothing.
#[verifier::external_body]
fn head_address_matches(addr: &str) -> (r: bool)
    ensures
        r == addr_matches_head(addr@),
{
    let matcher = match rosc::address::Matcher::new("/tracking/trackers/head/position") {
        Ok(m) => m,
        Err(_) => return false,
    };
    match rosc::address::OscAddress::new(addr.to_string()) {
        Ok(a) => matcher.match_address(&a),
        Err(_) => false,
    }
}

/// Decodes one datagram and flattens its bundles depth-first: the leaves of
/// the decoded tree, or nothing when the datagram is malformed.
pub fn decode_and_flatten(buf: &[u8]) -> (r: Option<Vec<OscLeaf>>)
    ensures
        match r {
            Some(v) => osc_parse(buf@) matches Some(t) && leaves_view(v@) == spec_flatten(t),
            None => osc_parse(buf@) is None,
        },
{
    match decode_datagram(buf) {
        Some(t) => Some(flatten(&t)),
        None => None,
    }
}

/// The reference scan of a packet's leaves, in order: a leaf whose address
/// matches the head-position topic offers its first argument to the
/// correlation step; every other leaf offers nothing; at most one report
/// comes out, since a match clears the pending slot.
pub open spec fn spec_scan(ls: Seq<LeafView>, pending: Option<PendingTest>, now: u64) -> (
    Option<PendingTest>,
    Option<u64>,
)
    decreases ls.len(),
{
    if ls.len() == 0 {
        (pending, None)
    } else {
        let obs = if addr_matches_head(ls[0].addr) {
            ls[0].x_bits
        } else {
            None
        };
        let first = spec_correlate(pending, obs, now);
        let rest = spec_scan(ls.drop_first(), first.0, now);
        (
            rest.0,
            if first.1 is Some {
                first.1
            } else {
                rest.1
            },
        )
    }
}

/// Scans a packet's leaves against the pending test — exactly the reference
/// scan: a leaf on the head-position topic whose first argument equals the
/// pending value clears the slot and reports the elapsed time; every other
/// leaf leaves the state alone.
pub fn match_leaves(leaves: &Vec<OscLeaf>, pending: Option<PendingTest>, now: u64) -> (r: (
    Option<PendingTest>,
    Option<u64>,
))
    ensures
        r == spec_scan(leaves_view(leaves@), pending, now),
{
    let ghost lv = leaves_view(leaves@);
    let mut cur = pending;
    let mut report: Option<u64> = None;
    let mut i: usize = 0;
    proof {
        assert(lv.skip(0) =~= lv);
    }
    while i < leaves.len()
        invariant
            i <= lv.len(),
            lv == leaves_view(leaves@),
            spec_scan(lv, pending, now) == {
                let rest = spec_scan(lv.skip(i as int), cur, now);
                (
                    rest.0,
                    if report is Some {
                        report
                    } else {
                        rest.1
                    },
                )
            },
        decreases lv.len() - i,
    {
        let matches_head = head_address_matches(leaves[i].addr.as_str());
        let observed = if matches_head {
            leaves[i].x_bits
        } else {
            None
        };
        let step = correlate_step(cur, observed, now);
        proof {
            assert(lv[i as int] == leaf_view(leaves@[i as int]));
            assert(lv.skip(i as int)[0] == lv[i as int]);
            assert(lv.skip(i as int).drop_first() =~= lv.skip(i + 1 as int));
        }
        cur = step.0;
        if report.is_none() {
            report = step.1;
        }
        i += 1;
    }
    proof {
        assert(lv.skip(lv.len() as int) =~= Seq::<LeafView>::empty());
    }
    (cur, report)
}

} // verus!
