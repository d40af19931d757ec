//! Netlink requests as plain values: the message type and flags, the fixed
//! header that follows the netlink header, and the attributes in the order in
//! which they are put, nests included.
use vstd::prelude::*;

use crate::addr::SocketAddr;

verus! {

/// `NLM_F_REQUEST`: the message is a request.
pub const NLM_F_REQUEST: u16 = 0x01;

/// `NLM_F_ACK`: reply with an acknowledgement.
pub const NLM_F_ACK: u16 = 0x04;

/// `NLM_F_ROOT`: specify the tree root.
pub const NLM_F_ROOT: u16 = 0x100;

/// `NLM_F_MATCH`: return all matching entries.
pub const NLM_F_MATCH: u16 = 0x200;

/// `NLM_F_ATOMIC`: atomic get.
pub const NLM_F_ATOMIC: u16 = 0x400;

/// `NLM_F_DUMP`: root and match.
pub const NLM_F_DUMP: u16 = NLM_F_ROOT | NLM_F_MATCH;

/// `NLM_F_EXCL`: do not touch the object if it exists.
pub const NLM_F_EXCL: u16 = 0x200;

/// `NLM_F_CREATE`: create the object if it does not exist.
pub const NLM_F_CREATE: u16 = 0x400;

/// A value that an attribute carries.
#[derive(Debug)]
pub enum AttrValue {
    U8(u8),
    U16(u16),
    U32(u32),
    Bytes(Vec<u8>),
    /// A string put without its terminating zero.
    Str(String),
    /// A string put with its terminating zero.
    StrZ(String),
    /// A `sockaddr_in` or `sockaddr_in6` of the socket address, its port in network order.
    Endpoint(SocketAddr),
}

/// The mathematical value of an attribute.
pub enum AttrData {
    U8(u8),
    U16(u16),
    U32(u32),
    Bytes(Seq<u8>),
    Str(Seq<char>),
    StrZ(Seq<char>),
    Endpoint(SocketAddr),
}

impl View for AttrValue {
    type V = AttrData;

    open spec fn view(&self) -> AttrData {
        match self {
            AttrValue::U8(x) => AttrData::U8(*x),
            AttrValue::U16(x) => AttrData::U16(*x),
            AttrValue::U32(x) => AttrData::U32(*x),
            AttrValue::Bytes(b) => AttrData::Bytes(b@),
            AttrValue::Str(s) => AttrData::Str(s@),
            AttrValue::StrZ(s) => AttrData::StrZ(s@),
            AttrValue::Endpoint(a) => AttrData::Endpoint(*a),
        }
    }
}

/// One step in filling a message with attributes.
#[derive(Debug)]
pub enum NlOp {
    /// Put an attribute of the given type.
    Put(u16, AttrValue),
    /// Open a nested attribute of the given type.
    NestStart(u16),
    /// Close the innermost open nested attribute.
    NestEnd,
}

/// The mathematical value of a step.
pub enum Op {
    Put(u16, AttrData),
    NestStart(u16),
    NestEnd,
}

impl View for NlOp {
    type V = Op;

    open spec fn view(&self) -> Op {
        match self {
            NlOp::Put(t, v) => Op::Put(*t, v@),
            NlOp::NestStart(t) => Op::NestStart(*t),
            NlOp::NestEnd => Op::NestEnd,
        }
    }
}

/// The steps of a vector of steps.
pub open spec fn ops_view(ops: Seq<NlOp>) -> Seq<Op> {
    ops.map_values(|o: NlOp| o@)
}

/// `struct ifinfomsg`.
#[derive(Clone, Copy, Debug)]
pub struct Ifinfomsg {
    pub ifi_family: u8,
    pub ifi_type: u16,
    pub ifi_index: i32,
    pub ifi_flags: u32,
    pub ifi_change: u32,
}

/// `struct ifaddrmsg`.
#[derive(Clone, Copy, Debug)]
pub struct Ifaddrmsg {
    pub ifa_family: u8,
    pub ifa_prefixlen: u8,
    pub ifa_flags: u8,
    pub ifa_scope: u8,
    pub ifa_index: u32,
}

/// `struct rtmsg`.
#[derive(Clone, Copy, Debug)]
pub struct Rtmsg {
    pub rtm_family: u8,
    pub rtm_dst_len: u8,
    pub rtm_src_len: u8,
    pub rtm_tos: u8,
    pub rtm_table: u8,
    pub rtm_protocol: u8,
    pub rtm_scope: u8,
    pub rtm_type: u8,
    pub rtm_flags: u32,
}

/// The header of a generic netlink message.
#[derive(Clone, Copy, Debug)]
pub struct Genlmsghdr {
    pub cmd: u8,
    pub version: u8,
    pub reserved: u16,
}

/// The fixed header that follows the netlink header.
#[derive(Clone, Copy, Debug)]
pub enum ExtraHeader {
    Ifinfo(Ifinfomsg),
    Ifaddr(Ifaddrmsg),
    Rt(Rtmsg),
    Genl(Genlmsghdr),
}

/// A netlink request: what is sent, but for the sequence number and port.
#[derive(Debug)]
pub struct Request {
    pub msg_type: u16,
    pub flags: u16,
    pub header: ExtraHeader,
    pub ops: Vec<NlOp>,
}

/// An `ifinfomsg` with every field zero.
pub open spec fn zero_ifinfo() -> Ifinfomsg {
    Ifinfomsg { ifi_family: 0, ifi_type: 0, ifi_index: 0, ifi_flags: 0, ifi_change: 0 }
}

/// How much a step changes the nesting depth.
pub open spec fn op_delta(op: Op) -> int {
    match op {
        Op::Put(_, _) => 0,
        Op::NestStart(_) => 1,
        Op::NestEnd => -1,
    }
}

/// The nesting depth after a sequence of steps.
pub open spec fn depth(ops: Seq<Op>) -> int
    decreases ops.len(),
{
    if ops.len() == 0 {
        0
    } else {
        depth(ops.drop_last()) + op_delta(ops.last())
    }
}

/// Every nest that the steps open they close again, and none is closed that is not open.
pub open spec fn balanced(ops: Seq<Op>) -> bool {
    &&& depth(ops) == 0
    &&& forall|i: int| 0 <= i <= ops.len() ==> depth(#[trigger] ops.take(i)) >= 0
}

/// The depth of a concatenation is the sum of the depths.
pub proof fn lemma_depth_concat(a: Seq<Op>, b: Seq<Op>)
    ensures
        depth(a + b) == depth(a) + depth(b),
    decreases b.len(),
{
    if b.len() == 0 {
        assert(a + b =~= a);
    } else {
        lemma_depth_concat(a, b.drop_last());
        assert((a + b).drop_last() =~= a + b.drop_last());
        assert((a + b).last() == b.last());
    }
}

/// Steps without nests are balanced.
pub open spec fn flat(ops: Seq<Op>) -> bool {
    forall|i: int| 0 <= i < ops.len() ==> #[trigger] ops[i] is Put
}

pub proof fn lemma_flat_depth(ops: Seq<Op>)
    requires
        flat(ops),
    ensures
        depth(ops) == 0,
    decreases ops.len(),
{
    if ops.len() > 0 {
        assert(flat(ops.drop_last())) by {
            assert forall|i: int| 0 <= i < ops.drop_last().len() implies #[trigger] ops.drop_last()[i] is Put by {
                assert(ops[i] is Put);
            }
        }
        lemma_flat_depth(ops.drop_last());
        assert(ops[ops.len() - 1] is Put);
    }
}

pub proof fn lemma_flat_balanced(ops: Seq<Op>)
    requires
        flat(ops),
    ensures
        balanced(ops),
{
    lemma_flat_depth(ops);
    assert forall|i: int| 0 <= i <= ops.len() implies depth(#[trigger] ops.take(i)) >= 0 by {
        assert(flat(ops.take(i))) by {
            assert forall|j: int| 0 <= j < ops.take(i).len() implies #[trigger] ops.take(i)[j] is Put by {
                assert(ops[j] is Put);
            }
        }
        lemma_flat_depth(ops.take(i));
    }
}

/// Two balanced sequences of steps, one after the other, are balanced.
pub proof fn lemma_balanced_concat(a: Seq<Op>, b: Seq<Op>)
    requires
        balanced(a),
        balanced(b),
    ensures
        balanced(a + b),
{
    lemma_depth_concat(a, b);
    assert forall|i: int| 0 <= i <= (a + b).len() implies depth(#[trigger] (a + b).take(i)) >= 0 by {
        if i <= a.len() {
            assert((a + b).take(i) =~= a.take(i));
        } else {
            assert((a + b).take(i) =~= a + b.take(i - a.len()));
            lemma_depth_concat(a, b.take(i - a.len()));
            assert(a.take(a.len() as int) =~= a);
        }
    }
}

/// The steps `body` inside a nest of type `t`.
pub open spec fn nest(t: u16, body: Seq<Op>) -> Seq<Op> {
    seq![Op::NestStart(t)] + body + seq![Op::NestEnd]
}

/// A balanced sequence of steps inside one nest is balanced.
pub proof fn lemma_balanced_nest(t: u16, body: Seq<Op>)
    requires
        balanced(body),
    ensures
        balanced(nest(t, body)),
{
    let s = seq![Op::NestStart(t)] + body + seq![Op::NestEnd];
    let open = seq![Op::NestStart(t)];
    assert(depth(open.drop_last()) == 0) by {
        assert(open.drop_last().len() == 0);
    }
    assert(depth(open) == 1);
    lemma_depth_concat(open, body);
    lemma_depth_concat(open + body, seq![Op::NestEnd]);
    let close = seq![Op::NestEnd];
    assert(depth(close.drop_last()) == 0) by {
        assert(close.drop_last().len() == 0);
    }
    assert(depth(close) == -1);
    assert forall|i: int| 0 <= i <= s.len() implies depth(#[trigger] s.take(i)) >= 0 by {
        if i == 0 {
            assert(s.take(i).len() == 0);
        } else if i <= body.len() + 1 {
            assert(s.take(i) =~= open + body.take(i - 1));
            lemma_depth_concat(open, body.take(i - 1));
        } else {
            assert(s.take(i) =~= s);
        }
    }
}

/// The values of the attributes of type `t` that the steps put, in order,
/// at any nesting depth.
pub open spec fn attr_values(ops: Seq<Op>, t: u16) -> Seq<AttrData>
    decreases ops.len(),
{
    if ops.len() == 0 {
        Seq::empty()
    } else {
        attr_values(ops.drop_last(), t) + match ops.last() {
            Op::Put(tt, v) => if tt == t {
                seq![v]
            } else {
                Seq::<AttrData>::empty()
            },
            _ => Seq::<AttrData>::empty(),
        }
    }
}

/// The attributes of a single step.
pub proof fn lemma_attr_values_one(op: Op, t: u16)
    ensures
        attr_values(seq![op], t) == match op {
            Op::Put(tt, v) => if tt == t {
                seq![v]
            } else {
                Seq::<AttrData>::empty()
            },
            _ => Seq::<AttrData>::empty(),
        },
{
    assert(seq![op].drop_last() =~= Seq::<Op>::empty());
    assert(seq![op].last() == op);
    assert(attr_values(Seq::<Op>::empty(), t) =~= Seq::<AttrData>::empty());
    assert(Seq::<AttrData>::empty() + match op {
        Op::Put(tt, v) => if tt == t {
            seq![v]
        } else {
            Seq::<AttrData>::empty()
        },
        _ => Seq::<AttrData>::empty(),
    } =~= match op {
        Op::Put(tt, v) => if tt == t {
            seq![v]
        } else {
            Seq::<AttrData>::empty()
        },
        _ => Seq::<AttrData>::empty(),
    });
}

/// The attributes of steps one after the other are those of each, one after the other.
pub proof fn lemma_attr_values_concat(a: Seq<Op>, b: Seq<Op>, t: u16)
    ensures
        attr_values(a + b, t) == attr_values(a, t) + attr_values(b, t),
    decreases b.len(),
{
    if b.len() == 0 {
        assert(a + b =~= a);
        assert(attr_values(a, t) + attr_values(b, t) =~= attr_values(a, t));
    } else {
        lemma_attr_values_concat(a, b.drop_last(), t);
        assert((a + b).drop_last() =~= a + b.drop_last());
        assert((a + b).last() == b.last());
        assert(attr_values(a + b, t) =~= attr_values(a, t) + attr_values(b, t));
    }
}

/// A nest puts the attributes of its body.
pub proof fn lemma_attr_values_nest(n: u16, body: Seq<Op>, t: u16)
    ensures
        attr_values(nest(n, body), t) == attr_values(body, t),
{
    lemma_attr_values_one(Op::NestStart(n), t);
    lemma_attr_values_one(Op::NestEnd, t);
    lemma_attr_values_concat(seq![Op::NestStart(n)], body, t);
    lemma_attr_values_concat(seq![Op::NestStart(n)] + body, seq![Op::NestEnd], t);
    assert(attr_values(nest(n, body), t) =~= attr_values(body, t));
}

/// Appends a step to a vector of steps.
pub fn push_op(v: &mut Vec<NlOp>, op: NlOp)
    ensures
        ops_view(final(v)@) == ops_view(old(v)@).push(op@),
{
    v.push(op);
    assert(ops_view(v@) =~= ops_view(old(v)@).push(op@));
}

} // verus!
