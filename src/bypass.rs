//! Split-plan model and the desync engine's schedule of socket operations.
use vstd::prelude::*;

verus! {

/// TTL restored on the upstream socket after a low-TTL write.
pub const DEFAULT_TTL: u32 = 64;

/// TTL of the short-lived segment written by `Disorder`.
pub const DISORDER_TTL: u32 = 1;

/// Marker byte appended to out-of-band sends unless configured otherwise.
pub const DEFAULT_OOB_DATA: u8 = 97;

#[derive(Clone, Copy, Debug, PartialEq, Eq, Structural)]
pub enum DesyncType {
    Split,
    Disorder,
    Splitoob,
    Disoob,
    Fake,
}

#[derive(Clone, Copy, Debug, PartialEq, Eq, Structural)]
pub struct SplitPosition {
    pub pos: i32,
    pub desync_type: DesyncType,
}

/// One step of the desync engine, in the order it must be carried out.
/// Byte ranges are half-open and index the chunk being rewritten.
#[derive(Clone, Copy, Debug, PartialEq, Eq, Structural)]
pub enum DesyncOp {
    /// Plain stream write of `buf[start..end]`.
    Write { start: usize, end: usize },
    /// Set the TTL of the upstream socket.
    SetTtl { ttl: u32 },
    /// Urgent-data send of `buf[start..end]` followed by `marker`.
    WriteOob { start: usize, end: usize, marker: u8 },
    /// Send `end - start` decoy bytes in place of `buf[start..end]`.
    Fake { start: usize, end: usize },
    /// The plan selected a kind that has no implementation: the engine fails here.
    Unsupported,
}

/// The desync settings shared, read-only, by every connection.
#[derive(Clone, Debug)]
pub struct BypassOptions {
    pub split_positions: Vec<SplitPosition>,
    pub fake_ttl: u32,
    pub oob_data: u8,
    pub timeout: Option<std::time::Duration>,
}

/// Absolute offset that `pos` denotes in a chunk of `size` bytes: a negative
/// offset counts back from the end.
pub open spec fn resolve_pos(pos: i32, size: int) -> int {
    if pos < 0 {
        size + pos
    } else {
        pos as int
    }
}

/// Where the cursor moves for `pos`: its resolved offset, never behind `prev`.
pub open spec fn next_cut(pos: i32, size: int, prev: int) -> int {
    let r = resolve_pos(pos, size);
    if r < prev {
        prev
    } else {
        r
    }
}

/// The operations of one plan entry on the range `[prev, cur)`.
pub open spec fn segment_ops(kind: DesyncType, prev: int, cur: int, fake_ttl: u32, oob: u8) -> Seq<
    DesyncOp,
> {
    match kind {
        DesyncType::Split => seq![DesyncOp::Write { start: prev as usize, end: cur as usize }],
        DesyncType::Disorder => seq![
            DesyncOp::SetTtl { ttl: DISORDER_TTL },
            DesyncOp::Write { start: prev as usize, end: cur as usize },
            DesyncOp::SetTtl { ttl: DEFAULT_TTL },
        ],
        DesyncType::Splitoob => seq![
            DesyncOp::WriteOob { start: prev as usize, end: cur as usize, marker: oob },
        ],
        DesyncType::Fake => seq![
            DesyncOp::SetTtl { ttl: fake_ttl },
            DesyncOp::Fake { start: prev as usize, end: cur as usize },
            DesyncOp::SetTtl { ttl: DEFAULT_TTL },
        ],
        DesyncType::Disoob => seq![DesyncOp::Unsupported],
    }
}

/// The operations that carry out `plan[i..]` on a chunk of `size` bytes whose
/// first `prev` bytes have already been sent.
pub open spec fn desync_ops_from(
    plan: Seq<SplitPosition>,
    i: int,
    prev: int,
    size: int,
    fake_ttl: u32,
    oob: u8,
) -> Seq<DesyncOp>
    decreases plan.len() - i,
{
    if i < 0 || i >= plan.len() {
        if prev != size {
            seq![DesyncOp::Write { start: prev as usize, end: size as usize }]
        } else {
            seq![]
        }
    } else {
        let cur = next_cut(plan[i].pos, size, prev);
        if cur >= size {
            seq![DesyncOp::Write { start: prev as usize, end: size as usize }]
        } else if plan[i].desync_type == DesyncType::Disoob {
            seq![DesyncOp::Unsupported]
        } else {
            segment_ops(plan[i].desync_type, prev, cur, fake_ttl, oob) + desync_ops_from(
                plan,
                i + 1,
                cur,
                size,
                fake_ttl,
                oob,
            )
        }
    }
}

/// Strict canonical order on offsets: non-negative offsets first, ascending,
/// then negative offsets, ascending.
pub open spec fn pos_before(a: i32, b: i32) -> bool {
    if (a < 0) != (b < 0) {
        a >= 0
    } else {
        a < b
    }
}

/// Every entry of `s` is at or after the entries before it in canonical order.
pub open spec fn plan_sorted(s: Seq<SplitPosition>) -> bool {
    forall|i: int, j: int| 0 <= i < j < s.len() ==> !pos_before(#[trigger] s[j].pos, #[trigger] s[i].pos)
}

/// Selects the entries at offset `p`.
pub open spec fn at_pos(p: i32) -> spec_fn(SplitPosition) -> bool {
    |x: SplitPosition| x.pos == p
}

/// The entries of `s` at offset `p`, in their order in `s`.
pub open spec fn entries_at(s: Seq<SplitPosition>, p: i32) -> Seq<SplitPosition> {
    s.filter(at_pos(p))
}

/// `merged` is `s` stably sorted into canonical order: sorted, and the
/// entries at each offset are those of `s`, in the order they have there.
pub open spec fn is_stable_sort_of(merged: Seq<SplitPosition>, s: Seq<SplitPosition>) -> bool {
    &&& plan_sorted(merged)
    &&& forall|p: i32| #[trigger] entries_at(merged, p) == entries_at(s, p)
}

/// A stable sort is empty exactly when what it sorts is.
pub proof fn lemma_stable_sort_len(merged: Seq<SplitPosition>, s: Seq<SplitPosition>)
    requires
        is_stable_sort_of(merged, s),
    ensures
        merged.len() > 0 <==> s.len() > 0,
{
    if s.len() > 0 {
        let p = s[0].pos;
        s.lemma_filter_contains(at_pos(p), 0);
        assert(entries_at(merged, p) == entries_at(s, p));
        merged.lemma_filter_len(at_pos(p));
    }
    if merged.len() > 0 {
        let p = merged[0].pos;
        merged.lemma_filter_contains(at_pos(p), 0);
        assert(entries_at(merged, p) == entries_at(s, p));
        s.lemma_filter_len(at_pos(p));
    }
}

proof fn lemma_pos_order(a: i32, b: i32, c: i32)
    ensures
        pos_before(a, b) ==> !pos_before(b, a),
        !pos_before(a, b) && !pos_before(b, a) ==> a == b,
        pos_before(a, b) && !pos_before(c, b) ==> pos_before(a, c),
        !pos_before(b, a) && !pos_before(c, b) ==> !pos_before(c, a),
{
}

/// Inserts `x` after every entry that is not after it in canonical order.
fn insert_sorted(v: &mut Vec<SplitPosition>, x: SplitPosition)
    requires
        plan_sorted(old(v)@),
    ensures
        plan_sorted(final(v)@),
        forall|p: i32| #[trigger] entries_at(final(v)@, p) == entries_at(old(v)@.push(x), p),
{
    let mut k: usize = 0;
    while k < v.len() && !pos_before_exec(x.pos, v[k].pos)
        invariant
            0 <= k <= v@.len(),
            forall|j: int| 0 <= j < k ==> !pos_before(x.pos, #[trigger] v@[j].pos),
        decreases v@.len() - k,
    {
        k = k + 1;
    }
    let ghost s = v@;
    proof {
        assert forall|j: int| k <= j < s.len() implies pos_before(x.pos, #[trigger] s[j].pos) by {
            lemma_pos_order(x.pos, s[k as int].pos, s[j].pos);
        }
    }
    v.insert(k, x);
    let ghost a = s.subrange(0, k as int);
    let ghost b = s.subrange(k as int, s.len() as int);
    assert(v@ =~= a + seq![x] + b);
    assert(s =~= a + b);
    assert forall|i: int, j: int| 0 <= i < j < v@.len() implies !pos_before(
        #[trigger] v@[j].pos,
        #[trigger] v@[i].pos,
    ) by {
        if i < k && j > k {
            lemma_pos_order(s[i].pos, x.pos, s[j - 1].pos);
            lemma_pos_order(x.pos, s[j - 1].pos, s[i].pos);
        } else if i == k && j > k {
            lemma_pos_order(x.pos, s[j - 1].pos, x.pos);
        } else if i < k && j == k {
        } else if i > k {
            assert(v@[i] == s[i - 1] && v@[j] == s[j - 1]);
        }
    }
    assert forall|p: i32| #[trigger] entries_at(v@, p) == entries_at(s.push(x), p) by {
        let f = at_pos(p);
        Seq::filter_distributes_over_add(a + seq![x], b, f);
        Seq::filter_distributes_over_add(a, seq![x], f);
        Seq::filter_distributes_over_add(a, b, f);
        s.lemma_filter_push(x, f);
        if x.pos == p {
            assert forall|j: int| 0 <= j < b.len() implies !f(#[trigger] b[j]) by {
                lemma_pos_order(x.pos, b[j].pos, x.pos);
            }
            b.lemma_all_neg_filter_empty(f);
        }
        assert(seq![x].filter(f) =~= if x.pos == p { seq![x] } else { seq![] }) by {
            reveal_with_fuel(Seq::filter, 2);
        }
    }
}

/// Inserts each of `items`, in order, with `insert_sorted`.
fn insert_each(merged: &mut Vec<SplitPosition>, items: &Vec<SplitPosition>)
    requires
        plan_sorted(old(merged)@),
    ensures
        plan_sorted(final(merged)@),
        forall|p: i32| #[trigger] entries_at(final(merged)@, p) == entries_at(old(merged)@ + items@, p),
{
    let ghost start = merged@;
    let mut i: usize = 0;
    while i < items.len()
        invariant
            0 <= i <= items@.len(),
            plan_sorted(merged@),
            forall|p: i32| #[trigger] entries_at(merged@, p) == entries_at(start + items@.take(i as int), p),
        decreases items@.len() - i,
    {
        let x = items[i];
        let ghost before = merged@;
        insert_sorted(merged, x);
        assert(start + items@.take(i as int + 1) =~= (start + items@.take(i as int)).push(x));
        assert forall|p: i32| #[trigger] entries_at(merged@, p) == entries_at(start + items@.take(i as int + 1), p) by {
            assert(entries_at(before, p) == entries_at(start + items@.take(i as int), p));
            before.lemma_filter_push(x, at_pos(p));
            (start + items@.take(i as int)).lemma_filter_push(x, at_pos(p));
        }
        i = i + 1;
    }
    assert(items@.take(items@.len() as int) =~= items@);
}

fn pos_before_exec(a: i32, b: i32) -> (r: bool)
    ensures
        r == pos_before(a, b),
{
    if (a < 0) != (b < 0) {
        a >= 0
    } else {
        a < b
    }
}

/// The chunk bytes that `op` stands for on the wire: a decoy span stands for
/// the real bytes it replaces, an out-of-band send for its payload without
/// the trailing marker.
pub open spec fn op_payload(op: DesyncOp, buf: Seq<u8>) -> Seq<u8> {
    match op {
        DesyncOp::Write { start, end } => buf.subrange(start as int, end as int),
        DesyncOp::WriteOob { start, end, marker: _ } => buf.subrange(start as int, end as int),
        DesyncOp::Fake { start, end } => buf.subrange(start as int, end as int),
        _ => Seq::empty(),
    }
}

/// The chunk bytes that `ops` stand for, in issue order.
pub open spec fn ops_payload(ops: Seq<DesyncOp>, buf: Seq<u8>) -> Seq<u8>
    decreases ops.len(),
{
    if ops.len() == 0 {
        Seq::empty()
    } else {
        op_payload(ops[0], buf) + ops_payload(ops.drop_first(), buf)
    }
}

/// The bytes `op` puts on the wire.
pub open spec fn op_wire(op: DesyncOp, buf: Seq<u8>) -> Seq<u8> {
    match op {
        DesyncOp::Write { start, end } => buf.subrange(start as int, end as int),
        DesyncOp::WriteOob { start, end, marker } => buf.subrange(start as int, end as int).push(
            marker,
        ),
        DesyncOp::Fake { start, end } => decoy_bytes((end - start) as nat),
        _ => Seq::empty(),
    }
}

/// The bytes `ops` put on the wire, in issue order.
pub open spec fn ops_wire(ops: Seq<DesyncOp>, buf: Seq<u8>) -> Seq<u8>
    decreases ops.len(),
{
    if ops.len() == 0 {
        Seq::empty()
    } else {
        op_wire(ops[0], buf) + ops_wire(ops.drop_first(), buf)
    }
}

/// The plan only cuts the chunk into plain writes, some at low TTL.
pub open spec fn plan_plain(plan: Seq<SplitPosition>) -> bool {
    forall|i: int|
        0 <= i < plan.len() ==> #[trigger] plan[i].desync_type == DesyncType::Split
            || plan[i].desync_type == DesyncType::Disorder
}

/// No operation of `ops` alters or adds bytes.
pub open spec fn ops_plain(ops: Seq<DesyncOp>) -> bool {
    forall|k: int| 0 <= k < ops.len() ==> (#[trigger] ops[k] is Write || ops[k] is SetTtl)
}

proof fn lemma_plain_wire_is_payload(ops: Seq<DesyncOp>, buf: Seq<u8>)
    requires
        ops_plain(ops),
    ensures
        ops_wire(ops, buf) == ops_payload(ops, buf),
    decreases ops.len(),
{
    if ops.len() > 0 {
        assert(ops_plain(ops.drop_first())) by {
            assert forall|k: int| 0 <= k < ops.drop_first().len() implies (
            #[trigger] ops.drop_first()[k] is Write || ops.drop_first()[k] is SetTtl) by {
                assert(ops.drop_first()[k] == ops[k + 1]);
            }
        }
        lemma_plain_wire_is_payload(ops.drop_first(), buf);
        assert(ops[0] is Write || ops[0] is SetTtl);
    }
}

proof fn lemma_plain_plan_plain_ops(
    plan: Seq<SplitPosition>,
    i: int,
    prev: int,
    size: int,
    fake_ttl: u32,
    oob: u8,
)
    requires
        plan_plain(plan),
        0 <= i,
    ensures
        ops_plain(desync_ops_from(plan, i, prev, size, fake_ttl, oob)),
    decreases plan.len() - i,
{
    if i < plan.len() {
        let cur = next_cut(plan[i].pos, size, prev);
        if cur < size {
            let seg = segment_ops(plan[i].desync_type, prev, cur, fake_ttl, oob);
            let rest = desync_ops_from(plan, i + 1, cur, size, fake_ttl, oob);
            lemma_plain_plan_plain_ops(plan, i + 1, cur, size, fake_ttl, oob);
            let ops = seg + rest;
            assert forall|k: int| 0 <= k < ops.len() implies (#[trigger] ops[k] is Write
                || ops[k] is SetTtl) by {
                if k >= seg.len() {
                    assert(ops[k] == rest[k - seg.len()]);
                }
            }
        }
    }
}

/// Every byte range of `op` lies within the first `size` bytes.
pub open spec fn op_in_bounds(op: DesyncOp, size: int) -> bool {
    match op {
        DesyncOp::Write { start, end } => start <= end <= size,
        DesyncOp::WriteOob { start, end, marker: _ } => start <= end <= size,
        DesyncOp::Fake { start, end } => start <= end <= size,
        _ => true,
    }
}

/// The plan has no entry of the kind the engine cannot run.
pub open spec fn plan_supported(plan: Seq<SplitPosition>) -> bool {
    forall|i: int| 0 <= i < plan.len() ==> #[trigger] plan[i].desync_type != DesyncType::Disoob
}

proof fn lemma_ops_payload_add(a: Seq<DesyncOp>, b: Seq<DesyncOp>, buf: Seq<u8>)
    ensures
        ops_payload(a + b, buf) == ops_payload(a, buf) + ops_payload(b, buf),
    decreases a.len(),
{
    if a.len() == 0 {
        assert(a + b =~= b);
    } else {
        assert((a + b).drop_first() =~= a.drop_first() + b);
        lemma_ops_payload_add(a.drop_first(), b, buf);
    }
}

proof fn lemma_single_payload(op: DesyncOp, buf: Seq<u8>)
    ensures
        ops_payload(seq![op], buf) == op_payload(op, buf),
{
    assert(seq![op].drop_first() =~= Seq::<DesyncOp>::empty());
    assert(op_payload(op, buf) + Seq::<u8>::empty() =~= op_payload(op, buf));
    reveal_with_fuel(ops_payload, 2);
}

proof fn lemma_segment_payload(
    kind: DesyncType,
    prev: int,
    cur: int,
    fake_ttl: u32,
    oob: u8,
    buf: Seq<u8>,
)
    requires
        kind != DesyncType::Disoob,
        0 <= prev <= cur <= buf.len(),
        cur <= usize::MAX,
    ensures
        ops_payload(segment_ops(kind, prev, cur, fake_ttl, oob), buf) == buf.subrange(prev, cur),
        forall|k: int|
            0 <= k < segment_ops(kind, prev, cur, fake_ttl, oob).len() ==> op_in_bounds(
                #[trigger] segment_ops(kind, prev, cur, fake_ttl, oob)[k],
                cur,
            ),
{
    let ops = segment_ops(kind, prev, cur, fake_ttl, oob);
    reveal_with_fuel(ops_payload, 4);
    if ops.len() == 3 {
        assert(ops.drop_first().drop_first().drop_first() =~= Seq::<DesyncOp>::empty());
    } else {
        assert(ops.drop_first() =~= Seq::<DesyncOp>::empty());
    }
}

proof fn lemma_ops_from_payload(
    plan: Seq<SplitPosition>,
    i: int,
    prev: int,
    size: int,
    fake_ttl: u32,
    oob: u8,
    buf: Seq<u8>,
)
    requires
        0 <= i,
        0 <= prev <= size <= buf.len(),
        size <= usize::MAX,
    ensures
        plan_supported(plan) ==> ops_payload(desync_ops_from(plan, i, prev, size, fake_ttl, oob), buf)
            == buf.subrange(prev, size),
        forall|k: int|
            0 <= k < desync_ops_from(plan, i, prev, size, fake_ttl, oob).len() ==> op_in_bounds(
                #[trigger] desync_ops_from(plan, i, prev, size, fake_ttl, oob)[k],
                size,
            ),
    decreases plan.len() - i,
{
    let ops = desync_ops_from(plan, i, prev, size, fake_ttl, oob);
    if i >= plan.len() {
        if prev != size {
            lemma_single_payload(DesyncOp::Write { start: prev as usize, end: size as usize }, buf);
        } else {
            assert(buf.subrange(prev, size) =~= Seq::<u8>::empty());
        }
    } else {
        let cur = next_cut(plan[i].pos, size, prev);
        if cur >= size {
            lemma_single_payload(DesyncOp::Write { start: prev as usize, end: size as usize }, buf);
        } else {
            let kind = plan[i].desync_type;
            if kind == DesyncType::Disoob {
                assert(!plan_supported(plan));
                return;
            }
            let seg = segment_ops(kind, prev, cur, fake_ttl, oob);
            let rest = desync_ops_from(plan, i + 1, cur, size, fake_ttl, oob);
            lemma_segment_payload(kind, prev, cur, fake_ttl, oob, buf);
            lemma_ops_from_payload(plan, i + 1, cur, size, fake_ttl, oob, buf);
            lemma_ops_payload_add(seg, rest, buf);
            assert(buf.subrange(prev, cur) + buf.subrange(cur, size) =~= buf.subrange(prev, size));
            assert forall|k: int| 0 <= k < ops.len() implies op_in_bounds(#[trigger] ops[k], size) by {
                if k < seg.len() {
                    assert(ops[k] == seg[k]);
                } else {
                    assert(ops[k] == rest[k - seg.len()]);
                }
            }
        }
    }
}

/// Number of bytes in the decoy ClientHello template.
pub const FAKE_TLS_LEN: usize = 517;

/// The decoy TLS ClientHello whose prefix `Fake` spans send in place of the
/// real bytes.
pub open spec fn fake_tls_template() -> Seq<u8> {
    seq![
        22, 3, 1, 2, 0, 1, 0, 1, 252, 3, 3, 3, 95, 111, 44, 237, 19, 34, 248, 220, 178, 242,
        96, 72, 45, 114, 102, 111, 87, 221, 19, 157, 27, 55, 220, 250, 54, 46, 186, 249, 146,
        153, 58, 32, 249, 223, 12, 46, 138, 85, 137, 130, 49, 99, 26, 239, 168, 190, 8, 88,
        167, 163, 90, 24, 211, 150, 95, 4, 92, 180, 98, 175, 137, 215, 15, 139, 0, 62, 19, 2,
        19, 3, 19, 1, 192, 44, 192, 48, 0, 159, 204, 169, 204, 168, 204, 170, 192, 43, 192, 47,
        0, 158, 192, 36, 192, 40, 0, 107, 192, 35, 192, 39, 0, 103, 192, 10, 192, 20, 0, 57,
        192, 9, 192, 19, 0, 51, 0, 157, 0, 156, 0, 61, 0, 60, 0, 53, 0, 47, 0, 255, 1, 0, 1,
        117, 0, 0, 0, 22, 0, 20, 0, 0, 17, 119, 119, 119, 46, 119, 105, 107, 105, 112, 101,
        100, 105, 97, 46, 111, 114, 103, 0, 11, 0, 4, 3, 0, 1, 2, 0, 10, 0, 22, 0, 20, 0, 29,
        0, 23, 0, 30, 0, 25, 0, 24, 1, 0, 1, 1, 1, 2, 1, 3, 1, 4, 0, 16, 0, 14, 0, 12, 2, 104,
        50, 8, 104, 116, 116, 112, 47, 49, 46, 49, 0, 22, 0, 0, 0, 23, 0, 0, 0, 49, 0, 0, 0,
        13, 0, 42, 0, 40, 4, 3, 5, 3, 6, 3, 8, 7, 8, 8, 8, 9, 8, 10, 8, 11, 8, 4, 8, 5, 8, 6,
        4, 1, 5, 1, 6, 1, 3, 3, 3, 1, 3, 2, 4, 2, 5, 2, 6, 2, 0, 43, 0, 9, 8, 3, 4, 3, 3, 3, 2,
        3, 1, 0, 45, 0, 2, 1, 1, 0, 51, 0, 38, 0, 36, 0, 29, 0, 32, 17, 140, 184, 140, 232,
        138, 8, 144, 30, 238, 25, 217, 221, 232, 212, 6, 177, 209, 226, 171, 224, 22, 99, 214,
        220, 218, 132, 164, 184, 75, 251, 14, 0, 21, 0, 172, 0, 0, 0, 0, 0, 0, 0, 0, 0, 0, 0,
        0, 0, 0, 0, 0, 0, 0, 0, 0, 0, 0, 0, 0, 0, 0, 0, 0, 0, 0, 0, 0, 0, 0, 0, 0, 0, 0, 0, 0,
        0, 0, 0, 0, 0, 0, 0, 0, 0, 0, 0, 0, 0, 0, 0, 0, 0, 0, 0, 0, 0, 0, 0, 0, 0, 0, 0, 0, 0,
        0, 0, 0, 0, 0, 0, 0, 0, 0, 0, 0, 0, 0, 0, 0, 0, 0, 0, 0, 0, 0, 0, 0, 0, 0, 0, 0, 0, 0,
        0, 0, 0, 0, 0, 0, 0, 0, 0, 0, 0, 0, 0, 0, 0, 0, 0, 0, 0, 0, 0, 0, 0, 0, 0, 0, 0, 0, 0,
        0, 0, 0, 0, 0, 0, 0, 0, 0, 0, 0, 0, 0, 0, 0, 0, 0, 0, 0, 0, 0, 0, 0, 0, 0, 0, 0, 0, 0,
        0, 0, 0, 0, 0, 0, 0, 0, 0, 0, 0, 0, 0, 0, 0, 0,
    ]
}

/// The decoy bytes sent for a `Fake` span of `len` bytes: the template's
/// first `len` bytes, followed by zeros past its end.
pub open spec fn decoy_bytes(len: nat) -> Seq<u8> {
    Seq::new(len, |k: int| if k < FAKE_TLS_LEN { fake_tls_template()[k] } else { 0u8 })
}

/// The decoy payload of a `Fake` span of `len` bytes.
pub fn fake_payload(len: usize) -> (r: Vec<u8>)
    ensures
        r@ == decoy_bytes(len as nat),
{
    let template: [u8; 517] = [
        22, 3, 1, 2, 0, 1, 0, 1, 252, 3, 3, 3, 95, 111, 44, 237, 19, 34, 248, 220, 178, 242,
        96, 72, 45, 114, 102, 111, 87, 221, 19, 157, 27, 55, 220, 250, 54, 46, 186, 249, 146,
        153, 58, 32, 249, 223, 12, 46, 138, 85, 137, 130, 49, 99, 26, 239, 168, 190, 8, 88,
        167, 163, 90, 24, 211, 150, 95, 4, 92, 180, 98, 175, 137, 215, 15, 139, 0, 62, 19, 2,
        19, 3, 19, 1, 192, 44, 192, 48, 0, 159, 204, 169, 204, 168, 204, 170, 192, 43, 192, 47,
        0, 158, 192, 36, 192, 40, 0, 107, 192, 35, 192, 39, 0, 103, 192, 10, 192, 20, 0, 57,
        192, 9, 192, 19, 0, 51, 0, 157, 0, 156, 0, 61, 0, 60, 0, 53, 0, 47, 0, 255, 1, 0, 1,
        117, 0, 0, 0, 22, 0, 20, 0, 0, 17, 119, 119, 119, 46, 119, 105, 107, 105, 112, 101,
        100, 105, 97, 46, 111, 114, 103, 0, 11, 0, 4, 3, 0, 1, 2, 0, 10, 0, 22, 0, 20, 0, 29,
        0, 23, 0, 30, 0, 25, 0, 24, 1, 0, 1, 1, 1, 2, 1, 3, 1, 4, 0, 16, 0, 14, 0, 12, 2, 104,
        50, 8, 104, 116, 116, 112, 47, 49, 46, 49, 0, 22, 0, 0, 0, 23, 0, 0, 0, 49, 0, 0, 0,
        13, 0, 42, 0, 40, 4, 3, 5, 3, 6, 3, 8, 7, 8, 8, 8, 9, 8, 10, 8, 11, 8, 4, 8, 5, 8, 6,
        4, 1, 5, 1, 6, 1, 3, 3, 3, 1, 3, 2, 4, 2, 5, 2, 6, 2, 0, 43, 0, 9, 8, 3, 4, 3, 3, 3, 2,
        3, 1, 0, 45, 0, 2, 1, 1, 0, 51, 0, 38, 0, 36, 0, 29, 0, 32, 17, 140, 184, 140, 232,
        138, 8, 144, 30, 238, 25, 217, 221, 232, 212, 6, 177, 209, 226, 171, 224, 22, 99, 214,
        220, 218, 132, 164, 184, 75, 251, 14, 0, 21, 0, 172, 0, 0, 0, 0, 0, 0, 0, 0, 0, 0, 0,
        0, 0, 0, 0, 0, 0, 0, 0, 0, 0, 0, 0, 0, 0, 0, 0, 0, 0, 0, 0, 0, 0, 0, 0, 0, 0, 0, 0, 0,
        0, 0, 0, 0, 0, 0, 0, 0, 0, 0, 0, 0, 0, 0, 0, 0, 0, 0, 0, 0, 0, 0, 0, 0, 0, 0, 0, 0, 0,
        0, 0, 0, 0, 0, 0, 0, 0, 0, 0, 0, 0, 0, 0, 0, 0, 0, 0, 0, 0, 0, 0, 0, 0, 0, 0, 0, 0, 0,
        0, 0, 0, 0, 0, 0, 0, 0, 0, 0, 0, 0, 0, 0, 0, 0, 0, 0, 0, 0, 0, 0, 0, 0, 0, 0, 0, 0, 0,
        0, 0, 0, 0, 0, 0, 0, 0, 0, 0, 0, 0, 0, 0, 0, 0, 0, 0, 0, 0, 0, 0, 0, 0, 0, 0, 0, 0, 0,
        0, 0, 0, 0, 0, 0, 0, 0, 0, 0, 0, 0, 0, 0, 0, 0,
    ];
    assert(template@ == fake_tls_template());
    let mut r: Vec<u8> = Vec::new();
    let mut k: usize = 0;
    while k < len
        invariant
            0 <= k <= len,
            template@ == fake_tls_template(),
            r@ =~= decoy_bytes(len as nat).take(k as int),
        decreases len - k,
    {
        if k < FAKE_TLS_LEN {
            r.push(template[k]);
        } else {
            r.push(0u8);
        }
        k = k + 1;
    }
    r
}

/// Resolved offset of `pos` in a chunk of `size` bytes, as in `resolve_pos`.
pub fn resolve_position(pos: i32, size: usize) -> (r: i128)
    ensures
        r == resolve_pos(pos, size as int),
{
    if pos < 0 {
        size as i128 + pos as i128
    } else {
        pos as i128
    }
}

/// A negative offset `o` resolves to `size - |o|`.
pub proof fn lemma_negative_offset_from_end(o: i32, size: int)
    requires
        o < 0,
    ensures
        resolve_pos(o, size) == size - (-o),
{
}

fn cut_at(pos: i32, size: usize, prev: usize) -> (r: usize)
    requires
        prev <= size,
    ensures
        r == next_cut(pos, size as int, prev as int),
{
    if pos < 0 {
        let back: u32 = (0i64 - pos as i64) as u32;
        let back = back as usize;
        if back > size || size - back < prev {
            prev
        } else {
            size - back
        }
    } else {
        let p = pos as usize;
        if p < prev {
            prev
        } else {
            p
        }
    }
}

proof fn lemma_desync_ops_in_bounds(plan: Seq<SplitPosition>, size: usize, fake_ttl: u32, oob: u8)
    ensures
        forall|k: int|
            0 <= k < desync_ops_from(plan, 0, 0, size as int, fake_ttl, oob).len() ==> op_in_bounds(
                #[trigger] desync_ops_from(plan, 0, 0, size as int, fake_ttl, oob)[k],
                size as int,
            ),
{
    lemma_ops_from_payload(plan, 0, 0, size as int, fake_ttl, oob, Seq::new(size as nat, |k: int| 0u8));
}

impl BypassOptions {
    /// The split-plan, in the order the engine runs it.
    pub open spec fn plan(&self) -> Seq<SplitPosition> {
        self.split_positions@
    }

    pub fn new(fake_ttl: u32) -> (r: Self)
        ensures
            r.plan() == Seq::<SplitPosition>::empty(),
            r.fake_ttl == fake_ttl,
            r.oob_data == DEFAULT_OOB_DATA,
            r.timeout.is_none(),
    {
        BypassOptions {
            split_positions: Vec::new(),
            fake_ttl,
            oob_data: DEFAULT_OOB_DATA,
            timeout: None,
        }
    }

    /// Whether the split-plan holds any instruction.
    pub fn at_least_one_option(&self) -> (r: bool)
        ensures
            r == (self.plan().len() > 0),
    {
        self.split_positions.len() > 0
    }

    /// Appends `options` to the split-plan and stably re-sorts the whole plan
    /// into canonical order.
    pub fn append_options(&mut self, options: Vec<SplitPosition>)
        ensures
            is_stable_sort_of(final(self).plan(), old(self).plan() + options@),
            final(self).fake_ttl == old(self).fake_ttl,
            final(self).oob_data == old(self).oob_data,
            final(self).timeout == old(self).timeout,
    {
        let mut merged: Vec<SplitPosition> = Vec::new();
        insert_each(&mut merged, &self.split_positions);
        let ghost mid = merged;
        insert_each(&mut merged, &options);
        assert forall|p: i32| #[trigger] entries_at(merged@, p) == entries_at(
            self.split_positions@ + options@,
            p,
        ) by {
            assert(entries_at(mid@, p) == entries_at(Seq::empty() + self.split_positions@, p));
            assert(Seq::<SplitPosition>::empty() + self.split_positions@ =~= self.split_positions@);
            assert(entries_at(merged@, p) == entries_at(mid@ + options@, p));
            Seq::filter_distributes_over_add(mid@, options@, at_pos(p));
            Seq::filter_distributes_over_add(self.split_positions@, options@, at_pos(p));
        }
        self.split_positions = merged;
    }

    /// For a plan that selects only implemented kinds, the engine's operations
    /// carry the whole chunk: their payload ranges, concatenated in issue
    /// order, are exactly the chunk's first `size` bytes. On the wire the bytes
    /// differ from the chunk only where a `Fake` span sends decoy bytes in
    /// their place and where an out-of-band send adds its trailing marker.
    /// This holds for every plan, in particular for a non-empty one of
    /// non-negative offsets.
    pub proof fn lemma_desync_carries_chunk(&self, buf: Seq<u8>, size: usize)
        requires
            plan_supported(self.plan()),
            size <= buf.len(),
        ensures
            ops_payload(desync_ops_from(self.plan(), 0, 0, size as int, self.fake_ttl, self.oob_data), buf)
                == buf.take(size as int),
    {
        lemma_ops_from_payload(self.plan(), 0, 0, size as int, self.fake_ttl, self.oob_data, buf);
        assert(buf.subrange(0, size as int) =~= buf.take(size as int));
    }

    /// A plan of only `Split` and `Disorder` entries puts exactly the chunk's
    /// first `size` bytes on the wire, in order.
    pub proof fn lemma_plain_plan_sends_chunk(&self, buf: Seq<u8>, size: usize)
        requires
            plan_plain(self.plan()),
            size <= buf.len(),
        ensures
            ops_wire(desync_ops_from(self.plan(), 0, 0, size as int, self.fake_ttl, self.oob_data), buf)
                == buf.take(size as int),
    {
        let ops = desync_ops_from(self.plan(), 0, 0, size as int, self.fake_ttl, self.oob_data);
        assert(plan_supported(self.plan())) by {
            assert forall|i: int| 0 <= i < self.plan().len() implies #[trigger] self.plan()[i].desync_type
                != DesyncType::Disoob by {
                assert(self.plan()[i].desync_type == DesyncType::Split || self.plan()[i].desync_type
                    == DesyncType::Disorder);
            }
        }
        self.lemma_desync_carries_chunk(buf, size);
        lemma_plain_plan_plain_ops(self.plan(), 0, 0, size as int, self.fake_ttl, self.oob_data);
        lemma_plain_wire_is_payload(ops, buf);
    }

    /// The socket operations that deliver the first `size` bytes of a chunk
    /// according to the split-plan.
    pub fn desync_ops(&self, size: usize) -> (r: Vec<DesyncOp>)
        ensures
            r@ == desync_ops_from(self.plan(), 0, 0, size as int, self.fake_ttl, self.oob_data),
            forall|k: int| 0 <= k < r@.len() ==> op_in_bounds(#[trigger] r@[k], size as int),
    {
        let ghost plan = self.plan();
        let ghost full = desync_ops_from(plan, 0, 0, size as int, self.fake_ttl, self.oob_data);
        let mut ops: Vec<DesyncOp> = Vec::new();
        let mut prev: usize = 0;
        let mut i: usize = 0;
        while i < self.split_positions.len()
            invariant
                plan == self.split_positions@,
                full == desync_ops_from(plan, 0, 0, size as int, self.fake_ttl, self.oob_data),
                0 <= i <= plan.len(),
                prev <= size,
                ops@ + desync_ops_from(plan, i as int, prev as int, size as int, self.fake_ttl, self.oob_data)
                    == full,
            decreases plan.len() - i,
        {
            let sp = self.split_positions[i];
            let cur = cut_at(sp.pos, size, prev);
            let ghost before = ops@;
            let ghost rest = desync_ops_from(
                plan,
                i + 1,
                cur as int,
                size as int,
                self.fake_ttl,
                self.oob_data,
            );
            if cur >= size {
                ops.push(DesyncOp::Write { start: prev, end: size });
                proof {
                    lemma_desync_ops_in_bounds(plan, size, self.fake_ttl, self.oob_data);
                }
                return ops;
            }
            match sp.desync_type {
                DesyncType::Split => {
                    ops.push(DesyncOp::Write { start: prev, end: cur });
                },
                DesyncType::Disorder => {
                    ops.push(DesyncOp::SetTtl { ttl: DISORDER_TTL });
                    ops.push(DesyncOp::Write { start: prev, end: cur });
                    ops.push(DesyncOp::SetTtl { ttl: DEFAULT_TTL });
                },
                DesyncType::Splitoob => {
                    ops.push(DesyncOp::WriteOob { start: prev, end: cur, marker: self.oob_data });
                },
                DesyncType::Fake => {
                    ops.push(DesyncOp::SetTtl { ttl: self.fake_ttl });
                    ops.push(DesyncOp::Fake { start: prev, end: cur });
                    ops.push(DesyncOp::SetTtl { ttl: DEFAULT_TTL });
                },
                DesyncType::Disoob => {
                    ops.push(DesyncOp::Unsupported);
                    assert(ops@ =~= full);
                    proof {
                        lemma_desync_ops_in_bounds(plan, size, self.fake_ttl, self.oob_data);
                    }
                    return ops;
                },
            }
            let ghost seg = segment_ops(
                sp.desync_type,
                prev as int,
                cur as int,
                self.fake_ttl,
                self.oob_data,
            );
            assert(ops@ =~= before + seg);
            assert(before + (seg + rest) =~= (before + seg) + rest);
            prev = cur;
            i = i + 1;
        }
        if prev != size {
            ops.push(DesyncOp::Write { start: prev, end: size });
        }
        assert(ops@ =~= full);
        proof {
            lemma_desync_ops_in_bounds(plan, size, self.fake_ttl, self.oob_data);
        }
        ops
    }
}

} // verus!
