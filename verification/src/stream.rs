//! What a run over two byte streams yields, stated over the streams alone:
//! how many blocks are compared, which of them are rewritten, and what the
//! target holds afterwards.
//!
//! A stream is read in blocks of a fixed size, every read as long as the
//! stream allows, so block `k` starts at byte `k * block_size`.

use vstd::prelude::*;

verus! {

/// `at`, or `len` where `at` lies past it.
pub open spec fn clip(at: nat, len: nat) -> nat {
    if at <= len {
        at
    } else {
        len
    }
}

/// Block `k` of `stream`: the bytes from `k * block_size` up to the next
/// block's start, or up to the stream's end where that comes first.
pub open spec fn block(stream: Seq<u8>, k: nat, block_size: nat) -> Seq<u8> {
    stream.subrange(
        clip(k * block_size, stream.len()) as int,
        clip(k * block_size + block_size, stream.len()) as int,
    )
}

/// Whether pair `k` ends the comparison: one of the two blocks is empty, or
/// they differ in length.
pub open spec fn pair_ends(source: Seq<u8>, target: Seq<u8>, k: nat, block_size: nat) -> bool {
    let s = block(source, k, block_size);
    let t = block(target, k, block_size);
    s.len() == 0 || t.len() == 0 || s.len() != t.len()
}

/// The shorter of the two lengths.
pub open spec fn common_len(source: Seq<u8>, target: Seq<u8>) -> nat {
    clip(source.len(), target.len())
}

/// How many pairs are compared before one ends the comparison: the full
/// blocks that both streams have, and one more shorter block where the
/// streams are equally long and end inside a block.
pub open spec fn compared_blocks(source: Seq<u8>, target: Seq<u8>, block_size: nat) -> nat {
    let common = common_len(source, target);
    if block_size == 0 {
        0
    } else if source.len() == target.len() && common % block_size != 0 {
        common / block_size + 1
    } else {
        common / block_size
    }
}

/// How many bytes the compared pairs cover.
pub open spec fn compared_bytes(source: Seq<u8>, target: Seq<u8>, block_size: nat) -> nat {
    clip(compared_blocks(source, target, block_size) * block_size, common_len(source, target))
}

/// Whether the two streams differ in block `k`.
pub open spec fn differs(source: Seq<u8>, target: Seq<u8>, k: nat, block_size: nat) -> bool {
    block(source, k, block_size) != block(target, k, block_size)
}

/// How many of the first `k` pairs differ.
pub open spec fn differing_blocks(
    source: Seq<u8>,
    target: Seq<u8>,
    block_size: nat,
    k: nat,
) -> nat
    decreases k,
{
    if k == 0 {
        0
    } else {
        let before = differing_blocks(source, target, block_size, (k - 1) as nat);
        if differs(source, target, (k - 1) as nat, block_size) {
            before + 1
        } else {
            before
        }
    }
}

/// One write: `bytes` at byte offset `position` of the target.
#[verifier::ext_equal]
pub struct WriteRequest {
    pub position: nat,
    pub bytes: Seq<u8>,
}

/// The writes that the first `k` pairs ask for, in stream order: for each
/// pair that differs, the source's block at the block's offset.
pub open spec fn write_plan(
    source: Seq<u8>,
    target: Seq<u8>,
    block_size: nat,
    k: nat,
) -> Seq<WriteRequest>
    decreases k,
{
    if k == 0 {
        Seq::empty()
    } else {
        let before = write_plan(source, target, block_size, (k - 1) as nat);
        if differs(source, target, (k - 1) as nat, block_size) {
            before.push(
                WriteRequest {
                    position: ((k - 1) * block_size) as nat,
                    bytes: block(source, (k - 1) as nat, block_size),
                },
            )
        } else {
            before
        }
    }
}

/// The blocks compared in a whole run.
pub open spec fn total_count(source: Seq<u8>, target: Seq<u8>, block_size: nat) -> nat {
    compared_blocks(source, target, block_size)
}

/// The blocks rewritten in a whole run.
pub open spec fn diff_count(source: Seq<u8>, target: Seq<u8>, block_size: nat) -> nat {
    differing_blocks(source, target, block_size, compared_blocks(source, target, block_size))
}

/// The writes of a whole run.
pub open spec fn writes(source: Seq<u8>, target: Seq<u8>, block_size: nat) -> Seq<WriteRequest> {
    write_plan(source, target, block_size, compared_blocks(source, target, block_size))
}

/// The target after a run: the source's bytes as far as pairs were
/// compared, the target's own bytes from there on.
pub open spec fn synced(source: Seq<u8>, target: Seq<u8>, block_size: nat) -> Seq<u8> {
    let done = compared_bytes(source, target, block_size) as int;
    source.take(done) + target.skip(done)
}

/// The length of block `k` of a stream of `len` bytes: a full block below
/// the last full one, the rest of the stream right after it, nothing
/// beyond.
pub proof fn lemma_block_len(stream: Seq<u8>, k: nat, block_size: nat)
    requires
        block_size > 0,
    ensures
        k < stream.len() / block_size ==> {
            &&& k * block_size + block_size <= stream.len()
            &&& block(stream, k, block_size).len() == block_size
        },
        k == stream.len() / block_size ==> {
            &&& k * block_size <= stream.len() < k * block_size + block_size
            &&& block(stream, k, block_size).len() == stream.len() % block_size
        },
        k > stream.len() / block_size ==> {
            &&& k * block_size > stream.len()
            &&& block(stream, k, block_size).len() == 0
        },
{
    let len = stream.len() as int;
    let bs = block_size as int;
    let q = len / bs;
    let r = len % bs;
    assert(len == bs * q + r && 0 <= r < bs) by (nonlinear_arith)
        requires
            bs > 0,
            q == len / bs,
            r == len % bs,
    ;
    if k < q {
        assert(k * bs + bs <= q * bs) by (nonlinear_arith)
            requires
                k + 1 <= q,
                bs > 0,
        ;
        assert(q * bs == bs * q) by (nonlinear_arith);
    } else if k == q {
        assert(k * bs == bs * q) by (nonlinear_arith)
            requires
                k == q,
        ;
    } else {
        assert(k * bs >= q * bs + bs) by (nonlinear_arith)
            requires
                k >= q + 1,
                bs > 0,
        ;
        assert(q * bs == bs * q) by (nonlinear_arith);
    }
}

/// `compared_blocks` is the index of the first pair that ends the
/// comparison: every pair before it is compared, and that pair is not.
pub proof fn lemma_compared_blocks_is_first_end(
    source: Seq<u8>,
    target: Seq<u8>,
    block_size: nat,
)
    ensures
        pair_ends(source, target, compared_blocks(source, target, block_size), block_size),
        forall|j: nat|
            j < compared_blocks(source, target, block_size) ==> !pair_ends(
                source,
                target,
                j,
                block_size,
            ),
{
    let n = compared_blocks(source, target, block_size);
    if block_size == 0 {
        assert(block(source, 0, 0).len() == 0);
    } else {
        lemma_compared_pairs(source, target, block_size);
        lemma_block_len(source, n, block_size);
        lemma_block_len(target, n, block_size);
        lemma_quotient_order(source.len(), target.len(), block_size);
        lemma_quotient_order(target.len(), source.len(), block_size);
    }
}

/// Of two lengths, the shorter has the smaller quotient, and where the
/// quotients agree, the smaller remainder.
proof fn lemma_quotient_order(a: nat, b: nat, block_size: nat)
    requires
        block_size > 0,
    ensures
        a <= b ==> a / block_size <= b / block_size,
        a <= b && a / block_size == b / block_size ==> a % block_size <= b % block_size,
        a < b && a / block_size == b / block_size ==> a % block_size < b % block_size,
{
    let bs = block_size as int;
    let (qa, ra, qb, rb) = (a as int / bs, a as int % bs, b as int / bs, b as int % bs);
    assert(a == bs * qa + ra && 0 <= ra < bs) by (nonlinear_arith)
        requires
            bs > 0,
            qa == a as int / bs,
            ra == a as int % bs,
    ;
    assert(b == bs * qb + rb && 0 <= rb < bs) by (nonlinear_arith)
        requires
            bs > 0,
            qb == b as int / bs,
            rb == b as int % bs,
    ;
    if a <= b && qa > qb {
        assert(bs * qa >= bs * qb + bs) by (nonlinear_arith)
            requires
                qa >= qb + 1,
                bs > 0,
        ;
    }
}

/// Every pair below `compared_blocks` is compared: the two blocks are
/// equally long and not empty, and they end inside the compared bytes.
pub proof fn lemma_compared_pairs(source: Seq<u8>, target: Seq<u8>, block_size: nat)
    requires
        block_size > 0,
    ensures
        forall|j: nat|
            j < compared_blocks(source, target, block_size) ==> {
                &&& !(#[trigger] pair_ends(source, target, j, block_size))
                &&& j * block_size < common_len(source, target)
                &&& j * block_size + block(source, j, block_size).len() <= compared_bytes(
                    source,
                    target,
                    block_size,
                )
            },
        compared_bytes(source, target, block_size) <= common_len(source, target),
{
    let n = compared_blocks(source, target, block_size);
    let common = common_len(source, target);
    lemma_quotient_order(source.len(), target.len(), block_size);
    lemma_quotient_order(target.len(), source.len(), block_size);
    assert forall|j: nat| j < n implies {
        &&& !(#[trigger] pair_ends(source, target, j, block_size))
        &&& j * block_size < common
        &&& j * block_size + block(source, j, block_size).len() <= compared_bytes(
            source,
            target,
            block_size,
        )
    } by {
        lemma_block_len(source, j, block_size);
        lemma_block_len(target, j, block_size);
        assert(j * block_size + block_size <= n * block_size) by (nonlinear_arith)
            requires
                j + 1 <= n,
                block_size > 0,
        ;
    }
}

/// Where none of the first `k` pairs differs, none is counted and none is
/// written.
pub proof fn lemma_no_difference(source: Seq<u8>, target: Seq<u8>, block_size: nat, k: nat)
    requires
        forall|j: nat| j < k ==> !differs(source, target, j, block_size),
    ensures
        differing_blocks(source, target, block_size, k) == 0,
        write_plan(source, target, block_size, k) == Seq::<WriteRequest>::empty(),
    decreases k,
{
    if k > 0 {
        lemma_no_difference(source, target, block_size, (k - 1) as nat);
    }
}

/// Every write that the compared pairs ask for lies inside the compared
/// bytes, starts at a block's offset, and is as long as the target's block
/// that it replaces.
pub proof fn lemma_writes_stay_inside(source: Seq<u8>, target: Seq<u8>, block_size: nat, k: nat)
    requires
        k <= compared_blocks(source, target, block_size),
    ensures
        write_plan(source, target, block_size, k).len() == differing_blocks(
            source,
            target,
            block_size,
            k,
        ),
        forall|i: int|
            0 <= i < write_plan(source, target, block_size, k).len() ==> {
                let w = #[trigger] write_plan(source, target, block_size, k)[i];
                &&& w.position + w.bytes.len() <= compared_bytes(source, target, block_size)
                &&& exists|j: nat|
                    j < k && w.position == j * block_size && w.bytes == block(
                        source,
                        j,
                        block_size,
                    ) && w.bytes.len() == #[trigger] block(target, j, block_size).len()
            },
    decreases k,
{
    if k > 0 {
        let j = (k - 1) as nat;
        lemma_writes_stay_inside(source, target, block_size, j);
        lemma_compared_pairs(source, target, block_size);
        assert(!pair_ends(source, target, j, block_size));
        let before = write_plan(source, target, block_size, j);
        let plan = write_plan(source, target, block_size, k);
        assert forall|i: int| 0 <= i < plan.len() implies {
            let w = #[trigger] plan[i];
            &&& w.position + w.bytes.len() <= compared_bytes(source, target, block_size)
            &&& exists|j: nat|
                j < k && w.position == j * block_size && w.bytes == block(source, j, block_size)
                    && w.bytes.len() == #[trigger] block(target, j, block_size).len()
        } by {
            if i < before.len() {
                let w = before[i];
                let j0 = choose|j0: nat|
                    j0 < j && w.position == j0 * block_size && w.bytes == block(
                        source,
                        j0,
                        block_size,
                    ) && w.bytes.len() == #[trigger] block(target, j0, block_size).len();
                assert(j0 < k);
            } else {
                assert(plan[i].bytes.len() == block(target, j, block_size).len());
            }
        }
    }
}

/// Where one of the two streams is empty, the first pair ends the
/// comparison: nothing is compared, nothing is written, and the target
/// stays as it is.
pub proof fn law_empty_stream_compares_nothing(
    source: Seq<u8>,
    target: Seq<u8>,
    block_size: nat,
)
    requires
        source.len() == 0 || target.len() == 0,
    ensures
        pair_ends(source, target, 0, block_size),
        total_count(source, target, block_size) == 0,
        diff_count(source, target, block_size) == 0,
        writes(source, target, block_size) == Seq::<WriteRequest>::empty(),
        synced(source, target, block_size) == target,
{
    assert(0 * block_size == 0) by (nonlinear_arith);
    if block_size > 0 {
        assert(0nat / block_size == 0 && 0nat % block_size == 0) by (nonlinear_arith)
            requires
                block_size > 0,
        ;
    }
    assert(source.take(0) + target.skip(0) =~= target);
}

/// Two streams that are byte for byte the same: every block is compared,
/// none differs, and no write is asked for.
pub proof fn law_identical_streams_write_nothing(
    source: Seq<u8>,
    target: Seq<u8>,
    block_size: nat,
)
    requires
        source == target,
    ensures
        diff_count(source, target, block_size) == 0,
        writes(source, target, block_size) == Seq::<WriteRequest>::empty(),
        synced(source, target, block_size) == target,
        compared_bytes(source, target, block_size) == if block_size == 0 {
            0
        } else {
            source.len()
        },
{
    lemma_no_difference(
        source,
        target,
        block_size,
        compared_blocks(source, target, block_size),
    );
    let done = compared_bytes(source, target, block_size) as int;
    assert(source.take(done) + target.skip(done) =~= target);
    if block_size > 0 {
        let len = source.len() as int;
        let bs = block_size as int;
        assert(len == bs * (len / bs) + len % bs && 0 <= len % bs < bs) by (nonlinear_arith)
            requires
                bs > 0,
                len >= 0,
        ;
        assert((len / bs + 1) * bs == bs * (len / bs) + bs) by (nonlinear_arith);
        assert((len / bs) * bs == bs * (len / bs)) by (nonlinear_arith);
    }
}

/// Two streams that differ in one compared block only, block `d`: that
/// block is the one block counted as different, and the one write asked for
/// puts the source's block `d` at byte `d * block_size`, as many bytes as
/// the target's block has.
pub proof fn law_single_difference_single_write(
    source: Seq<u8>,
    target: Seq<u8>,
    block_size: nat,
    d: nat,
)
    requires
        d < compared_blocks(source, target, block_size),
        differs(source, target, d, block_size),
        forall|j: nat|
            j < compared_blocks(source, target, block_size) && j != d ==> !differs(
                source,
                target,
                j,
                block_size,
            ),
    ensures
        diff_count(source, target, block_size) == 1,
        writes(source, target, block_size) == seq![
            WriteRequest { position: d * block_size, bytes: block(source, d, block_size) },
        ],
        block(source, d, block_size).len() == block(target, d, block_size).len(),
{
    let n = compared_blocks(source, target, block_size);
    lemma_single_difference(source, target, block_size, d, n);
    lemma_compared_blocks_is_first_end(source, target, block_size);
    assert(!pair_ends(source, target, d, block_size));
}

/// The first `k` pairs of two streams that differ, below `k`, in block `d`
/// only.
proof fn lemma_single_difference(
    source: Seq<u8>,
    target: Seq<u8>,
    block_size: nat,
    d: nat,
    k: nat,
)
    requires
        differs(source, target, d, block_size),
        forall|j: nat| j < k && j != d ==> !differs(source, target, j, block_size),
    ensures
        differing_blocks(source, target, block_size, k) == if k <= d {
            0nat
        } else {
            1nat
        },
        write_plan(source, target, block_size, k) == if k <= d {
            Seq::<WriteRequest>::empty()
        } else {
            seq![WriteRequest { position: d * block_size, bytes: block(source, d, block_size) }]
        },
    decreases k,
{
    if k > 0 {
        lemma_single_difference(source, target, block_size, d, (k - 1) as nat);
        if k - 1 == d {
            assert(Seq::<WriteRequest>::empty().push(
                WriteRequest { position: d * block_size, bytes: block(source, d, block_size) },
            ) =~= seq![
                WriteRequest { position: d * block_size, bytes: block(source, d, block_size) },
            ]);
        }
    }
}

/// Two streams of different lengths: the comparison covers the full blocks
/// that both have and ends at the first pair after them, whose blocks
/// differ in length. No write reaches past the shorter stream's end.
pub proof fn law_length_mismatch_ends_run(source: Seq<u8>, target: Seq<u8>, block_size: nat)
    requires
        block_size > 0,
        source.len() != target.len(),
    ensures
        total_count(source, target, block_size) == common_len(source, target) / block_size,
        block(source, total_count(source, target, block_size), block_size).len() != block(
            target,
            total_count(source, target, block_size),
            block_size,
        ).len(),
        forall|j: nat|
            j < total_count(source, target, block_size) ==> block(source, j, block_size).len()
                == #[trigger] block(target, j, block_size).len(),
        forall|i: int|
            0 <= i < writes(source, target, block_size).len() ==> {
                let w = #[trigger] writes(source, target, block_size)[i];
                w.position + w.bytes.len() <= common_len(source, target)
            },
{
    let n = total_count(source, target, block_size);
    lemma_block_len(source, n, block_size);
    lemma_block_len(target, n, block_size);
    lemma_quotient_order(source.len(), target.len(), block_size);
    lemma_quotient_order(target.len(), source.len(), block_size);
    lemma_compared_pairs(source, target, block_size);
    lemma_writes_stay_inside(source, target, block_size, n);
    assert forall|j: nat| j < n implies block(source, j, block_size).len() == #[trigger] block(
        target,
        j,
        block_size,
    ).len() by {
        assert(!pair_ends(source, target, j, block_size));
    }
}

/// A second run on the outcome of a first compares the same blocks, finds
/// none that differs, asks for no write, and leaves the target as it is.
pub proof fn law_second_run_writes_nothing(source: Seq<u8>, target: Seq<u8>, block_size: nat)
    ensures
        total_count(source, synced(source, target, block_size), block_size) == total_count(
            source,
            target,
            block_size,
        ),
        diff_count(source, synced(source, target, block_size), block_size) == 0,
        writes(source, synced(source, target, block_size), block_size) == Seq::<
            WriteRequest,
        >::empty(),
        synced(source, synced(source, target, block_size), block_size) == synced(
            source,
            target,
            block_size,
        ),
{
    let once = synced(source, target, block_size);
    let n = compared_blocks(source, target, block_size);
    let done = compared_bytes(source, target, block_size);
    if block_size > 0 {
        lemma_compared_pairs(source, target, block_size);
    }
    assert(once.len() == target.len());
    assert(compared_blocks(source, once, block_size) == n);
    assert forall|j: nat| j < n implies !differs(source, once, j, block_size) by {
        assert(!pair_ends(source, target, j, block_size));
        assert(block(source, j, block_size) =~= block(once, j, block_size));
    }
    lemma_no_difference(source, once, block_size, n);
    assert(source.take(done as int) + once.skip(done as int) =~= once);
}

/// `target` with `bytes` standing at `position`, over what was there.
pub open spec fn patched(target: Seq<u8>, position: int, bytes: Seq<u8>) -> Seq<u8> {
    target.take(position) + bytes + target.skip(position + bytes.len())
}

/// `target` after the writes of `plan`, committed in order.
pub open spec fn applied(target: Seq<u8>, plan: Seq<WriteRequest>) -> Seq<u8>
    decreases plan.len(),
{
    if plan.len() == 0 {
        target
    } else {
        patched(applied(target, plan.drop_last()), plan.last().position as int, plan.last().bytes)
    }
}

/// Whether each of the first `k` pairs is compared: none of them ends the
/// comparison.
pub open spec fn compared_through(
    source: Seq<u8>,
    target: Seq<u8>,
    block_size: nat,
    k: nat,
) -> bool {
    forall|j: nat| j < k ==> !pair_ends(source, target, j, block_size)
}

/// Where `k` compared pairs end: at the start of block `k`, the same place
/// in both streams, or at the end of both. Every write that they ask for
/// lies before that place.
pub proof fn lemma_compared_prefix(source: Seq<u8>, target: Seq<u8>, block_size: nat, k: nat)
    requires
        compared_through(source, target, block_size, k),
    ensures
        clip(k * block_size, source.len()) == clip(k * block_size, target.len()),
        write_plan(source, target, block_size, k).len() == differing_blocks(
            source,
            target,
            block_size,
            k,
        ),
        forall|i: int|
            0 <= i < write_plan(source, target, block_size, k).len() ==> {
                let w = #[trigger] write_plan(source, target, block_size, k)[i];
                w.position + w.bytes.len() <= clip(k * block_size, source.len())
            },
    decreases k,
{
    if k == 0 {
        assert(0 * block_size == 0) by (nonlinear_arith);
    } else {
        let j = (k - 1) as nat;
        lemma_compared_prefix(source, target, block_size, j);
        assert(!pair_ends(source, target, j, block_size));
        assert(k * block_size == j * block_size + block_size) by (nonlinear_arith)
            requires
                k == j + 1,
        ;
    }
}

/// Writes that all lie before `from` leave the target as long as it was,
/// and untouched from `from` on.
pub proof fn lemma_applied_keeps_rest(target: Seq<u8>, plan: Seq<WriteRequest>, from: nat)
    requires
        from <= target.len(),
        forall|i: int|
            0 <= i < plan.len() ==> (#[trigger] plan[i]).position + plan[i].bytes.len() <= from,
    ensures
        applied(target, plan).len() == target.len(),
        applied(target, plan).skip(from as int) == target.skip(from as int),
    decreases plan.len(),
{
    if plan.len() > 0 {
        let before = plan.drop_last();
        assert forall|i: int| 0 <= i < before.len() implies (#[trigger] before[i]).position
            + before[i].bytes.len() <= from by {
            assert(before[i] == plan[i]);
        }
        lemma_applied_keeps_rest(target, before, from);
        let w = plan.last();
        assert(w == plan[plan.len() - 1]);
        assert(applied(target, plan).skip(from as int) =~= applied(target, before).skip(
            from as int,
        ));
    }
}

/// After the writes that `k` compared pairs ask for, the target holds the
/// source's bytes up to where the pairs end, and its own from there on.
pub proof fn lemma_applied_plan(source: Seq<u8>, target: Seq<u8>, block_size: nat, k: nat)
    requires
        compared_through(source, target, block_size, k),
    ensures
        applied(target, write_plan(source, target, block_size, k)) == source.take(
            clip(k * block_size, source.len()) as int,
        ) + target.skip(clip(k * block_size, source.len()) as int),
    decreases k,
{
    let end = clip(k * block_size, source.len()) as int;
    if k == 0 {
        assert(0 * block_size == 0) by (nonlinear_arith);
        assert(target =~= source.take(0) + target.skip(0));
    } else {
        let j = (k - 1) as nat;
        lemma_applied_plan(source, target, block_size, j);
        lemma_compared_prefix(source, target, block_size, j);
        assert(!pair_ends(source, target, j, block_size));
        assert(k * block_size == j * block_size + block_size) by (nonlinear_arith)
            requires
                k == j + 1,
        ;
        let start = clip(j * block_size, source.len()) as int;
        let so_far = source.take(start) + target.skip(start);
        let s = block(source, j, block_size);
        let t = block(target, j, block_size);
        if differs(source, target, j, block_size) {
            let plan = write_plan(source, target, block_size, k);
            assert(plan.drop_last() =~= write_plan(source, target, block_size, j));
            assert(patched(so_far, start, s) =~= source.take(end) + target.skip(end));
        } else {
            assert forall|i: int| start <= i < end implies source[i] == target[i] by {
                assert(s[i - start] == t[i - start]);
            }
            assert(so_far =~= source.take(end) + target.skip(end));
        }
    }
}

/// The writes of a whole run turn the target into the synced target.
pub proof fn law_writes_make_synced(source: Seq<u8>, target: Seq<u8>, block_size: nat)
    ensures
        applied(target, writes(source, target, block_size)) == synced(source, target, block_size),
{
    let n = compared_blocks(source, target, block_size);
    lemma_compared_blocks_is_first_end(source, target, block_size);
    lemma_applied_plan(source, target, block_size, n);
    lemma_compared_prefix(source, target, block_size, n);
}

} // verus!
