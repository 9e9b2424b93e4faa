use vstd::prelude::*;

use crate::error::EmuError;
use crate::label::{
    all_resolved, block_code, displacement, fresh_labels, label_step, labels_after, labels_wf, patch_labels,
    lemma_patch_refs_effect, outside_sites, patch_refs, sites_fit, sites_ordered, LabelTable,
    LabelsView,
};
use crate::tcg::{TCGOp, TCGOpcode};
use crate::x86::{exit_code, op_code, op_supported, TCGX86};

verus! {

/// Capacity in bytes of the executable region that holds a block's code.
pub const TB_CAPACITY: usize = 1024;

/// Length of the jump back to the trampoline's epilogue that ends a block.
pub const EXIT_LEN: usize = 12;

/// Every operation of `ops` is one the backend encodes.
pub open spec fn all_supported(ops: Seq<TCGOp>, nlabels: nat) -> bool {
    forall|i: int| 0 <= i < ops.len() ==> op_supported(#[trigger] ops[i], nlabels)
}

/// The block's code and its exit fit in the executable region.
pub open spec fn block_fits(ops: Seq<TCGOp>) -> bool {
    block_code(ops).len() + EXIT_LEN <= TB_CAPACITY
}

pub proof fn lemma_block_code_append(a: Seq<TCGOp>, b: Seq<TCGOp>)
    ensures
        block_code(a + b) == block_code(a) + block_code(b),
    decreases b.len(),
{
    if b.len() == 0 {
        assert(a + b =~= a);
        assert(block_code(a) + block_code(b) =~= block_code(a));
    } else {
        lemma_block_code_append(a, b.drop_last());
        assert((a + b).drop_last() =~= a + b.drop_last());
        assert((a + b).last() == b.last());
        assert(block_code(a + b) =~= block_code(a) + block_code(b));
    }
}

proof fn lemma_op_code_len(tcg: TCGOp)
    ensures
        op_code(tcg).len() <= 30,
{
}

proof fn lemma_take_step(ops: Seq<TCGOp>, i: int, t: LabelsView)
    requires
        0 <= i < ops.len(),
    ensures
        block_code(ops.take(i + 1)) == block_code(ops.take(i)) + op_code(ops[i]),
        labels_after(t, ops.take(i + 1)) == label_step(
            labels_after(t, ops.take(i)),
            ops[i],
            block_code(ops.take(i)).len(),
        ),
{
    assert(ops.take(i + 1).drop_last() =~= ops.take(i));
    assert(ops.take(i + 1).last() == ops[i]);
}

/// Encodes a whole block, then the jump to the epilogue at `exit_addr`.
///
/// Fails with `UnsupportedOperandPattern` where some operation cannot be
/// encoded, and otherwise with `MemoryMapFailure` where the code would not
/// fit in the executable region. Label markers and branches are recorded in
/// `labels` as they pass; the displacement fields are left for the patch.
pub fn emit_block(ops: &Vec<TCGOp>, labels: &mut LabelTable, exit_addr: u64) -> (r: Result<
    Vec<u8>,
    EmuError,
>)
    requires
        labels_wf(old(labels)@),
    ensures
        labels_wf(final(labels)@),
        final(labels)@.0.len() == old(labels)@.0.len(),
        !all_supported(ops@, old(labels)@.0.len()) ==> r == Err::<Vec<u8>, EmuError>(
            EmuError::UnsupportedOperandPattern,
        ),
        all_supported(ops@, old(labels)@.0.len()) && !block_fits(ops@) ==> r == Err::<
            Vec<u8>,
            EmuError,
        >(EmuError::MemoryMapFailure),
        all_supported(ops@, old(labels)@.0.len()) && block_fits(ops@) ==> r is Ok,
        r is Ok ==> r->Ok_0@ == block_code(ops@) + exit_code(exit_addr) && final(labels)@
            == labels_after(old(labels)@, ops@),
        r is Ok ==> forall|j: int|
            old(labels)@.1.len() <= j < final(labels)@.1.len()
                ==> (#[trigger] final(labels)@.1[j]).1 + 4 <= r->Ok_0@.len(),
{
    let n = labels.offsets.len();
    let mut i: usize = 0;
    while i < ops.len()
        invariant
            i <= ops@.len(),
            n == labels@.0.len(),
            labels@ == old(labels)@,
            labels_wf(labels@),
            forall|k: int| 0 <= k < i ==> op_supported(#[trigger] ops@[k], n as nat),
        decreases ops@.len() - i,
    {
        if !crate::x86::is_supported(&ops[i], n) {
            return Err(EmuError::UnsupportedOperandPattern);
        }
        i = i + 1;
    }
    let ghost old_refs = labels@.1;
    let mut mc: Vec<u8> = Vec::new();
    let mut i: usize = 0;
    while i < ops.len()
        invariant
            i <= ops@.len(),
            all_supported(ops@, n as nat),
            n == labels@.0.len(),
            n == old(labels)@.0.len(),
            old_refs == old(labels)@.1,
            labels_wf(labels@),
            mc@ == block_code(ops@.take(i as int)),
            labels@ == labels_after(old(labels)@, ops@.take(i as int)),
            mc@.len() <= TB_CAPACITY + 30,
            old_refs.len() <= labels@.1.len(),
            forall|j: int|
                old_refs.len() <= j < labels@.1.len() ==> (#[trigger] labels@.1[j]).1 + 4
                    <= mc@.len(),
        decreases ops@.len() - i,
    {
        if mc.len() > TB_CAPACITY {
            proof {
                lemma_block_code_append(ops@.take(i as int), ops@.skip(i as int));
                assert(ops@.take(i as int) + ops@.skip(i as int) =~= ops@);
            }
            return Err(EmuError::MemoryMapFailure);
        }
        proof {
            lemma_take_step(ops@, i as int, old(labels)@);
            lemma_op_code_len(ops@[i as int]);
        }
        assert(op_supported(ops@[i as int], n as nat));
        let r = TCGX86::tcg_gen(&ops[i], &mut mc, labels);
        if r.is_err() {
            return Err(EmuError::UnsupportedOperandPattern);
        }
        i = i + 1;
    }
    assert(ops@.take(i as int) =~= ops@);
    if mc.len() + EXIT_LEN > TB_CAPACITY {
        return Err(EmuError::MemoryMapFailure);
    }
    TCGX86::tcg_gen_exit(exit_addr, &mut mc);
    Ok(mc)
}

/// Translates one block: encodes `ops`, whose labels are `0..nlabels`,
/// ends the code with the jump to the epilogue at `exit_addr`, and patches
/// every branch displacement.
///
/// The errors come in this order: `UnsupportedOperandPattern` where an
/// operation cannot be encoded, `MemoryMapFailure` where the code does not
/// fit in the executable region, `UnresolvedLabel` where a branch targets a
/// label whose marker is not in the block.
pub fn translate_block(ops: &Vec<TCGOp>, nlabels: usize, exit_addr: u64) -> (r: Result<
    Vec<u8>,
    EmuError,
>)
    ensures
        !all_supported(ops@, nlabels as nat) ==> r == Err::<Vec<u8>, EmuError>(
            EmuError::UnsupportedOperandPattern,
        ),
        all_supported(ops@, nlabels as nat) && !block_fits(ops@) ==> r == Err::<
            Vec<u8>,
            EmuError,
        >(EmuError::MemoryMapFailure),
        all_supported(ops@, nlabels as nat) && block_fits(ops@) && !all_resolved(
            labels_after(fresh_labels(nlabels as nat), ops@),
        ) ==> r == Err::<Vec<u8>, EmuError>(EmuError::UnresolvedLabel),
        all_supported(ops@, nlabels as nat) && block_fits(ops@) && all_resolved(
            labels_after(fresh_labels(nlabels as nat), ops@),
        ) ==> r is Ok && r->Ok_0@ == patch_refs(
            block_code(ops@) + exit_code(exit_addr),
            labels_after(fresh_labels(nlabels as nat), ops@).0,
            labels_after(fresh_labels(nlabels as nat), ops@).1,
        ),
{
    let mut labels = LabelTable::new(nlabels);
    let mut code = match emit_block(ops, &mut labels, exit_addr) {
        Ok(c) => c,
        Err(e) => {
            return Err(e);
        },
    };
    assert(sites_fit(labels@.1, code@.len()));
    match patch_labels(&labels, &mut code) {
        Ok(()) => Ok(code),
        Err(e) => Err(e),
    }
}

/// Encoding records each branch's field just after its `jmp` opcode, in
/// rising order, inside the code.
proof fn lemma_emitted_sites(t: LabelsView, ops: Seq<TCGOp>)
    requires
        t.1.len() == 0,
        block_code(ops).len() + 5 <= u32::MAX,
    ensures
        sites_ordered(labels_after(t, ops).1),
        sites_fit(labels_after(t, ops).1, block_code(ops).len()),
        forall|j: int|
            0 <= j < labels_after(t, ops).1.len() ==> 1 <= (#[trigger] labels_after(t, ops).1[j]).1
                && block_code(ops)[labels_after(t, ops).1[j].1 - 1] == 0xe9,
    decreases ops.len(),
{
    if ops.len() > 0 {
        let pre = ops.drop_last();
        let op = ops.last();
        let pos = block_code(pre).len();
        lemma_emitted_sites(t, pre);
        let prev = labels_after(t, pre);
        let cur = labels_after(t, ops);
        let code = block_code(ops);
        assert(code == block_code(pre) + op_code(op));
        assert forall|k: int| 0 <= k < pos implies code[k] == block_code(pre)[k] by {}
        if op.op == Some(TCGOpcode::BR) {
            assert(cur.1 == prev.1.push((op.label->0, (pos + 1) as u32)));
            assert(op_code(op) == crate::x86::br_code());
            assert(code[pos as int] == 0xe9);
            assert forall|j: int| 0 <= j < cur.1.len() implies 1 <= (#[trigger] cur.1[j]).1
                && code[cur.1[j].1 - 1] == 0xe9 by {
                if j < prev.1.len() {
                    assert(cur.1[j] == prev.1[j]);
                }
            }
            assert forall|i: int, j: int| 0 <= i < j < cur.1.len() implies cur.1[i].1 + 4
                <= cur.1[j].1 by {
                assert(cur.1[i] == prev.1[i]);
                if j < prev.1.len() {
                    assert(cur.1[j] == prev.1[j]);
                }
            }
            assert forall|j: int| 0 <= j < cur.1.len() implies (#[trigger] cur.1[j]).1 + 4
                <= code.len() by {
                if j < prev.1.len() {
                    assert(cur.1[j] == prev.1[j]);
                }
            }
        } else {
            assert(cur.1 == prev.1);
            assert forall|j: int| 0 <= j < cur.1.len() implies 1 <= (#[trigger] cur.1[j]).1
                && code[cur.1[j].1 - 1] == 0xe9 by {
                assert(cur.1[j] == prev.1[j]);
            }
            assert forall|j: int| 0 <= j < cur.1.len() implies (#[trigger] cur.1[j]).1 + 4
                <= code.len() by {
                assert(cur.1[j] == prev.1[j]);
            }
        }
    }
}

/// In any block that fits its region, translation patches each branch's
/// field: the four bytes after the branch's `jmp` opcode receive the
/// distance from the field's end to the branch's label, and every byte that
/// lies in no such field is as the backend emitted it.
pub proof fn lemma_patched_block(ops: Seq<TCGOp>, nlabels: nat, exit_addr: u64)
    requires
        block_fits(ops),
    ensures
        ({
            let t = labels_after(fresh_labels(nlabels), ops);
            let code = block_code(ops) + exit_code(exit_addr);
            let patched = patch_refs(code, t.0, t.1);
            &&& patched.len() == code.len()
            &&& forall|j: int|
                0 <= j < t.1.len() ==> 1 <= (#[trigger] t.1[j]).1 && code[t.1[j].1 - 1] == 0xe9
                    && patched.subrange(t.1[j].1 as int, t.1[j].1 + 4) == crate::x86::le4(
                    displacement(t.0[t.1[j].0 as int]->0, t.1[j].1),
                )
            &&& forall|i: int|
                0 <= i < code.len() && outside_sites(t.1, i) ==> patched[i] == code[i]
        }),
{
    let f = fresh_labels(nlabels);
    let t = labels_after(f, ops);
    let code = block_code(ops) + exit_code(exit_addr);
    lemma_emitted_sites(f, ops);
    assert(sites_fit(t.1, code.len()));
    lemma_patch_refs_effect(code, t.0, t.1);
    assert forall|j: int| 0 <= j < t.1.len() implies 1 <= (#[trigger] t.1[j]).1 && code[t.1[j].1
        - 1] == 0xe9 by {
        assert(block_code(ops)[t.1[j].1 - 1] == 0xe9);
    }
}

/// `op` is the marker of label `l`.
pub open spec fn is_marker(op: TCGOp, l: int) -> bool {
    op.op is None && op.label is Some && op.label->0 == l
}

/// In a block whose operations encode, a label is placed exactly when one
/// of its markers is in the block, and then at the length of the code
/// emitted before its last marker: a branch to it lands on the first byte
/// emitted after that marker.
pub proof fn lemma_label_offsets(ops: Seq<TCGOp>, nlabels: nat)
    requires
        all_supported(ops, nlabels),
        block_code(ops).len() <= u32::MAX,
    ensures
        labels_after(fresh_labels(nlabels), ops).0.len() == nlabels,
        forall|l: int|
            0 <= l < nlabels ==> ((#[trigger] labels_after(fresh_labels(nlabels), ops).0[l]) is None
                <==> forall|k: int| 0 <= k < ops.len() ==> !#[trigger] is_marker(ops[k], l)),
        forall|l: int, k: int|
            0 <= l < nlabels && 0 <= k < ops.len() && #[trigger] is_marker(ops[k], l) && (forall|
                k2: int,
            |
                k < k2 < ops.len() ==> !#[trigger] is_marker(ops[k2], l)) ==> labels_after(
                fresh_labels(nlabels),
                ops,
            ).0[l] == Some(block_code(ops.take(k)).len() as u32),
    decreases ops.len(),
{
    let f = fresh_labels(nlabels);
    if ops.len() == 0 {
        assert forall|l: int| 0 <= l < nlabels implies (#[trigger] labels_after(f, ops).0[l]) is None
            by {}
    } else {
        let pre = ops.drop_last();
        let op = ops.last();
        let last = ops.len() - 1;
        assert(op == ops[last]);
        assert(all_supported(pre, nlabels)) by {
            assert forall|i: int| 0 <= i < pre.len() implies op_supported(#[trigger] pre[i], nlabels) by {
                assert(pre[i] == ops[i]);
            }
        }
        assert(block_code(ops) == block_code(pre) + op_code(op));
        lemma_label_offsets(pre, nlabels);
        let prev = labels_after(f, pre);
        let cur = labels_after(f, ops);
        let pos = block_code(pre).len();
        assert(op_supported(ops[last], nlabels));
        assert(ops.take(last) =~= pre);
        if op.op is None {
            let lm = op.label->0 as int;
            assert(cur.0 == prev.0.update(lm, Some(pos as u32)));
            assert forall|l: int| 0 <= l < nlabels implies ((#[trigger] cur.0[l]) is None <==> forall|
                k: int,
            | 0 <= k < ops.len() ==> !#[trigger] is_marker(ops[k], l)) by {
                if l == lm {
                    assert(is_marker(ops[last], l));
                } else {
                    assert(cur.0[l] == prev.0[l]);
                    if prev.0[l] is None {
                        assert forall|k: int| 0 <= k < ops.len() implies !#[trigger] is_marker(ops[k], l) by {
                            if k < last {
                                assert(ops[k] == pre[k]);
                            }
                        }
                    } else {
                        let k0 = choose|k: int| 0 <= k < pre.len() && #[trigger] is_marker(pre[k], l);
                        assert(ops[k0] == pre[k0]);
                    }
                }
            }
            assert forall|l: int, k: int|
                0 <= l < nlabels && 0 <= k < ops.len() && #[trigger] is_marker(ops[k], l) && (forall|
                    k2: int,
                | k < k2 < ops.len() ==> !#[trigger] is_marker(ops[k2], l)) implies cur.0[l] == Some(
                block_code(ops.take(k)).len() as u32) by {
                if k == last {
                    assert(l == lm);
                } else {
                    assert(!is_marker(ops[last], l));
                    assert(l != lm);
                    assert(ops[k] == pre[k]);
                    assert(ops.take(k) =~= pre.take(k));
                    assert forall|k2: int| k < k2 < pre.len() implies !#[trigger] is_marker(pre[k2], l) by {
                        assert(pre[k2] == ops[k2]);
                    }
                }
            }
        } else {
            assert(cur.0 == prev.0);
            assert forall|l: int| 0 <= l < nlabels implies ((#[trigger] cur.0[l]) is None <==> forall|
                k: int,
            | 0 <= k < ops.len() ==> !#[trigger] is_marker(ops[k], l)) by {
                if prev.0[l] is None {
                    assert forall|k: int| 0 <= k < ops.len() implies !#[trigger] is_marker(ops[k], l) by {
                        if k < last {
                            assert(ops[k] == pre[k]);
                        }
                    }
                } else {
                    let k0 = choose|k: int| 0 <= k < pre.len() && #[trigger] is_marker(pre[k], l);
                    assert(ops[k0] == pre[k0]);
                }
            }
            assert forall|l: int, k: int|
                0 <= l < nlabels && 0 <= k < ops.len() && #[trigger] is_marker(ops[k], l) && (forall|
                    k2: int,
                | k < k2 < ops.len() ==> !#[trigger] is_marker(ops[k2], l)) implies cur.0[l] == Some(
                block_code(ops.take(k)).len() as u32) by {
                assert(k != last);
                assert(ops[k] == pre[k]);
                assert(ops.take(k) =~= pre.take(k));
                assert forall|k2: int| k < k2 < pre.len() implies !#[trigger] is_marker(pre[k2], l) by {
                    assert(pre[k2] == ops[k2]);
                }
            }
        }
    }
}

/// An unconditional branch to label `l`.
pub open spec fn branch_op(l: usize) -> TCGOp {
    TCGOp { op: Some(TCGOpcode::BR), arg0: None, arg1: None, arg2: None, label: Some(l) }
}

/// The marker that places label `l`.
pub open spec fn marker_op(l: usize) -> TCGOp {
    TCGOp { op: None, arg0: None, arg1: None, arg2: None, label: Some(l) }
}

/// Operations that neither branch nor place a label.
pub open spec fn straight_line(ops: Seq<TCGOp>) -> bool {
    forall|i: int|
        0 <= i < ops.len() ==> (#[trigger] ops[i]).op is Some && ops[i].op != Some(
            TCGOpcode::BR,
        )
}

proof fn lemma_straight_labels(t: LabelsView, pre: Seq<TCGOp>, mid: Seq<TCGOp>)
    requires
        straight_line(mid),
    ensures
        labels_after(t, pre + mid) == labels_after(t, pre),
    decreases mid.len(),
{
    if mid.len() == 0 {
        assert(pre + mid =~= pre);
    } else {
        lemma_straight_labels(t, pre, mid.drop_last());
        assert((pre + mid).drop_last() =~= pre + mid.drop_last());
        assert((pre + mid).last() == mid.last());
        assert(mid.last() == mid[mid.len() - 1]);
    }
}

/// A branch to a label, straight-line code, then the label's marker: once
/// the block is translated, the label sits just after that code, the
/// branch's field is the block's only reference site, and patching writes
/// there the distance from the field's end to the label, which is the length
/// of the straight-line code.
pub proof fn lemma_label_round_trip(mid: Seq<TCGOp>, l: usize, nlabels: nat, exit_addr: u64)
    requires
        l < nlabels,
        straight_line(mid),
        block_code(mid).len() + 5 <= u32::MAX,
    ensures
        ({
            let ops = seq![branch_op(l)] + mid + seq![marker_op(l)];
            let t = labels_after(fresh_labels(nlabels), ops);
            let code = block_code(ops) + exit_code(exit_addr);
            let patched = patch_refs(code, t.0, t.1);
            &&& t.0[l as int] == Some((5 + block_code(mid).len()) as u32)
            &&& t.1 == seq![(l, 1u32)]
            &&& all_resolved(t)
            &&& displacement(t.0[l as int]->0, 1) == block_code(mid).len()
            &&& patched.len() == code.len()
            &&& patched.subrange(1, 5) == crate::x86::le4(displacement(t.0[l as int]->0, 1))
            &&& forall|i: int| 0 <= i < code.len() && !(1 <= i < 5) ==> patched[i] == code[i]
        }),
{
    let f = fresh_labels(nlabels);
    let head = seq![branch_op(l)];
    let body = head + mid;
    let ops = body + seq![marker_op(l)];
    assert(head.drop_last() =~= Seq::<TCGOp>::empty());
    assert(head.last() == branch_op(l));
    assert(block_code(Seq::<TCGOp>::empty()) =~= Seq::<u8>::empty());
    assert(labels_after(f, Seq::<TCGOp>::empty()) == f);
    assert(op_code(branch_op(l)) == crate::x86::br_code());
    assert(block_code(head) =~= crate::x86::br_code());
    let t1 = labels_after(f, head);
    assert(t1 == label_step(f, branch_op(l), 0));
    lemma_straight_labels(f, head, mid);
    lemma_block_code_append(head, mid);
    assert(ops.drop_last() =~= body);
    assert(ops.last() == marker_op(l));
    let t = labels_after(f, ops);
    assert(t == label_step(labels_after(f, body), marker_op(l), block_code(body).len()));
    assert(t.1 =~= seq![(l, 1u32)]);
    assert(t.0[l as int] == Some((5 + block_code(mid).len()) as u32));
    assert(all_resolved(t));
    lemma_block_code_append(body, seq![marker_op(l)]);
    let code = block_code(ops) + exit_code(exit_addr);
    assert(t.1.drop_last() =~= Seq::<(usize, u32)>::empty());
    assert(t.1.last() == (l, 1u32));
    assert(patch_refs(code, t.0, Seq::<(usize, u32)>::empty()) == code);
    assert(patch_refs(code, t.0, t.1) == crate::label::write4(
        code,
        1,
        displacement(t.0[l as int]->0, 1),
    ));
    assert(patch_refs(code, t.0, t.1).subrange(1, 5) =~= crate::x86::le4(
        displacement(t.0[l as int]->0, 1),
    ));
}

} // verus!
