use vstd::prelude::*;

use crate::tcg::{TCGOp, TCGOpcode};
use crate::error::EmuError;
use crate::x86::{le4, le_byte, op_code};

verus! {

/// The labels of one translation block.
///
/// `offsets[l]` is the native offset of label `l` once its marker has been
/// passed. `refs` lists, in the order they were emitted, the reference sites:
/// each is a label and the offset of a 4-byte displacement field that must
/// be patched to reach that label.
pub struct LabelTable {
    pub offsets: Vec<Option<u32>>,
    pub refs: Vec<(usize, u32)>,
}

/// A label table as offsets and reference sites.
pub type LabelsView = (Seq<Option<u32>>, Seq<(usize, u32)>);

impl View for LabelTable {
    type V = LabelsView;

    open spec fn view(&self) -> LabelsView {
        (self.offsets@, self.refs@)
    }
}

/// Every reference site names a label of the table.
pub open spec fn labels_wf(t: LabelsView) -> bool {
    forall|j: int| 0 <= j < t.1.len() ==> (#[trigger] t.1[j]).0 < t.0.len()
}

/// `n` labels, none placed, none referenced.
pub open spec fn fresh_labels(n: nat) -> LabelsView {
    (Seq::new(n, |i: int| None::<u32>), Seq::empty())
}

/// What encoding `tcg` at native offset `pos` records: a marker places its
/// label at `pos`, a branch adds the site of its displacement field.
pub open spec fn label_step(t: LabelsView, tcg: TCGOp, pos: nat) -> LabelsView {
    match tcg.op {
        None => (t.0.update(tcg.label->0 as int, Some(pos as u32)), t.1),
        Some(TCGOpcode::BR) => (t.0, t.1.push((tcg.label->0, (pos + 1) as u32))),
        Some(_) => t,
    }
}

/// The native code of a sequence of IR operations, before patching.
pub open spec fn block_code(ops: Seq<TCGOp>) -> Seq<u8>
    decreases ops.len(),
{
    if ops.len() == 0 {
        Seq::empty()
    } else {
        block_code(ops.drop_last()) + op_code(ops.last())
    }
}

/// The label table after encoding `ops` from the start of a block.
pub open spec fn labels_after(t: LabelsView, ops: Seq<TCGOp>) -> LabelsView
    decreases ops.len(),
{
    if ops.len() == 0 {
        t
    } else {
        label_step(labels_after(t, ops.drop_last()), ops.last(), block_code(ops.drop_last()).len())
    }
}

/// Distance from the end of a displacement field at `site` to `offset`,
/// as the field holds it.
pub open spec fn displacement(offset: u32, site: u32) -> u32 {
    (offset - site - 4) as u32
}

/// `m` with the four bytes at `s` replaced by `v`, least significant first.
pub open spec fn write4(m: Seq<u8>, s: int, v: u32) -> Seq<u8> {
    m.take(s) + le4(v) + m.skip(s + 4)
}

/// `m` after patching each of `refs` in turn.
pub open spec fn patch_refs(m: Seq<u8>, offsets: Seq<Option<u32>>, refs: Seq<(usize, u32)>) -> Seq<
    u8,
>
    decreases refs.len(),
{
    if refs.len() == 0 {
        m
    } else {
        let (l, s) = refs.last();
        write4(
            patch_refs(m, offsets, refs.drop_last()),
            s as int,
            displacement(offsets[l as int]->0, s),
        )
    }
}

/// Every referenced label has been placed.
pub open spec fn all_resolved(t: LabelsView) -> bool {
    forall|j: int| 0 <= j < t.1.len() ==> (#[trigger] t.0[t.1[j].0 as int]) is Some
}

/// Every reference site's field lies within `len` bytes.
pub open spec fn sites_fit(refs: Seq<(usize, u32)>, len: nat) -> bool {
    forall|j: int| 0 <= j < refs.len() ==> (#[trigger] refs[j]).1 + 4 <= len
}

impl LabelTable {
    /// A table of `n` labels, none placed and none referenced.
    pub fn new(n: usize) -> (r: LabelTable)
        ensures
            r@ == fresh_labels(n as nat),
            labels_wf(r@),
    {
        let mut offsets: Vec<Option<u32>> = Vec::new();
        let mut i: usize = 0;
        while i < n
            invariant
                i <= n,
                offsets@ == Seq::new(i as nat, |k: int| None::<u32>),
            decreases n - i,
        {
            offsets.push(None);
            i = i + 1;
            assert(offsets@ =~= Seq::new(i as nat, |k: int| None::<u32>));
        }
        let r = LabelTable { offsets, refs: Vec::new() };
        assert(r@.1 =~= fresh_labels(n as nat).1);
        r
    }
}

/// The reference sites rise, each field ending before the next begins.
pub open spec fn sites_ordered(refs: Seq<(usize, u32)>) -> bool {
    forall|i: int, j: int| 0 <= i < j < refs.len() ==> refs[i].1 + 4 <= refs[j].1
}

/// Byte `i` lies in no field of `refs`.
pub open spec fn outside_sites(refs: Seq<(usize, u32)>, i: int) -> bool {
    forall|j: int| 0 <= j < refs.len() ==> !((#[trigger] refs[j]).1 <= i < refs[j].1 + 4)
}

/// Patching sites whose fields rise and do not overlap writes each field's
/// displacement there and leaves every other byte as it was.
pub proof fn lemma_patch_refs_effect(m: Seq<u8>, offsets: Seq<Option<u32>>, refs: Seq<(usize, u32)>)
    requires
        sites_ordered(refs),
        sites_fit(refs, m.len()),
    ensures
        patch_refs(m, offsets, refs).len() == m.len(),
        forall|j: int|
            0 <= j < refs.len() ==> patch_refs(m, offsets, refs).subrange(
                (#[trigger] refs[j]).1 as int,
                refs[j].1 + 4,
            ) == le4(displacement(offsets[refs[j].0 as int]->0, refs[j].1)),
        forall|i: int|
            0 <= i < m.len() && outside_sites(refs, i) ==> #[trigger] patch_refs(
                m,
                offsets,
                refs,
            )[i] == m[i],
    decreases refs.len(),
{
    if refs.len() > 0 {
        let r = refs.drop_last();
        assert(sites_ordered(r));
        assert(sites_fit(r, m.len())) by {
            assert forall|j: int| 0 <= j < r.len() implies (#[trigger] r[j]).1 + 4 <= m.len() by {
                assert(r[j] == refs[j]);
            }
        }
        lemma_patch_refs_effect(m, offsets, r);
        let prev = patch_refs(m, offsets, r);
        let (l, st) = refs.last();
        let d = displacement(offsets[l as int]->0, st);
        let p = patch_refs(m, offsets, refs);
        assert(refs.last() == refs[refs.len() - 1]);
        assert(st + 4 <= m.len());
        assert(p == write4(prev, st as int, d));
        assert(p.len() == m.len());
        assert forall|k: int| 0 <= k < m.len() && !(st <= k < st + 4) implies p[k] == prev[k] by {
            if k < st {
                assert(p[k] == prev.take(st as int)[k]);
            } else {
                assert(p[k] == prev.skip(st + 4)[k - st - 4]);
            }
        }
        assert forall|j: int| 0 <= j < refs.len() implies p.subrange(
            (#[trigger] refs[j]).1 as int,
            refs[j].1 + 4,
        ) == le4(displacement(offsets[refs[j].0 as int]->0, refs[j].1)) by {
            if j == refs.len() - 1 {
                assert(p.subrange(st as int, st + 4) =~= le4(d));
            } else {
                assert(r[j] == refs[j]);
                assert(refs[j].1 + 4 <= st);
                assert(p.subrange(refs[j].1 as int, refs[j].1 + 4) =~= prev.subrange(
                    refs[j].1 as int,
                    refs[j].1 + 4,
                ));
            }
        }
        assert forall|i: int| 0 <= i < m.len() && outside_sites(refs, i) implies #[trigger] p[i]
            == m[i] by {
            assert(!(refs[refs.len() - 1].1 <= i < refs[refs.len() - 1].1 + 4));
            assert(outside_sites(r, i)) by {
                assert forall|j: int| 0 <= j < r.len() implies !((#[trigger] r[j]).1 <= i < r[j].1
                    + 4) by {
                    assert(r[j] == refs[j]);
                }
            }
        }
    }
}

/// Writes `v` at `mem[s..s + 4]`, least significant byte first.
fn write_le4(mem: &mut Vec<u8>, s: usize, v: u32)
    requires
        s + 4 <= old(mem)@.len(),
    ensures
        final(mem)@ == write4(old(mem)@, s as int, v),
{
    let len = mem.len();
    let mut k: usize = 0;
    while k < 4
        invariant
            k <= 4,
            s + 4 <= len,
            len == old(mem)@.len(),
            s + 4 <= mem@.len(),
            mem@.len() == old(mem)@.len(),
            forall|i: int| 0 <= i < s || s + 4 <= i < mem@.len() ==> mem@[i] == old(mem)@[i],
            forall|i: int| 0 <= i < k ==> mem@[s + i] == le_byte(v, i),
        decreases 4 - k,
    {
        let b: u8 = ((v >> (8 * k as u32)) & 0xff) as u8;
        assert(b == le_byte(v, k as int));
        mem.set(s + k, b);
        k = k + 1;
    }
    assert(mem@ =~= write4(old(mem)@, s as int, v));
}

/// Patches every reference site of `labels` in `mem`, the block's code:
/// each 4-byte field at a site receives the distance from the field's end to
/// its label. Where some referenced label was never placed, the block is
/// malformed: nothing is written and the error is `UnresolvedLabel`.
pub fn patch_labels(labels: &LabelTable, mem: &mut Vec<u8>) -> (r: Result<(), EmuError>)
    requires
        labels_wf(labels@),
        sites_fit(labels@.1, old(mem)@.len()),
    ensures
        r is Ok <==> all_resolved(labels@),
        r is Ok ==> final(mem)@ == patch_refs(old(mem)@, labels@.0, labels@.1),
        r is Err ==> r == Err::<(), EmuError>(EmuError::UnresolvedLabel) && final(mem)@ == old(
            mem,
        )@,
{
    let mut j: usize = 0;
    while j < labels.refs.len()
        invariant
            j <= labels@.1.len(),
            labels_wf(labels@),
            forall|i: int| 0 <= i < j ==> (#[trigger] labels@.0[labels@.1[i].0 as int]) is Some,
        decreases labels@.1.len() - j,
    {
        let (l, _s) = labels.refs[j];
        if labels.offsets[l].is_none() {
            return Err(EmuError::UnresolvedLabel);
        }
        j = j + 1;
    }
    let mut j: usize = 0;
    while j < labels.refs.len()
        invariant
            j <= labels@.1.len(),
            labels_wf(labels@),
            all_resolved(labels@),
            sites_fit(labels@.1, old(mem)@.len()),
            mem@.len() == old(mem)@.len(),
            mem@ == patch_refs(old(mem)@, labels@.0, labels@.1.take(j as int)),
        decreases labels@.1.len() - j,
    {
        let (l, s) = labels.refs[j];
        let o = labels.offsets[l].unwrap();
        assert(labels@.0[labels@.1[j as int].0 as int] is Some);
        let d: u32 = ((o as i64) - (s as i64) - 4) as u32;
        assert(labels@.1[j as int].1 + 4 <= old(mem)@.len());
        write_le4(mem, s as usize, d);
        assert(labels@.1.take(j + 1).drop_last() =~= labels@.1.take(j as int));
        j = j + 1;
    }
    assert(labels@.1.take(j as int) =~= labels@.1);
    Ok(())
}

} // verus!
