//! Sprite instance accumulation and texture-adjacency batching.
//!
//! A segment accumulates fixed 16-word instance records in submission
//! order. Consecutive records sharing a texture handle extend the current
//! batch; a texture change starts a new batch at the current instance
//! offset. Batching never reorders: the batch count depends only on the
//! caller's submission order.

use vstd::prelude::*;

verus! {

/// Number of 32-bit words of one sprite instance record.
pub const SPRITE_INSTANCE_WORDS: usize = 16;

/// A contiguous run of instances sharing one texture binding.
#[derive(Clone, Copy, Debug, PartialEq, Eq, Structural)]
pub struct SpriteBatch {
    pub texture_id: i32,
    pub first_instance: u32,
    pub instance_count: u32,
}

/// Instances and batches accumulated between mesh draws or pass boundaries.
#[derive(Debug)]
pub struct SpriteSegment {
    /// Concatenated instance records, 16 words each.
    pub instance_data: Vec<u32>,
    /// Batches covering `0 .. instance_count` in order, one per texture run.
    pub batches: Vec<SpriteBatch>,
    /// Number of records held.
    pub instance_count: u32,
}

/// Ghost mirror of [`SpriteSegment`].
pub struct SegmentModel {
    pub instance_data: Seq<u32>,
    pub batches: Seq<SpriteBatch>,
    pub instance_count: u32,
}

impl View for SpriteSegment {
    type V = SegmentModel;

    open spec fn view(&self) -> SegmentModel {
        SegmentModel {
            instance_data: self.instance_data@,
            batches: self.batches@,
            instance_count: self.instance_count,
        }
    }
}

/// Total number of instances the batches cover.
pub open spec fn batch_total(bs: Seq<SpriteBatch>) -> int
    decreases bs.len(),
{
    if bs.len() == 0 {
        0
    } else {
        batch_total(bs.drop_last()) + bs.last().instance_count
    }
}

/// The batches tile the instance range in order: every batch is nonempty
/// and starts where the previous ones end, and adjacent batches never
/// share a texture handle (they would have been merged).
pub open spec fn batches_wf(bs: Seq<SpriteBatch>) -> bool {
    &&& forall|i: int| 0 <= i < bs.len() ==> 1 <= (#[trigger] bs[i]).instance_count
    &&& forall|i: int|
        0 <= i < bs.len() ==> (#[trigger] bs[i]).first_instance as int == batch_total(bs.take(i))
    &&& forall|i: int| 0 < i < bs.len() ==> (#[trigger] bs[i]).texture_id != bs[i - 1].texture_id
}

impl SegmentModel {
    /// The segment's internal invariant.
    pub open spec fn wf(self) -> bool {
        &&& self.instance_data.len() == 16 * self.instance_count
        &&& batches_wf(self.batches)
        &&& batch_total(self.batches) == self.instance_count
    }

    /// The state of a segment holding nothing.
    pub open spec fn empty() -> SegmentModel {
        SegmentModel { instance_data: Seq::empty(), batches: Seq::empty(), instance_count: 0 }
    }
}

/// Append one instance for `tex` to the batch list: extend the last batch
/// when it has the same texture handle, else start a new one at `first`.
pub open spec fn spec_push_batch(bs: Seq<SpriteBatch>, tex: i32, first: u32) -> Seq<SpriteBatch> {
    if bs.len() > 0 && bs.last().texture_id == tex {
        bs.update(
            bs.len() - 1,
            SpriteBatch {
                texture_id: tex,
                first_instance: bs.last().first_instance,
                instance_count: (bs.last().instance_count + 1) as u32,
            },
        )
    } else {
        bs.push(SpriteBatch { texture_id: tex, first_instance: first, instance_count: 1 })
    }
}

/// Append one 16-word record for `tex` to a segment.
pub open spec fn spec_push_sprite(s: SegmentModel, tex: i32, record: Seq<u32>) -> SegmentModel {
    SegmentModel {
        instance_data: s.instance_data + record,
        batches: spec_push_batch(s.batches, tex, s.instance_count),
        instance_count: (s.instance_count + 1) as u32,
    }
}

pub proof fn lemma_batch_total_nonneg(bs: Seq<SpriteBatch>)
    ensures
        batch_total(bs) >= 0,
    decreases bs.len(),
{
    if bs.len() > 0 {
        lemma_batch_total_nonneg(bs.drop_last());
    }
}

/// Pushing one instance keeps the batch tiling well formed and grows the
/// covered total by exactly one.
pub proof fn lemma_push_batch_wf(bs: Seq<SpriteBatch>, tex: i32, first: u32)
    requires
        batches_wf(bs),
        batch_total(bs) == first,
        first < u32::MAX,
    ensures
        batches_wf(spec_push_batch(bs, tex, first)),
        batch_total(spec_push_batch(bs, tex, first)) == first + 1,
{
    let r = spec_push_batch(bs, tex, first);
    lemma_batch_total_nonneg(if bs.len() == 0 {
        bs
    } else {
        bs.drop_last()
    });
    if bs.len() > 0 && bs.last().texture_id == tex {
        let n = bs.len() as int;
        assert(r.drop_last() =~= bs.drop_last());
        assert(batch_total(r) == first + 1);
        assert forall|i: int| 0 <= i < r.len() implies (#[trigger] r[i]).first_instance as int
            == batch_total(r.take(i)) by {
            assert(r.take(i) =~= bs.take(i));
            assert(bs[i].first_instance as int == batch_total(bs.take(i)));
            if i < n - 1 {
                assert(r[i] == bs[i]);
            } else {
                assert(r[i].first_instance == bs[i].first_instance);
            }
        }
        assert forall|i: int| 0 <= i < r.len() implies 1 <= (#[trigger] r[i]).instance_count by {
            if i < n - 1 {
                assert(r[i] == bs[i]);
            }
        }
        assert forall|i: int| 0 < i < r.len() implies (#[trigger] r[i]).texture_id != r[i
            - 1].texture_id by {
            assert(bs[i].texture_id != bs[i - 1].texture_id);
        }
    } else {
        let n = bs.len() as int;
        assert(r.drop_last() =~= bs);
        assert(batch_total(r) == first + 1);
        assert forall|i: int| 0 <= i < r.len() implies (#[trigger] r[i]).first_instance as int
            == batch_total(r.take(i)) by {
            if i < n {
                assert(r.take(i) =~= bs.take(i));
                assert(r[i] == bs[i]);
            } else {
                assert(r.take(i) =~= bs);
            }
        }
        assert forall|i: int| 0 <= i < r.len() implies 1 <= (#[trigger] r[i]).instance_count by {
            if i < n {
                assert(r[i] == bs[i]);
            }
        }
        assert forall|i: int| 0 < i < r.len() implies (#[trigger] r[i]).texture_id != r[i
            - 1].texture_id by {
            if i < n {
                assert(bs[i].texture_id != bs[i - 1].texture_id);
            }
        }
    }
}

impl SpriteSegment {
    /// A segment holding nothing.
    pub fn new() -> (s: SpriteSegment)
        ensures
            s@ == SegmentModel::empty(),
            s@.wf(),
    {
        let s = SpriteSegment { instance_data: Vec::new(), batches: Vec::new(), instance_count: 0 };
        proof {
            assert(s@.instance_data =~= SegmentModel::empty().instance_data);
            assert(s@.batches =~= SegmentModel::empty().batches);
        }
        s
    }

    /// Append one 16-word instance record for `texture_id`, extending the
    /// last batch when it already draws that texture.
    pub fn push_sprite(&mut self, texture_id: i32, record: &[u32; 16])
        requires
            old(self)@.wf(),
            old(self)@.instance_count < u32::MAX,
        ensures
            final(self)@ == spec_push_sprite(old(self)@, texture_id, record@),
            final(self)@.wf(),
    {
        proof {
            lemma_push_batch_wf(self.batches@, texture_id, self.instance_count);
        }
        let first = self.instance_count;
        self.instance_count = first + 1;
        let mut i: usize = 0;
        while i < 16
            invariant
                0 <= i <= 16,
                self.instance_data@ == old(self).instance_data@ + record@.take(i as int),
                self.batches@ == old(self).batches@,
                self.instance_count == old(self).instance_count + 1,
                old(self).instance_count < u32::MAX,
            decreases 16 - i,
        {
            self.instance_data.push(record[i]);
            proof {
                assert(old(self).instance_data@ + record@.take(i as int) + seq![record@[i as int]]
                    =~= old(self).instance_data@ + record@.take(i + 1));
            }
            i = i + 1;
        }
        proof {
            assert(record@.take(16) =~= record@);
        }
        let n = self.batches.len();
        if n > 0 {
            let last = self.batches[n - 1];
            if last.texture_id == texture_id {
                proof {
                    let bs = self.batches@;
                    assert(bs == old(self).batches@);
                    assert(batch_total(bs) == batch_total(bs.drop_last())
                        + bs.last().instance_count);
                    lemma_batch_total_nonneg(bs.drop_last());
                    assert(last.instance_count as int <= batch_total(bs));
                }
                let _ = self.batches.pop();
                self.batches.push(
                    SpriteBatch {
                        texture_id,
                        first_instance: last.first_instance,
                        instance_count: last.instance_count + 1,
                    },
                );
                proof {
                    assert(self.batches@ =~= spec_push_batch(
                        old(self).batches@,
                        texture_id,
                        first,
                    ));
                }
                return ;
            }
        }
        self.batches.push(
            SpriteBatch { texture_id, first_instance: first, instance_count: 1 },
        );
    }
}

/// The batch list after feeding a sequence of texture handles to an
/// accumulator whose next instance index is `next`.
pub open spec fn batches_after(bs: Seq<SpriteBatch>, texs: Seq<i32>, next: u32) -> Seq<SpriteBatch>
    decreases texs.len(),
{
    if texs.len() == 0 {
        bs
    } else {
        batches_after(spec_push_batch(bs, texs[0], next), texs.skip(1), (next + 1) as u32)
    }
}

proof fn lemma_distinct_adjacent_growth(bs: Seq<SpriteBatch>, texs: Seq<i32>, next: u32)
    requires
        forall|i: int| 0 < i < texs.len() ==> #[trigger] texs[i] != texs[i - 1],
        bs.len() == 0 || texs.len() == 0 || bs.last().texture_id != texs[0],
    ensures
        batches_after(bs, texs, next).len() == bs.len() + texs.len(),
    decreases texs.len(),
{
    if texs.len() > 0 {
        let bs2 = spec_push_batch(bs, texs[0], next);
        assert(bs2.len() == bs.len() + 1);
        assert(bs2.last().texture_id == texs[0]);
        let rest = texs.skip(1);
        assert forall|i: int| 0 < i < rest.len() implies #[trigger] rest[i] != rest[i - 1] by {
            assert(texs[i + 1] != texs[i]);
        }
        if rest.len() > 0 {
            assert(rest[0] == texs[1]);
        }
        lemma_distinct_adjacent_growth(bs2, rest, (next + 1) as u32);
    }
}

proof fn lemma_uniform_tail_keeps_batches(bs: Seq<SpriteBatch>, texs: Seq<i32>, t: i32, next: u32)
    requires
        bs.len() >= 1,
        bs.last().texture_id == t,
        forall|i: int| 0 <= i < texs.len() ==> #[trigger] texs[i] == t,
    ensures
        batches_after(bs, texs, next).len() == bs.len(),
    decreases texs.len(),
{
    if texs.len() > 0 {
        let bs2 = spec_push_batch(bs, texs[0], next);
        assert(bs2.len() == bs.len());
        assert(bs2.last().texture_id == t);
        lemma_uniform_tail_keeps_batches(bs2, texs.skip(1), t, (next + 1) as u32);
    }
}

/// Recording one sprite advances the batch list exactly as one step of
/// the batch fold does, with the record's sixteen words appended and the
/// instance count grown by one.
pub proof fn lemma_push_sprite_is_one_fold_step(s: SegmentModel, tex: i32, record: Seq<u32>)
    ensures
        spec_push_sprite(s, tex, record).batches == spec_push_batch(
            s.batches,
            tex,
            s.instance_count,
        ),
        spec_push_sprite(s, tex, record).instance_data == s.instance_data + record,
        spec_push_sprite(s, tex, record).instance_count == (s.instance_count + 1) as u32,
{
}

/// Any number of sprites drawn with one and the same texture handle,
/// starting from an empty accumulator, always form exactly one batch.
pub proof fn lemma_single_texture_single_batch(texs: Seq<i32>, t: i32, start: u32)
    requires
        texs.len() >= 1,
        forall|i: int| 0 <= i < texs.len() ==> #[trigger] texs[i] == t,
    ensures
        batches_after(Seq::empty(), texs, start).len() == 1,
{
    let bs1 = spec_push_batch(Seq::empty(), texs[0], start);
    assert(bs1.len() == 1);
    assert(bs1.last().texture_id == t);
    let rest = texs.skip(1);
    assert forall|i: int| 0 <= i < rest.len() implies #[trigger] rest[i] == t by {
        assert(texs[i + 1] == t);
    }
    lemma_uniform_tail_keeps_batches(bs1, rest, t, (start + 1) as u32);
}

/// Sprites alternating between two distinct texture handles form one batch
/// per sprite: batching is strictly adjacency-based and never reorders.
pub proof fn lemma_alternating_textures_one_batch_each(texs: Seq<i32>, a: i32, b: i32, start: u32)
    requires
        a != b,
        forall|i: int|
            0 <= i < texs.len() ==> #[trigger] texs[i] == (if i % 2 == 0 {
                a
            } else {
                b
            }),
    ensures
        batches_after(Seq::empty(), texs, start).len() == texs.len(),
{
    assert forall|i: int| 0 < i < texs.len() implies #[trigger] texs[i] != texs[i - 1] by {
        if i % 2 == 0 {
            assert((i - 1) % 2 == 1);
        } else {
            assert((i - 1) % 2 == 0);
        }
    }
    lemma_distinct_adjacent_growth(Seq::empty(), texs, start);
}

} // verus!
