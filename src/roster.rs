use vstd::prelude::*;

verus! {

/// A host entity identifier.
pub type EntityId = u64;

/// Height, in thousandths of a block, at or below which a player is out.
pub const LOSE_Y: i64 = 5000;

/// The predicate "is listed in `ids`".
pub open spec fn listed_in(ids: Seq<EntityId>) -> spec_fn(EntityId) -> bool {
    |id: EntityId| ids.contains(id)
}

/// The players of `heights` (identifier, height) still above the losing height, in order.
pub open spec fn survivors(heights: Seq<(EntityId, i64)>) -> Seq<EntityId>
    decreases heights.len(),
{
    if heights.len() == 0 {
        Seq::empty()
    } else {
        let prev = survivors(heights.drop_last());
        if heights.last().1 > LOSE_Y {
            prev.push(heights.last().0)
        } else {
            prev
        }
    }
}

/// The players of `heights` at or below the losing height, in order.
pub open spec fn losers(heights: Seq<(EntityId, i64)>) -> Seq<EntityId>
    decreases heights.len(),
{
    if heights.len() == 0 {
        Seq::empty()
    } else {
        let prev = losers(heights.drop_last());
        if heights.last().1 <= LOSE_Y {
            prev.push(heights.last().0)
        } else {
            prev
        }
    }
}

/// Every player is either a survivor or a loser, so neither list outgrows the input.
pub proof fn lemma_split_len(heights: Seq<(EntityId, i64)>)
    ensures
        survivors(heights).len() + losers(heights).len() == heights.len(),
    decreases heights.len(),
{
    if heights.len() > 0 {
        lemma_split_len(heights.drop_last());
    }
}

/// Every survivor is one of the players of `heights`.
pub proof fn lemma_survivors_from(heights: Seq<(EntityId, i64)>, p: EntityId)
    requires
        survivors(heights).contains(p),
    ensures
        exists|i: int| 0 <= i < heights.len() && (#[trigger] heights[i]).0 == p,
    decreases heights.len(),
{
    let prev = survivors(heights.drop_last());
    if prev.contains(p) {
        lemma_survivors_from(heights.drop_last(), p);
        let i = choose|i: int| 0 <= i < heights.drop_last().len() && (#[trigger] heights.drop_last()[i]).0 == p;
        assert(heights[i] == heights.drop_last()[i]);
    } else {
        assert(heights.last().0 == p);
        assert(heights[heights.len() - 1].0 == p);
    }
}

/// Whether `id` is listed in `ids`.
pub fn is_listed(ids: &Vec<EntityId>, id: EntityId) -> (r: bool)
    ensures
        r == ids@.contains(id),
{
    let n = ids.len();
    let mut i: usize = 0;
    while i < n
        invariant
            n == ids@.len(),
            i <= n,
            forall|k: int| 0 <= k < i ==> ids@[k] != id,
        decreases n - i,
    {
        if ids[i] == id {
            assert(ids@[i as int] == id);
            return true;
        }
        i = i + 1;
    }
    false
}

/// The entries of `ids` that are listed in `allowed`, in their order.
pub fn keep_listed(ids: &Vec<EntityId>, allowed: &Vec<EntityId>) -> (r: Vec<EntityId>)
    ensures
        r@ == ids@.filter(listed_in(allowed@)),
{
    let n = ids.len();
    let mut kept: Vec<EntityId> = Vec::new();
    let mut i: usize = 0;
    assert(ids@.subrange(0, 0) =~= Seq::<EntityId>::empty());
    while i < n
        invariant
            n == ids@.len(),
            i <= n,
            kept@ == ids@.subrange(0, i as int).filter(listed_in(allowed@)),
        decreases n - i,
    {
        let id = ids[i];
        proof {
            assert(ids@.subrange(0, i + 1) =~= ids@.subrange(0, i as int).push(id));
            ids@.subrange(0, i as int).lemma_filter_push(id, listed_in(allowed@));
        }
        if is_listed(allowed, id) {
            kept.push(id);
        }
        i = i + 1;
    }
    assert(ids@.subrange(0, n as int) =~= ids@);
    kept
}

/// Splits players by height into those who stay (first) and those who are out (second).
pub fn split_by_height(heights: &Vec<(EntityId, i64)>) -> (r: (Vec<EntityId>, Vec<EntityId>))
    ensures
        r.0@ == survivors(heights@),
        r.1@ == losers(heights@),
{
    let n = heights.len();
    let mut stay: Vec<EntityId> = Vec::new();
    let mut out: Vec<EntityId> = Vec::new();
    let mut i: usize = 0;
    while i < n
        invariant
            n == heights@.len(),
            i <= n,
            stay@ == survivors(heights@.subrange(0, i as int)),
            out@ == losers(heights@.subrange(0, i as int)),
        decreases n - i,
    {
        let (id, y) = heights[i];
        assert(heights@.subrange(0, i + 1).drop_last() =~= heights@.subrange(0, i as int));
        if y <= LOSE_Y {
            out.push(id);
        } else {
            stay.push(id);
        }
        i = i + 1;
    }
    assert(heights@.subrange(0, n as int) =~= heights@);
    (stay, out)
}

} // verus!
