use vstd::prelude::*;

use crate::roster::{is_listed, EntityId};

verus! {

/// Height, in thousandths of a block, that a falling block loses each tick.
pub const FALL_STEP: i64 = 10;

/// Height, in thousandths of a block, at or below which a falling block stops being watched.
pub const FALLING_BLOCK_DESPAWN_Y: i64 = 0;

/// The new (identifier, height) of each entity of `entities` that is in `watched`, in order:
/// one step lower than before.
pub open spec fn falling_updates(watched: Seq<EntityId>, entities: Seq<(EntityId, i64)>) -> Seq<(EntityId, i64)>
    decreases entities.len(),
{
    if entities.len() == 0 {
        Seq::empty()
    } else {
        let prev = falling_updates(watched, entities.drop_last());
        let e = entities.last();
        if watched.contains(e.0) {
            prev.push((e.0, (e.1 - FALL_STEP) as i64))
        } else {
            prev
        }
    }
}

/// `id` has reached the despawn height according to `updates`.
pub open spec fn landed(updates: Seq<(EntityId, i64)>, id: EntityId) -> bool {
    exists|i: int| 0 <= i < updates.len() && updates[i].0 == id && updates[i].1 <= FALLING_BLOCK_DESPAWN_Y
}

/// The predicate "has not landed according to `updates`".
pub open spec fn still_falling(updates: Seq<(EntityId, i64)>) -> spec_fn(EntityId) -> bool {
    |id: EntityId| !landed(updates, id)
}

/// Lowers each watched entity of `entities` by one step and returns the new heights.
pub fn fall_step(watched: &Vec<EntityId>, entities: &Vec<(EntityId, i64)>) -> (r: Vec<(EntityId, i64)>)
    requires
        forall|i: int| 0 <= i < entities@.len() ==> entities@[i].1 >= i64::MIN + FALL_STEP,
    ensures
        r@ == falling_updates(watched@, entities@),
        forall|k: int| 0 <= k < r@.len() ==> exists|j: int|
            0 <= j < entities@.len() && #[trigger] entities@[j].0 == (#[trigger] r@[k]).0 && r@[k].1 < entities@[j].1,
{
    let n = entities.len();
    let mut r: Vec<(EntityId, i64)> = Vec::new();
    let mut i: usize = 0;
    while i < n
        invariant
            n == entities@.len(),
            i <= n,
            forall|j: int| 0 <= j < entities@.len() ==> entities@[j].1 >= i64::MIN + FALL_STEP,
            r@ == falling_updates(watched@, entities@.subrange(0, i as int)),
            forall|k: int| 0 <= k < r@.len() ==> exists|j: int|
                0 <= j < i && #[trigger] entities@[j].0 == (#[trigger] r@[k]).0 && r@[k].1 < entities@[j].1,
        decreases n - i,
    {
        let (id, y) = entities[i];
        assert(entities@.subrange(0, i + 1).drop_last() =~= entities@.subrange(0, i as int));
        if is_listed(watched, id) {
            let ghost before = r@;
            r.push((id, y - FALL_STEP));
            assert forall|k: int| 0 <= k < r@.len() implies exists|j: int|
                0 <= j < i + 1 && #[trigger] entities@[j].0 == (#[trigger] r@[k]).0 && r@[k].1 < entities@[j].1 by {
                if k < before.len() {
                    assert(r@[k] == before[k]);
                } else {
                    assert(entities@[i as int].0 == r@[k].0);
                }
            }
        }
        i = i + 1;
    }
    assert(entities@.subrange(0, n as int) =~= entities@);
    r
}

/// Whether `updates` puts `id` at or below the despawn height.
pub fn has_landed(updates: &Vec<(EntityId, i64)>, id: EntityId) -> (r: bool)
    ensures
        r == landed(updates@, id),
{
    let n = updates.len();
    let mut i: usize = 0;
    while i < n
        invariant
            n == updates@.len(),
            i <= n,
            forall|k: int| 0 <= k < i ==> !(updates@[k].0 == id && updates@[k].1 <= FALLING_BLOCK_DESPAWN_Y),
        decreases n - i,
    {
        if updates[i].0 == id && updates[i].1 <= FALLING_BLOCK_DESPAWN_Y {
            return true;
        }
        i = i + 1;
    }
    false
}

/// The entries of `watched` that have not landed according to `updates`, in their order.
pub fn drop_landed(watched: &Vec<EntityId>, updates: &Vec<(EntityId, i64)>) -> (r: Vec<EntityId>)
    ensures
        r@ == watched@.filter(still_falling(updates@)),
{
    let n = watched.len();
    let mut kept: Vec<EntityId> = Vec::new();
    let mut i: usize = 0;
    assert(watched@.subrange(0, 0) =~= Seq::<EntityId>::empty());
    while i < n
        invariant
            n == watched@.len(),
            i <= n,
            kept@ == watched@.subrange(0, i as int).filter(still_falling(updates@)),
        decreases n - i,
    {
        let id = watched[i];
        proof {
            assert(watched@.subrange(0, i + 1) =~= watched@.subrange(0, i as int).push(id));
            watched@.subrange(0, i as int).lemma_filter_push(id, still_falling(updates@));
        }
        if !has_landed(updates, id) {
            kept.push(id);
        }
        i = i + 1;
    }
    assert(watched@.subrange(0, n as int) =~= watched@);
    kept
}

} // verus!
