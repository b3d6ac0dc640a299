//! The invariants of the persisted aggregate, and proofs that every
//! repository step preserves them: id allocation is strictly monotonic and
//! never reuses an id, cascading deletes remove exactly the named stories,
//! and status updates touch nothing but the one field.

use vstd::prelude::*;
use crate::db::{
    create_epic_step, create_story_step, delete_epic_step, delete_story_step,
    update_epic_status_step, update_story_status_step,
};
use crate::models::{DbView, EpicView, Status, StoryView};

verus! {

/// The aggregate's invariant: every id named in an epic's story list is a key
/// of the story map; every key is at most the id counter; and no story id
/// appears at two different positions, within one epic or across two.
pub open spec fn db_inv(v: DbView) -> bool {
    &&& (forall|e: u32, i: int|
        v.epics.contains_key(e) && 0 <= i < v.epics[e].stories.len()
            ==> v.stories.contains_key(#[trigger] v.epics[e].stories[i]))
    &&& (forall|e: u32| #[trigger] v.epics.contains_key(e) ==> e <= v.last_item_id)
    &&& (forall|s: u32| #[trigger] v.stories.contains_key(s) ==> s <= v.last_item_id)
    &&& (forall|e1: u32, e2: u32, i: int, j: int|
        v.epics.contains_key(e1) && v.epics.contains_key(e2) && 0 <= i
            < v.epics[e1].stories.len() && 0 <= j < v.epics[e2].stories.len() && !(e1 == e2 && i
            == j) ==> #[trigger] v.epics[e1].stories[i] != #[trigger] v.epics[e2].stories[j])
}

/// The empty aggregate satisfies the invariant.
pub proof fn lemma_empty_inv()
    ensures
        db_inv(DbView::empty()),
{
}

/// Creating an epic allocates an id strictly above the counter, hence one
/// that no epic and no story ever carried, and leaves the counter at that
/// id; the invariant is preserved.
pub proof fn lemma_create_epic_allocates_fresh(pre: DbView, post: DbView, epic: EpicView, id: u32)
    requires
        db_inv(pre),
        create_epic_step(pre, post, epic, id),
    ensures
        id > pre.last_item_id,
        !pre.epics.contains_key(id),
        !pre.stories.contains_key(id),
        post.last_item_id == id,
        db_inv(post),
{
    assert forall|e: u32, i: int|
        post.epics.contains_key(e) && 0 <= i < post.epics[e].stories.len()
            implies post.stories.contains_key(#[trigger] post.epics[e].stories[i]) by {
        if e == id {
            assert(post.epics[e].stories.len() == 0);
        } else {
            assert(post.epics[e] == pre.epics[e]);
        }
    }
    assert forall|e1: u32, e2: u32, i: int, j: int|
        post.epics.contains_key(e1) && post.epics.contains_key(e2) && 0 <= i
            < post.epics[e1].stories.len() && 0 <= j < post.epics[e2].stories.len() && !(e1 == e2
            && i == j) implies #[trigger] post.epics[e1].stories[i] != #[trigger] post.epics[
        e2].stories[j] by {
        assert(e1 != id && e2 != id);
        assert(post.epics[e1] == pre.epics[e1] && post.epics[e2] == pre.epics[e2]);
    }
}

/// Creating a story allocates an id strictly above the counter, one that no
/// epic, no story, and no epic's story list ever carried, and leaves the
/// counter at that id; the invariant is preserved.
pub proof fn lemma_create_story_allocates_fresh(
    pre: DbView,
    post: DbView,
    story: StoryView,
    epic_id: u32,
    id: u32,
)
    requires
        db_inv(pre),
        create_story_step(pre, post, story, epic_id, id),
    ensures
        id > pre.last_item_id,
        !pre.epics.contains_key(id),
        !pre.stories.contains_key(id),
        forall|e: u32, i: int|
            pre.epics.contains_key(e) && 0 <= i < pre.epics[e].stories.len()
                ==> #[trigger] pre.epics[e].stories[i] != id,
        post.last_item_id == id,
        db_inv(post),
{
    let old_list = pre.epics[epic_id].stories;
    assert forall|e: u32, i: int|
        post.epics.contains_key(e) && 0 <= i < post.epics[e].stories.len()
            implies post.stories.contains_key(#[trigger] post.epics[e].stories[i]) by {
        if e == epic_id {
            if i < old_list.len() {
                assert(post.epics[e].stories[i] == old_list[i]);
                assert(pre.stories.contains_key(old_list[i]));
            } else {
                assert(post.epics[e].stories[i] == id);
            }
        } else {
            assert(post.epics[e] == pre.epics[e]);
            assert(pre.stories.contains_key(pre.epics[e].stories[i]));
        }
    }
    assert forall|e1: u32, e2: u32, i: int, j: int|
        post.epics.contains_key(e1) && post.epics.contains_key(e2) && 0 <= i
            < post.epics[e1].stories.len() && 0 <= j < post.epics[e2].stories.len() && !(e1 == e2
            && i == j) implies #[trigger] post.epics[e1].stories[i] != #[trigger] post.epics[
        e2].stories[j] by {
        let v1 = post.epics[e1].stories[i];
        let v2 = post.epics[e2].stories[j];
        let new1 = e1 == epic_id && i == old_list.len();
        let new2 = e2 == epic_id && j == old_list.len();
        if new1 && new2 {
            assert(e1 == e2 && i == j);
        } else if new1 {
            assert(v1 == id);
            if e2 == epic_id {
                assert(v2 == old_list[j]);
                assert(pre.stories.contains_key(v2));
            } else {
                assert(v2 == pre.epics[e2].stories[j]);
                assert(pre.stories.contains_key(v2));
            }
            assert(v2 <= pre.last_item_id);
        } else if new2 {
            assert(v2 == id);
            if e1 == epic_id {
                assert(v1 == old_list[i]);
                assert(pre.stories.contains_key(v1));
            } else {
                assert(v1 == pre.epics[e1].stories[i]);
                assert(pre.stories.contains_key(v1));
            }
            assert(v1 <= pre.last_item_id);
        } else {
            let p1 = if e1 == epic_id { old_list[i] } else { pre.epics[e1].stories[i] };
            let p2 = if e2 == epic_id { old_list[j] } else { pre.epics[e2].stories[j] };
            assert(v1 == pre.epics[e1].stories[i]);
            assert(v2 == pre.epics[e2].stories[j]);
        }
    }
}

/// One create call of either kind, seen only through the id it allocated.
pub open spec fn allocating_step(pre: DbView, post: DbView, id: u32) -> bool {
    ||| exists|e: EpicView| create_epic_step(pre, post, e, id)
    ||| exists|s: StoryView, eid: u32| create_story_step(pre, post, s, eid, id)
}

/// Along any sequence of create calls the allocated ids strictly increase:
/// every call returns the successor of the counter and leaves the counter
/// there, so later ids are always above earlier ones and none repeats.
pub proof fn lemma_allocation_monotonic(s0: DbView, s1: DbView, s2: DbView, id1: u32, id2: u32)
    requires
        allocating_step(s0, s1, id1),
        allocating_step(s1, s2, id2),
    ensures
        id2 > id1,
        id1 == s0.last_item_id + 1,
        id2 == id1 + 1,
{
    assert(s1.last_item_id == id1);
}

/// Deleting an epic removes it and exactly the stories its list named: every
/// other epic is untouched and each of its stories is still present; the id
/// counter does not move; the invariant is preserved.
pub proof fn lemma_delete_epic_spares_others(pre: DbView, post: DbView, epic_id: u32)
    requires
        db_inv(pre),
        delete_epic_step(pre, post, epic_id),
    ensures
        db_inv(post),
        !post.epics.contains_key(epic_id),
        forall|i: int|
            0 <= i < pre.epics[epic_id].stories.len()
                ==> !post.stories.contains_key(#[trigger] pre.epics[epic_id].stories[i]),
        forall|e: u32|
            #[trigger] post.epics.contains_key(e) ==> e != epic_id && post.epics[e]
                == pre.epics[e],
        post.last_item_id == pre.last_item_id,
{
    let gone = pre.epics[epic_id].stories.to_set();
    assert forall|e: u32, i: int|
        post.epics.contains_key(e) && 0 <= i < post.epics[e].stories.len()
            implies post.stories.contains_key(#[trigger] post.epics[e].stories[i]) by {
        assert(e != epic_id);
        assert(post.epics[e] == pre.epics[e]);
        let sid = pre.epics[e].stories[i];
        assert(pre.stories.contains_key(sid));
        if gone.contains(sid) {
            let k = choose|k: int|
                0 <= k < pre.epics[epic_id].stories.len() && pre.epics[epic_id].stories[k] == sid;
            assert(pre.epics[epic_id].stories[k] == pre.epics[e].stories[i]);
            assert(false);
        }
    }
    assert forall|e1: u32, e2: u32, i: int, j: int|
        post.epics.contains_key(e1) && post.epics.contains_key(e2) && 0 <= i
            < post.epics[e1].stories.len() && 0 <= j < post.epics[e2].stories.len() && !(e1 == e2
            && i == j) implies #[trigger] post.epics[e1].stories[i] != #[trigger] post.epics[
        e2].stories[j] by {
        assert(post.epics[e1] == pre.epics[e1] && post.epics[e2] == pre.epics[e2]);
    }
}

/// Deleting a story unlinks it from its epic's list and removes it from the
/// story map; every other epic, every other story, and the id counter are
/// untouched; the invariant is preserved.
pub proof fn lemma_delete_story_unlinks(pre: DbView, post: DbView, epic_id: u32, story_id: u32)
    requires
        db_inv(pre),
        delete_story_step(pre, post, epic_id, story_id),
    ensures
        db_inv(post),
        !post.stories.contains_key(story_id),
        !post.epics[epic_id].stories.contains(story_id),
        forall|e: u32|
            #[trigger] post.epics.contains_key(e) <==> pre.epics.contains_key(e),
        forall|e: u32|
            post.epics.contains_key(e) && e != epic_id ==> #[trigger] post.epics[e]
                == pre.epics[e],
        post.last_item_id == pre.last_item_id,
{
    let old_list = pre.epics[epic_id].stories;
    old_list.index_of_first_ensures(story_id);
    let fi = old_list.index_of_first(story_id).unwrap();
    let new_list = old_list.remove(fi);
    assert(post.epics[epic_id].stories == new_list);
    assert forall|a: int| 0 <= a < new_list.len() implies new_list[a] != story_id by {
        let a2: int = if a < fi {
            a
        } else {
            a + 1
        };
        assert(new_list[a] == old_list[a2]);
        if old_list[a2] == story_id {
            assert(old_list[fi] == old_list[a2] && fi != a2);
            assert(false);
        }
    }
    if post.epics[epic_id].stories.contains(story_id) {
        let a = choose|a: int| 0 <= a < new_list.len() && new_list[a] == story_id;
        assert(false);
    }
    assert forall|e: u32, i: int|
        post.epics.contains_key(e) && 0 <= i < post.epics[e].stories.len()
            implies post.stories.contains_key(#[trigger] post.epics[e].stories[i]) by {
        if e == epic_id {
            let i2: int = if i < fi {
                i
            } else {
                i + 1
            };
            let sid = old_list[i2];
            assert(post.epics[e].stories[i] == sid);
            assert(pre.stories.contains_key(sid));
            if sid == story_id {
                assert(old_list[fi] == old_list[i2] && fi != i2);
                assert(false);
            }
        } else {
            let sid = pre.epics[e].stories[i];
            assert(post.epics[e].stories[i] == sid);
            assert(pre.stories.contains_key(sid));
            if sid == story_id {
                assert(pre.epics[e].stories[i] == old_list[fi] && e != epic_id);
                assert(false);
            }
        }
    }
    assert forall|e1: u32, e2: u32, i: int, j: int|
        post.epics.contains_key(e1) && post.epics.contains_key(e2) && 0 <= i
            < post.epics[e1].stories.len() && 0 <= j < post.epics[e2].stories.len() && !(e1 == e2
            && i == j) implies #[trigger] post.epics[e1].stories[i] != #[trigger] post.epics[
        e2].stories[j] by {
        let i2: int = if e1 == epic_id && i >= fi {
            i + 1
        } else {
            i
        };
        let j2: int = if e2 == epic_id && j >= fi {
            j + 1
        } else {
            j
        };
        assert(post.epics[e1].stories[i] == pre.epics[e1].stories[i2]);
        assert(post.epics[e2].stories[j] == pre.epics[e2].stories[j2]);
        assert(!(e1 == e2 && i2 == j2));
    }
}

/// Updating an epic's status changes that field alone: its story list, every
/// other epic, every story, and the id counter are untouched; the invariant
/// is preserved.
pub proof fn lemma_update_epic_status_touches_one_field(
    pre: DbView,
    post: DbView,
    epic_id: u32,
    status: Status,
)
    requires
        db_inv(pre),
        update_epic_status_step(pre, post, epic_id, status),
    ensures
        db_inv(post),
        post.epics[epic_id].status == status,
        post.epics[epic_id].stories == pre.epics[epic_id].stories,
        post.epics[epic_id].name == pre.epics[epic_id].name,
        forall|e: u32|
            post.epics.contains_key(e) && e != epic_id ==> #[trigger] post.epics[e]
                == pre.epics[e],
        post.stories == pre.stories,
        post.last_item_id == pre.last_item_id,
{
    assert forall|e: u32, i: int|
        post.epics.contains_key(e) && 0 <= i < post.epics[e].stories.len()
            implies post.stories.contains_key(#[trigger] post.epics[e].stories[i]) by {
        assert(post.epics[e].stories == pre.epics[e].stories);
    }
    assert forall|e1: u32, e2: u32, i: int, j: int|
        post.epics.contains_key(e1) && post.epics.contains_key(e2) && 0 <= i
            < post.epics[e1].stories.len() && 0 <= j < post.epics[e2].stories.len() && !(e1 == e2
            && i == j) implies #[trigger] post.epics[e1].stories[i] != #[trigger] post.epics[
        e2].stories[j] by {
        assert(post.epics[e1].stories == pre.epics[e1].stories);
        assert(post.epics[e2].stories == pre.epics[e2].stories);
    }
}

/// Updating a story's status changes that field alone: every epic, every
/// other story, and the id counter are untouched; the invariant is preserved.
pub proof fn lemma_update_story_status_touches_one_field(
    pre: DbView,
    post: DbView,
    story_id: u32,
    status: Status,
)
    requires
        db_inv(pre),
        update_story_status_step(pre, post, story_id, status),
    ensures
        db_inv(post),
        post.stories[story_id].status == status,
        post.stories[story_id].name == pre.stories[story_id].name,
        forall|s: u32|
            post.stories.contains_key(s) && s != story_id ==> #[trigger] post.stories[s]
                == pre.stories[s],
        post.epics == pre.epics,
        post.last_item_id == pre.last_item_id,
{
}

} // verus!
