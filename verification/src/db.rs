//! The repository: every mutating operation reads the full snapshot from the
//! storage backend, applies one invariant-preserving change, and writes the
//! full snapshot back. Each change is captured by a step relation over views.

use vstd::prelude::*;
use crate::id_map::IdMap;
use crate::models::{DbError, DbState, DbView, Epic, EpicView, Status, Story, StoryView};

verus! {

/// Creating an epic allocates the next id and inserts the epic with an empty
/// story list; nothing else changes.
pub open spec fn create_epic_step(pre: DbView, post: DbView, epic: EpicView, id: u32) -> bool {
    &&& id == pre.last_item_id + 1
    &&& post.last_item_id == id
    &&& post.epics == pre.epics.insert(id, EpicView { stories: Seq::<u32>::empty(), ..epic })
    &&& post.stories == pre.stories
}

/// Creating a story allocates the next id, inserts the story, and appends the
/// new id at the end of the target epic's story list; nothing else changes.
pub open spec fn create_story_step(
    pre: DbView,
    post: DbView,
    story: StoryView,
    epic_id: u32,
    id: u32,
) -> bool {
    &&& pre.epics.contains_key(epic_id)
    &&& id == pre.last_item_id + 1
    &&& post.last_item_id == id
    &&& post.stories == pre.stories.insert(id, story)
    &&& post.epics == pre.epics.insert(
        epic_id,
        EpicView { stories: pre.epics[epic_id].stories.push(id), ..pre.epics[epic_id] },
    )
}

/// Deleting an epic removes it and exactly the stories its list names; the id
/// counter never moves.
pub open spec fn delete_epic_step(pre: DbView, post: DbView, epic_id: u32) -> bool {
    &&& pre.epics.contains_key(epic_id)
    &&& post.epics == pre.epics.remove(epic_id)
    &&& post.stories == pre.stories.remove_keys(pre.epics[epic_id].stories.to_set())
    &&& post.last_item_id == pre.last_item_id
}

/// Deleting a story removes the first occurrence of its id from the epic's
/// list and removes the story itself; the id counter never moves.
pub open spec fn delete_story_step(pre: DbView, post: DbView, epic_id: u32, story_id: u32) -> bool {
    &&& pre.epics.contains_key(epic_id)
    &&& pre.epics[epic_id].stories.contains(story_id)
    &&& post.epics == pre.epics.insert(
        epic_id,
        EpicView {
            stories: pre.epics[epic_id].stories.remove(
                pre.epics[epic_id].stories.index_of_first(story_id).unwrap(),
            ),
            ..pre.epics[epic_id]
        },
    )
    &&& post.stories == pre.stories.remove(story_id)
    &&& post.last_item_id == pre.last_item_id
}

/// Updating an epic's status overwrites that one field; nothing else changes.
pub open spec fn update_epic_status_step(
    pre: DbView,
    post: DbView,
    epic_id: u32,
    status: Status,
) -> bool {
    &&& pre.epics.contains_key(epic_id)
    &&& post.epics == pre.epics.insert(epic_id, EpicView { status, ..pre.epics[epic_id] })
    &&& post.stories == pre.stories
    &&& post.last_item_id == pre.last_item_id
}

/// Updating a story's status overwrites that one field; nothing else changes.
pub open spec fn update_story_status_step(
    pre: DbView,
    post: DbView,
    story_id: u32,
    status: Status,
) -> bool {
    &&& pre.stories.contains_key(story_id)
    &&& post.stories == pre.stories.insert(
        story_id,
        StoryView { status, ..pre.stories[story_id] },
    )
    &&& post.epics == pre.epics
    &&& post.last_item_id == pre.last_item_id
}

/// The position of the first occurrence of `x` in `v`, if any.
fn find_id(v: &Vec<u32>, x: u32) -> (r: Option<usize>)
    ensures
        match r {
            Some(i) => i < v@.len() && v@[i as int] == x && forall|j: int|
                0 <= j < i ==> v@[j] != x,
            None => !v@.contains(x),
        },
{
    let mut i: usize = 0;
    while i < v.len()
        invariant
            i <= v.len(),
            forall|j: int| 0 <= j < i ==> v@[j] != x,
        decreases v.len() - i,
    {
        if v[i] == x {
            return Some(i);
        }
        i = i + 1;
    }
    proof {
        assert(forall|j: int| 0 <= j < v@.len() ==> v@[j] != x);
    }
    None
}

impl DbState {
    /// Allocates the next id and inserts `epic` under it with an empty story
    /// list; returns the id.
    pub fn apply_create_epic(&mut self, epic: Epic) -> (id: u32)
        requires
            old(self).wf(),
            old(self).last_item_id < u32::MAX,
        ensures
            final(self).wf(),
            create_epic_step(old(self)@, final(self)@, epic@, id),
    {
        let id = self.last_item_id + 1;
        self.last_item_id = id;
        let fresh = Epic {
            name: epic.name,
            description: epic.description,
            status: epic.status,
            stories: Vec::new(),
        };
        proof {
            assert(fresh@ =~= EpicView { stories: Seq::<u32>::empty(), ..epic@ });
        }
        self.epics.insert(id, fresh);
        id
    }

    /// Allocates the next id, inserts `story` under it, and appends the id to
    /// the target epic's story list; fails when the epic does not exist.
    pub fn apply_create_story(&mut self, story: Story, epic_id: u32) -> (r: Result<u32, DbError>)
        requires
            old(self).wf(),
            old(self)@.epics.contains_key(epic_id) ==> old(self).last_item_id < u32::MAX,
        ensures
            final(self).wf(),
            match r {
                Ok(id) => create_story_step(old(self)@, final(self)@, story@, epic_id, id),
                Err(e) => {
                    &&& e == DbError::NotFound
                    &&& !old(self)@.epics.contains_key(epic_id)
                    &&& final(self)@ == old(self)@
                },
            },
    {
        let ghost pre = old(self)@;
        match self.epics.remove(epic_id) {
            None => Err(DbError::NotFound),
            Some(mut epic) => {
                let ghost epicv = epic@;
                let id = self.last_item_id + 1;
                self.last_item_id = id;
                epic.stories.push(id);
                proof {
                    assert(epic@ =~= EpicView { stories: epicv.stories.push(id), ..epicv });
                }
                self.epics.insert(epic_id, epic);
                self.stories.insert(id, story);
                proof {
                    assert(self.epics@ =~= pre.epics.insert(
                        epic_id,
                        EpicView { stories: pre.epics[epic_id].stories.push(id), ..pre.epics[
                            epic_id] },
                    ));
                }
                Ok(id)
            },
        }
    }

    /// Removes the epic and every story its list names; fails when the epic
    /// does not exist.
    pub fn apply_delete_epic(&mut self, epic_id: u32) -> (r: Result<(), DbError>)
        requires
            old(self).wf(),
        ensures
            final(self).wf(),
            match r {
                Ok(_) => delete_epic_step(old(self)@, final(self)@, epic_id),
                Err(e) => {
                    &&& e == DbError::NotFound
                    &&& !old(self)@.epics.contains_key(epic_id)
                    &&& final(self)@ == old(self)@
                },
            },
    {
        let ghost pre = old(self)@;
        match self.epics.remove(epic_id) {
            None => Err(DbError::NotFound),
            Some(epic) => {
                let ghost epicv = epic@;
                proof {
                    assert(epicv == pre.epics[epic_id]);
                }
                let mut i: usize = 0;
                while i < epic.stories.len()
                    invariant
                        i <= epic.stories.len(),
                        epic@ == epicv,
                        self.epics.wf(),
                        self.stories.wf(),
                        self.epics@ == pre.epics.remove(epic_id),
                        self.last_item_id == pre.last_item_id,
                        self.stories@ == pre.stories.remove_keys(
                            epicv.stories.take(i as int).to_set(),
                        ),
                    decreases epic.stories.len() - i,
                {
                    let id = epic.stories[i];
                    self.stories.remove(id);
                    proof {
                        let t0 = epicv.stories.take(i as int);
                        let t1 = epicv.stories.take(i as int + 1);
                        assert(t1 =~= t0.push(id));
                        assert forall|x: u32| #[trigger] t1.contains(x) <==> t0.contains(x) || x
                            == id by {
                            if t1.contains(x) {
                                let j = choose|j: int| 0 <= j < t1.len() && t1[j] == x;
                                if j < i as int {
                                    assert(t0[j] == x);
                                } else {
                                    assert(x == id);
                                }
                            }
                            if t0.contains(x) {
                                let j = choose|j: int| 0 <= j < t0.len() && t0[j] == x;
                                assert(t1[j] == x);
                            }
                            if x == id {
                                assert(t1[i as int] == x);
                            }
                        }
                        assert(t1.to_set() =~= t0.to_set().insert(id));
                        assert(pre.stories.remove_keys(t0.to_set()).remove(id)
                            =~= pre.stories.remove_keys(t1.to_set()));
                    }
                    i = i + 1;
                }
                proof {
                    assert(epicv.stories.take(epicv.stories.len() as int) =~= epicv.stories);
                }
                Ok(())
            },
        }
    }

    /// Removes `story_id` from the epic's list and from the story map; fails
    /// when the epic does not exist or the story is not linked to it.
    pub fn apply_delete_story(&mut self, epic_id: u32, story_id: u32) -> (r: Result<(), DbError>)
        requires
            old(self).wf(),
        ensures
            final(self).wf(),
            match r {
                Ok(_) => delete_story_step(old(self)@, final(self)@, epic_id, story_id),
                Err(DbError::NotFound) => {
                    &&& !old(self)@.epics.contains_key(epic_id)
                    &&& final(self)@ == old(self)@
                },
                Err(e) => {
                    &&& e == DbError::StoryNotInEpic
                    &&& old(self)@.epics.contains_key(epic_id)
                    &&& !old(self)@.epics[epic_id].stories.contains(story_id)
                    &&& final(self)@ == old(self)@
                },
            },
    {
        let ghost pre = old(self)@;
        match self.epics.remove(epic_id) {
            None => Err(DbError::NotFound),
            Some(mut epic) => {
                let ghost epicv = epic@;
                match find_id(&epic.stories, story_id) {
                    None => {
                        self.epics.insert(epic_id, epic);
                        proof {
                            assert(self.epics@ =~= pre.epics);
                            assert(self@ == pre);
                        }
                        Err(DbError::StoryNotInEpic)
                    },
                    Some(idx) => {
                        proof {
                            epicv.stories.index_of_first_ensures(story_id);
                            let fi = epicv.stories.index_of_first(story_id).unwrap();
                            if fi < idx as int {
                                assert(epicv.stories[fi] == story_id);
                                assert(false);
                            }
                            if (idx as int) < fi {
                                assert(epicv.stories[idx as int] != story_id);
                                assert(false);
                            }
                        }
                        epic.stories.remove(idx);
                        proof {
                            assert(epic@ =~= EpicView {
                                stories: epicv.stories.remove(idx as int),
                                ..epicv
                            });
                        }
                        self.epics.insert(epic_id, epic);
                        self.stories.remove(story_id);
                        proof {
                            assert(self.epics@ =~= pre.epics.insert(
                                epic_id,
                                EpicView {
                                    stories: epicv.stories.remove(
                                        epicv.stories.index_of_first(story_id).unwrap(),
                                    ),
                                    ..epicv
                                },
                            ));
                        }
                        Ok(())
                    },
                }
            },
        }
    }

    /// Overwrites the status of the given epic; fails when it does not exist.
    pub fn apply_update_epic_status(&mut self, epic_id: u32, status: Status) -> (r: Result<
        (),
        DbError,
    >)
        requires
            old(self).wf(),
        ensures
            final(self).wf(),
            match r {
                Ok(_) => update_epic_status_step(old(self)@, final(self)@, epic_id, status),
                Err(e) => {
                    &&& e == DbError::NotFound
                    &&& !old(self)@.epics.contains_key(epic_id)
                    &&& final(self)@ == old(self)@
                },
            },
    {
        let ghost pre = old(self)@;
        match self.epics.remove(epic_id) {
            None => Err(DbError::NotFound),
            Some(mut epic) => {
                let ghost epicv = epic@;
                epic.status = status;
                proof {
                    assert(epic@ =~= EpicView { status, ..epicv });
                }
                self.epics.insert(epic_id, epic);
                proof {
                    assert(self.epics@ =~= pre.epics.insert(
                        epic_id,
                        EpicView { status, ..pre.epics[epic_id] },
                    ));
                }
                Ok(())
            },
        }
    }

    /// Overwrites the status of the given story; fails when it does not exist.
    pub fn apply_update_story_status(&mut self, story_id: u32, status: Status) -> (r: Result<
        (),
        DbError,
    >)
        requires
            old(self).wf(),
        ensures
            final(self).wf(),
            match r {
                Ok(_) => update_story_status_step(old(self)@, final(self)@, story_id, status),
                Err(e) => {
                    &&& e == DbError::NotFound
                    &&& !old(self)@.stories.contains_key(story_id)
                    &&& final(self)@ == old(self)@
                },
            },
    {
        let ghost pre = old(self)@;
        match self.stories.remove(story_id) {
            None => Err(DbError::NotFound),
            Some(mut story) => {
                let ghost storyv = story@;
                story.status = status;
                proof {
                    assert(story@ =~= StoryView { status, ..storyv });
                }
                self.stories.insert(story_id, story);
                proof {
                    assert(self.stories@ =~= pre.stories.insert(
                        story_id,
                        StoryView { status, ..pre.stories[story_id] },
                    ));
                }
                Ok(())
            },
        }
    }
}

/// The storage backend capability: read and write one full snapshot. A read
/// yields exactly the abstract state; a successful write makes the abstract
/// state the written snapshot, and a failed write leaves it untouched.
pub trait Database: Sized {
    /// The abstract snapshot currently persisted.
    spec fn st(&self) -> DbView;

    /// The backend's own well-formedness.
    spec fn inv(&self) -> bool;

    /// Whether this backend can never fail. The in-memory backend owes
    /// success on every call; a file-backed one does not.
    spec fn infallible(&self) -> bool;

    /// Reads the full snapshot.
    fn read(&self) -> (r: Result<DbState, DbError>)
        requires
            self.inv(),
        ensures
            match r {
                Ok(state) => state.wf() && state@ == self.st(),
                Err(e) => e == DbError::IoError || e == DbError::FormatError,
            },
            self.infallible() ==> r is Ok,
    ;

    /// Writes the full snapshot, all or nothing.
    fn write(&mut self, state: &DbState) -> (r: Result<(), DbError>)
        requires
            old(self).inv(),
            state.wf(),
        ensures
            final(self).inv(),
            final(self).infallible() == old(self).infallible(),
            match r {
                Ok(_) => final(self).st() == state@,
                Err(e) => e == DbError::IoError && final(self).st() == old(self).st(),
            },
            old(self).infallible() ==> r is Ok,
    ;
}

/// An in-memory backend: reads return a deep copy of the last written
/// snapshot, writes store a deep copy of their argument.
pub struct MockDB {
    pub last_written_state: DbState,
}

impl MockDB {
    /// A backend holding the empty snapshot.
    pub fn new() -> (r: Self)
        ensures
            r.inv(),
            r.st() == DbView::empty(),
    {
        MockDB { last_written_state: DbState::new() }
    }
}

impl Database for MockDB {
    open spec fn st(&self) -> DbView {
        self.last_written_state@
    }

    open spec fn inv(&self) -> bool {
        self.last_written_state.wf()
    }

    open spec fn infallible(&self) -> bool {
        true
    }

    fn read(&self) -> (r: Result<DbState, DbError>) {
        Ok(self.last_written_state.clone())
    }

    fn write(&mut self, state: &DbState) -> (r: Result<(), DbError>) {
        self.last_written_state = state.clone();
        Ok(())
    }
}

/// The transactional facade over a storage backend: read, change, write back.
pub struct JiraDatabase<D: Database> {
    pub database: D,
}

impl<D: Database> JiraDatabase<D> {
    /// The abstract snapshot behind the facade.
    pub open spec fn st(&self) -> DbView {
        self.database.st()
    }

    /// The backend is well formed.
    pub open spec fn inv(&self) -> bool {
        self.database.inv()
    }

    /// The backend never fails, so every operation owes success on the
    /// inputs it accepts.
    pub open spec fn infallible(&self) -> bool {
        self.database.infallible()
    }

    /// Wraps the given backend.
    pub fn new(database: D) -> (r: Self)
        ensures
            r.database == database,
    {
        JiraDatabase { database }
    }

    /// Reads the current snapshot.
    pub fn read(&self) -> (r: Result<DbState, DbError>)
        requires
            self.inv(),
        ensures
            match r {
                Ok(state) => state.wf() && state@ == self.st(),
                Err(e) => e == DbError::IoError || e == DbError::FormatError,
            },
            self.infallible() ==> r is Ok,
    {
        self.database.read()
    }

    /// Creates an epic and returns its freshly allocated id.
    pub fn create_epic(&mut self, epic: Epic) -> (r: Result<u32, DbError>)
        requires
            old(self).inv(),
            old(self).st().last_item_id < u32::MAX,
        ensures
            final(self).inv(),
            final(self).infallible() == old(self).infallible(),
            old(self).infallible() ==> r is Ok,
            match r {
                Ok(id) => create_epic_step(old(self).st(), final(self).st(), epic@, id),
                Err(e) => {
                    &&& e == DbError::IoError || e == DbError::FormatError
                    &&& final(self).st() == old(self).st()
                },
            },
    {
        match self.database.read() {
            Err(e) => Err(e),
            Ok(mut state) => {
                let id = state.apply_create_epic(epic);
                match self.database.write(&state) {
                    Ok(_) => Ok(id),
                    Err(e) => Err(e),
                }
            },
        }
    }

    /// Creates a story under the given epic and returns its id.
    pub fn create_story(&mut self, story: Story, epic_id: u32) -> (r: Result<u32, DbError>)
        requires
            old(self).inv(),
            old(self).st().epics.contains_key(epic_id) ==> old(self).st().last_item_id
                < u32::MAX,
        ensures
            final(self).inv(),
            final(self).infallible() == old(self).infallible(),
            old(self).infallible() ==> r is Ok || r == Err::<u32, DbError>(DbError::NotFound),
            match r {
                Ok(id) => create_story_step(old(self).st(), final(self).st(), story@, epic_id, id),
                Err(DbError::NotFound) => {
                    &&& !old(self).st().epics.contains_key(epic_id)
                    &&& final(self).st() == old(self).st()
                },
                Err(e) => {
                    &&& e == DbError::IoError || e == DbError::FormatError
                    &&& final(self).st() == old(self).st()
                },
            },
    {
        match self.database.read() {
            Err(e) => Err(e),
            Ok(mut state) => {
                match state.apply_create_story(story, epic_id) {
                    Err(e) => Err(e),
                    Ok(id) => {
                        match self.database.write(&state) {
                            Ok(_) => Ok(id),
                            Err(e) => Err(e),
                        }
                    },
                }
            },
        }
    }

    /// Deletes an epic and, in cascade, the stories its list names.
    pub fn delete_epic(&mut self, epic_id: u32) -> (r: Result<(), DbError>)
        requires
            old(self).inv(),
        ensures
            final(self).inv(),
            final(self).infallible() == old(self).infallible(),
            old(self).infallible() ==> r is Ok || r == Err::<(), DbError>(DbError::NotFound),
            match r {
                Ok(_) => delete_epic_step(old(self).st(), final(self).st(), epic_id),
                Err(DbError::NotFound) => {
                    &&& !old(self).st().epics.contains_key(epic_id)
                    &&& final(self).st() == old(self).st()
                },
                Err(e) => {
                    &&& e == DbError::IoError || e == DbError::FormatError
                    &&& final(self).st() == old(self).st()
                },
            },
    {
        match self.database.read() {
            Err(e) => Err(e),
            Ok(mut state) => {
                match state.apply_delete_epic(epic_id) {
                    Err(e) => Err(e),
                    Ok(_) => {
                        match self.database.write(&state) {
                            Ok(_) => Ok(()),
                            Err(e) => Err(e),
                        }
                    },
                }
            },
        }
    }

    /// Unlinks a story from its epic and deletes it.
    pub fn delete_story(&mut self, epic_id: u32, story_id: u32) -> (r: Result<(), DbError>)
        requires
            old(self).inv(),
        ensures
            final(self).inv(),
            final(self).infallible() == old(self).infallible(),
            old(self).infallible() ==> r is Ok || r == Err::<(), DbError>(DbError::NotFound)
                || r == Err::<(), DbError>(DbError::StoryNotInEpic),
            match r {
                Ok(_) => delete_story_step(old(self).st(), final(self).st(), epic_id, story_id),
                Err(DbError::NotFound) => {
                    &&& !old(self).st().epics.contains_key(epic_id)
                    &&& final(self).st() == old(self).st()
                },
                Err(DbError::StoryNotInEpic) => {
                    &&& old(self).st().epics.contains_key(epic_id)
                    &&& !old(self).st().epics[epic_id].stories.contains(story_id)
                    &&& final(self).st() == old(self).st()
                },
                Err(e) => {
                    &&& e == DbError::IoError || e == DbError::FormatError
                    &&& final(self).st() == old(self).st()
                },
            },
    {
        match self.database.read() {
            Err(e) => Err(e),
            Ok(mut state) => {
                match state.apply_delete_story(epic_id, story_id) {
                    Err(e) => Err(e),
                    Ok(_) => {
                        match self.database.write(&state) {
                            Ok(_) => Ok(()),
                            Err(e) => Err(e),
                        }
                    },
                }
            },
        }
    }

    /// Overwrites an epic's status.
    pub fn update_epic_status(&mut self, epic_id: u32, status: Status) -> (r: Result<(), DbError>)
        requires
            old(self).inv(),
        ensures
            final(self).inv(),
            final(self).infallible() == old(self).infallible(),
            old(self).infallible() ==> r is Ok || r == Err::<(), DbError>(DbError::NotFound),
            match r {
                Ok(_) => update_epic_status_step(old(self).st(), final(self).st(), epic_id, status),
                Err(DbError::NotFound) => {
                    &&& !old(self).st().epics.contains_key(epic_id)
                    &&& final(self).st() == old(self).st()
                },
                Err(e) => {
                    &&& e == DbError::IoError || e == DbError::FormatError
                    &&& final(self).st() == old(self).st()
                },
            },
    {
        match self.database.read() {
            Err(e) => Err(e),
            Ok(mut state) => {
                match state.apply_update_epic_status(epic_id, status) {
                    Err(e) => Err(e),
                    Ok(_) => {
                        match self.database.write(&state) {
                            Ok(_) => Ok(()),
                            Err(e) => Err(e),
                        }
                    },
                }
            },
        }
    }

    /// Overwrites a story's status.
    pub fn update_story_status(&mut self, story_id: u32, status: Status) -> (r: Result<
        (),
        DbError,
    >)
        requires
            old(self).inv(),
        ensures
            final(self).inv(),
            final(self).infallible() == old(self).infallible(),
            old(self).infallible() ==> r is Ok || r == Err::<(), DbError>(DbError::NotFound),
            match r {
                Ok(_) => update_story_status_step(
                    old(self).st(),
                    final(self).st(),
                    story_id,
                    status,
                ),
                Err(DbError::NotFound) => {
                    &&& !old(self).st().stories.contains_key(story_id)
                    &&& final(self).st() == old(self).st()
                },
                Err(e) => {
                    &&& e == DbError::IoError || e == DbError::FormatError
                    &&& final(self).st() == old(self).st()
                },
            },
    {
        match self.database.read() {
            Err(e) => Err(e),
            Ok(mut state) => {
                match state.apply_update_story_status(story_id, status) {
                    Err(e) => Err(e),
                    Ok(_) => {
                        match self.database.write(&state) {
                            Ok(_) => Ok(()),
                            Err(e) => Err(e),
                        }
                    },
                }
            },
        }
    }
}

/// Writing a snapshot to a backend and reading it back yields a state whose
/// value equals the one written.
pub fn backend_round_trip<D: Database>(database: &mut D, state: &DbState) -> (r: Result<
    DbState,
    DbError,
>)
    requires
        old(database).inv(),
        state.wf(),
    ensures
        final(database).inv(),
        final(database).infallible() == old(database).infallible(),
        old(database).infallible() ==> r is Ok,
        match r {
            Ok(back) => back.wf() && back@ == state@,
            Err(e) => e == DbError::IoError || e == DbError::FormatError,
        },
{
    match database.write(state) {
        Err(e) => Err(e),
        Ok(_) => database.read(),
    }
}

} // verus!
