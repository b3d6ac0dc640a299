//! Domain model: work-item status, epics, stories, the persisted aggregate,
//! and the library's error kind.

use vstd::prelude::*;
use crate::id_map::IdMap;

verus! {

/// The four states a work item can be in. Any value may follow any other.
#[derive(Clone, Copy, Debug, PartialEq, Eq, Structural)]
pub enum Status {
    Open,
    InProgress,
    Resolved,
    Closed,
}

/// The ways a repository or storage operation can fail.
#[derive(Clone, Copy, Debug, PartialEq, Eq, Structural)]
pub enum DbError {
    /// The underlying medium could not be read or written.
    IoError,
    /// The persisted content does not parse into the expected shape.
    FormatError,
    /// A referenced epic or story id does not exist.
    NotFound,
    /// The story id exists but is not linked to the given epic.
    StoryNotInEpic,
}

/// A top-level unit of work holding zero or more stories, recorded by id in
/// insertion order.
#[derive(Debug, PartialEq)]
pub struct Epic {
    pub name: String,
    pub description: String,
    pub status: Status,
    pub stories: Vec<u32>,
}

/// The mathematical value of an [`Epic`].
#[verifier::ext_equal]
pub ghost struct EpicView {
    pub name: Seq<char>,
    pub description: Seq<char>,
    pub status: Status,
    pub stories: Seq<u32>,
}

impl View for Epic {
    type V = EpicView;

    open spec fn view(&self) -> EpicView {
        EpicView {
            name: self.name@,
            description: self.description@,
            status: self.status,
            stories: self.stories@,
        }
    }
}

impl Epic {
    /// A fresh epic: the given texts, status `Open`, and no stories.
    pub fn new(name: String, description: String) -> (r: Self)
        ensures
            r@.name == name@,
            r@.description == description@,
            r@.status == Status::Open,
            r@.stories == Seq::<u32>::empty(),
    {
        Self { name, description, status: Status::Open, stories: Vec::new() }
    }
}

impl Clone for Epic {
    fn clone(&self) -> (r: Self)
        ensures
            r@ == self@,
    {
        Epic {
            name: self.name.clone(),
            description: self.description.clone(),
            status: self.status,
            stories: clone_id_vec(&self.stories),
        }
    }
}

/// A unit of work belonging to exactly one epic; the link is recorded on the
/// epic's side only.
#[derive(Debug, PartialEq)]
pub struct Story {
    pub name: String,
    pub description: String,
    pub status: Status,
}

/// The mathematical value of a [`Story`].
#[verifier::ext_equal]
pub ghost struct StoryView {
    pub name: Seq<char>,
    pub description: Seq<char>,
    pub status: Status,
}

impl View for Story {
    type V = StoryView;

    open spec fn view(&self) -> StoryView {
        StoryView { name: self.name@, description: self.description@, status: self.status }
    }
}

impl Story {
    /// A fresh story: the given texts and status `Open`.
    pub fn new(name: String, description: String) -> (r: Self)
        ensures
            r@.name == name@,
            r@.description == description@,
            r@.status == Status::Open,
    {
        Self { name, description, status: Status::Open }
    }
}

impl Clone for Story {
    fn clone(&self) -> (r: Self)
        ensures
            r@ == self@,
    {
        Story {
            name: self.name.clone(),
            description: self.description.clone(),
            status: self.status,
        }
    }
}

/// The single persisted aggregate: the id counter and the two entity maps.
pub struct DbState {
    pub last_item_id: u32,
    pub epics: IdMap<Epic>,
    pub stories: IdMap<Story>,
}

/// The mathematical value of a [`DbState`].
#[verifier::ext_equal]
pub ghost struct DbView {
    pub last_item_id: u32,
    pub epics: Map<u32, EpicView>,
    pub stories: Map<u32, StoryView>,
}

impl View for DbState {
    type V = DbView;

    open spec fn view(&self) -> DbView {
        DbView { last_item_id: self.last_item_id, epics: self.epics@, stories: self.stories@ }
    }
}

impl DbView {
    /// The view of the empty aggregate.
    pub open spec fn empty() -> DbView {
        DbView {
            last_item_id: 0,
            epics: Map::<u32, EpicView>::empty(),
            stories: Map::<u32, StoryView>::empty(),
        }
    }
}

impl DbState {
    /// The entry sequences behind both maps have pairwise distinct keys.
    pub open spec fn wf(&self) -> bool {
        self.epics.wf() && self.stories.wf()
    }

    /// The empty aggregate: no epics, no stories, counter at zero.
    pub fn new() -> (r: Self)
        ensures
            r.wf(),
            r@ == DbView::empty(),
    {
        DbState { last_item_id: 0, epics: IdMap::new(), stories: IdMap::new() }
    }
}

impl Clone for DbState {
    /// A deep copy with the same view.
    fn clone(&self) -> (r: Self)
        ensures
            r@ == self@,
            r.wf() == self.wf(),
    {
        DbState {
            last_item_id: self.last_item_id,
            epics: self.epics.clone(),
            stories: self.stories.clone(),
        }
    }
}

/// An element-wise copy of a vector of ids.
fn clone_id_vec(v: &Vec<u32>) -> (r: Vec<u32>)
    ensures
        r@ == v@,
{
    let mut r: Vec<u32> = Vec::new();
    let mut i: usize = 0;
    while i < v.len()
        invariant
            i <= v.len(),
            r@ == v@.take(i as int),
        decreases v.len() - i,
    {
        r.push(v[i]);
        proof {
            assert(r@ =~= v@.take(i as int + 1));
        }
        i = i + 1;
    }
    proof {
        assert(r@ =~= v@);
    }
    r
}

} // verus!
