//! The navigator: an ordered stack of screens over the repository. Navigation
//! actions push, pop or clear the stack; repository actions call the facade
//! and leave the stack where it is, also when the call fails.

use vstd::prelude::*;
use vstd::string::StrSliceExecFns;
use crate::db::{
    create_epic_step, create_story_step, Database, delete_epic_step, delete_story_step,
    JiraDatabase, update_epic_status_step, update_story_status_step,
};
use crate::models::{DbError, DbView, Epic, Status, Story};
use crate::prompts::{parsed_u32, u32_from_input};

verus! {

/// One screen of the terminal interface, named by the ids it is focused on.
#[derive(Clone, Copy, Debug, PartialEq, Eq, Structural)]
pub enum Page {
    Home,
    EpicDetail { epic_id: u32 },
    StoryDetail { epic_id: u32, story_id: u32 },
}

/// A high-level user intent, as parsed from raw input by a screen.
#[derive(Debug)]
pub enum Action {
    NavigateToEpicDetail { epic_id: u32 },
    NavigateToStoryDetail { epic_id: u32, story_id: u32 },
    GoBack,
    Exit,
    CreateEpic { epic: Epic },
    CreateStory { story: Story, epic_id: u32 },
    DeleteEpic { epic_id: u32 },
    DeleteStory { epic_id: u32, story_id: u32 },
    UpdateEpicStatus { epic_id: u32, status: Status },
    UpdateStoryStatus { story_id: u32, status: Status },
}

/// What one input token asks of the current screen: a stack move, a prompt
/// to open, or a navigation to an entity, with the ids taken from the screen.
#[derive(Clone, Copy, Debug, PartialEq, Eq, Structural)]
pub enum ScreenAction {
    ExitProgram,
    GoToPreviousPage,
    OpenCreateEpicPrompt,
    OpenUpdateEpicPrompt { epic_id: u32 },
    OpenDeleteEpicPrompt { epic_id: u32 },
    OpenCreateStoryPrompt { epic_id: u32 },
    OpenUpdateStoryPrompt { story_id: u32 },
    OpenDeleteStoryPrompt { epic_id: u32, story_id: u32 },
    GoToEpic { epic_id: u32 },
    GoToStory { epic_id: u32, story_id: u32 },
}

/// The screen action a raw token selects on each page: single letters name
/// the fixed commands of that page, a numeric token names an entity to
/// navigate into, and everything else selects nothing.
pub open spec fn input_action(page: Page, token: Seq<char>) -> Option<ScreenAction> {
    match page {
        Page::Home => {
            if token == seq!['q'] {
                Some(ScreenAction::ExitProgram)
            } else if token == seq!['c'] {
                Some(ScreenAction::OpenCreateEpicPrompt)
            } else {
                match parsed_u32(token) {
                    Some(id) => Some(ScreenAction::GoToEpic { epic_id: id }),
                    None => None,
                }
            }
        },
        Page::EpicDetail { epic_id } => {
            if token == seq!['p'] {
                Some(ScreenAction::GoToPreviousPage)
            } else if token == seq!['u'] {
                Some(ScreenAction::OpenUpdateEpicPrompt { epic_id })
            } else if token == seq!['d'] {
                Some(ScreenAction::OpenDeleteEpicPrompt { epic_id })
            } else if token == seq!['c'] {
                Some(ScreenAction::OpenCreateStoryPrompt { epic_id })
            } else {
                match parsed_u32(token) {
                    Some(id) => Some(ScreenAction::GoToStory { epic_id, story_id: id }),
                    None => None,
                }
            }
        },
        Page::StoryDetail { epic_id, story_id } => {
            if token == seq!['p'] {
                Some(ScreenAction::GoToPreviousPage)
            } else if token == seq!['u'] {
                Some(ScreenAction::OpenUpdateStoryPrompt { story_id })
            } else if token == seq!['d'] {
                Some(ScreenAction::OpenDeleteStoryPrompt { epic_id, story_id })
            } else {
                None
            }
        },
    }
}

/// Whether the token is exactly the one-character command `c`.
fn token_is(token: &str, c: char) -> (r: bool)
    ensures
        r == (token@ == seq![c]),
{
    if token.unicode_len() != 1 {
        proof {
            assert(token@.len() != 1 && seq![c].len() == 1);
        }
        false
    } else {
        proof {
            if token@[0] == c {
                assert(token@ =~= seq![c]);
            }
        }
        token.get_char(0) == c
    }
}

/// Parses one raw input token into the action it selects on the given page,
/// or nothing when the token is not recognized there.
pub fn handle_input(page: &Page, token: &str) -> (r: Option<ScreenAction>)
    ensures
        r == input_action(*page, token@),
{
    match page {
        Page::Home => {
            if token_is(token, 'q') {
                Some(ScreenAction::ExitProgram)
            } else if token_is(token, 'c') {
                Some(ScreenAction::OpenCreateEpicPrompt)
            } else {
                match u32_from_input(token) {
                    Some(id) => Some(ScreenAction::GoToEpic { epic_id: id }),
                    None => None,
                }
            }
        },
        Page::EpicDetail { epic_id } => {
            if token_is(token, 'p') {
                Some(ScreenAction::GoToPreviousPage)
            } else if token_is(token, 'u') {
                Some(ScreenAction::OpenUpdateEpicPrompt { epic_id: *epic_id })
            } else if token_is(token, 'd') {
                Some(ScreenAction::OpenDeleteEpicPrompt { epic_id: *epic_id })
            } else if token_is(token, 'c') {
                Some(ScreenAction::OpenCreateStoryPrompt { epic_id: *epic_id })
            } else {
                match u32_from_input(token) {
                    Some(id) => Some(
                        ScreenAction::GoToStory { epic_id: *epic_id, story_id: id },
                    ),
                    None => None,
                }
            }
        },
        Page::StoryDetail { epic_id, story_id } => {
            if token_is(token, 'p') {
                Some(ScreenAction::GoToPreviousPage)
            } else if token_is(token, 'u') {
                Some(ScreenAction::OpenUpdateStoryPrompt { story_id: *story_id })
            } else if token_is(token, 'd') {
                Some(ScreenAction::OpenDeleteStoryPrompt {
                    epic_id: *epic_id,
                    story_id: *story_id,
                })
            } else {
                None
            }
        },
    }
}

/// The owner of the screen stack. The stack starts as a single home screen;
/// an empty stack means the program is done.
pub struct Navigator<D: Database> {
    pub pages: Vec<Page>,
    pub db: JiraDatabase<D>,
}

impl<D: Database> Navigator<D> {
    /// The stack of screens, outermost first.
    pub open spec fn pages_seq(&self) -> Seq<Page> {
        self.pages@
    }

    /// The repository snapshot behind the screens.
    pub open spec fn st(&self) -> DbView {
        self.db.st()
    }

    /// The backend is well formed.
    pub open spec fn inv(&self) -> bool {
        self.db.inv()
    }

    /// The backend never fails, so every repository action owes success on
    /// the inputs it accepts.
    pub open spec fn infallible(&self) -> bool {
        self.db.infallible()
    }

    /// A navigator showing the home screen over the given repository.
    pub fn new(db: JiraDatabase<D>) -> (r: Self)
        ensures
            r.pages_seq() == seq![Page::Home],
            r.db == db,
    {
        let mut pages: Vec<Page> = Vec::new();
        pages.push(Page::Home);
        proof {
            assert(pages@ =~= seq![Page::Home]);
        }
        Navigator { pages, db }
    }

    /// The screen currently visible, if any.
    pub fn get_current_page(&self) -> (r: Option<&Page>)
        ensures
            match r {
                Some(p) => self.pages_seq().len() > 0 && *p == self.pages_seq().last(),
                None => self.pages_seq().len() == 0,
            },
    {
        if self.pages.len() == 0 {
            None
        } else {
            Some(&self.pages[self.pages.len() - 1])
        }
    }

    /// Applies one action: a repository call for the mutating intents, a
    /// stack adjustment for the navigation intents. A repository error
    /// leaves the stack unchanged, so the user stays on the same screen.
    pub fn handle_action(&mut self, action: Action) -> (r: Result<(), DbError>)
        requires
            old(self).inv(),
            match action {
                Action::CreateEpic { .. } => old(self).st().last_item_id < u32::MAX,
                Action::CreateStory { epic_id, .. } => old(self).st().epics.contains_key(epic_id)
                    ==> old(self).st().last_item_id < u32::MAX,
                _ => true,
            },
        ensures
            final(self).inv(),
            final(self).infallible() == old(self).infallible(),
            old(self).infallible() ==> match action {
                Action::CreateStory { .. } | Action::DeleteEpic { .. } | Action::UpdateEpicStatus {
                    ..
                } | Action::UpdateStoryStatus { .. } => r is Ok || r == Err::<(), DbError>(
                    DbError::NotFound,
                ),
                Action::DeleteStory { .. } => r is Ok || r == Err::<(), DbError>(DbError::NotFound)
                    || r == Err::<(), DbError>(DbError::StoryNotInEpic),
                _ => r is Ok,
            },
            match action {
                Action::NavigateToEpicDetail { epic_id } => {
                    &&& r == Ok::<(), DbError>(())
                    &&& final(self).pages_seq() == old(self).pages_seq().push(
                        Page::EpicDetail { epic_id },
                    )
                    &&& final(self).st() == old(self).st()
                },
                Action::NavigateToStoryDetail { epic_id, story_id } => {
                    &&& r == Ok::<(), DbError>(())
                    &&& final(self).pages_seq() == old(self).pages_seq().push(
                        Page::StoryDetail { epic_id, story_id },
                    )
                    &&& final(self).st() == old(self).st()
                },
                Action::GoBack => {
                    &&& r == Ok::<(), DbError>(())
                    &&& final(self).pages_seq() == (if old(self).pages_seq().len() > 0 {
                        old(self).pages_seq().drop_last()
                    } else {
                        old(self).pages_seq()
                    })
                    &&& final(self).st() == old(self).st()
                },
                Action::Exit => {
                    &&& r == Ok::<(), DbError>(())
                    &&& final(self).pages_seq().len() == 0
                    &&& final(self).st() == old(self).st()
                },
                Action::CreateEpic { epic } => {
                    &&& final(self).pages_seq() == old(self).pages_seq()
                    &&& match r {
                        Ok(_) => create_epic_step(
                            old(self).st(),
                            final(self).st(),
                            epic@,
                            (old(self).st().last_item_id + 1) as u32,
                        ),
                        Err(_) => final(self).st() == old(self).st(),
                    }
                },
                Action::CreateStory { story, epic_id } => {
                    &&& final(self).pages_seq() == old(self).pages_seq()
                    &&& match r {
                        Ok(_) => create_story_step(
                            old(self).st(),
                            final(self).st(),
                            story@,
                            epic_id,
                            (old(self).st().last_item_id + 1) as u32,
                        ),
                        Err(_) => final(self).st() == old(self).st(),
                    }
                },
                Action::DeleteEpic { epic_id } => {
                    &&& final(self).pages_seq() == old(self).pages_seq()
                    &&& match r {
                        Ok(_) => delete_epic_step(old(self).st(), final(self).st(), epic_id),
                        Err(_) => final(self).st() == old(self).st(),
                    }
                },
                Action::DeleteStory { epic_id, story_id } => {
                    &&& final(self).pages_seq() == old(self).pages_seq()
                    &&& match r {
                        Ok(_) => delete_story_step(
                            old(self).st(),
                            final(self).st(),
                            epic_id,
                            story_id,
                        ),
                        Err(_) => final(self).st() == old(self).st(),
                    }
                },
                Action::UpdateEpicStatus { epic_id, status } => {
                    &&& final(self).pages_seq() == old(self).pages_seq()
                    &&& match r {
                        Ok(_) => update_epic_status_step(
                            old(self).st(),
                            final(self).st(),
                            epic_id,
                            status,
                        ),
                        Err(_) => final(self).st() == old(self).st(),
                    }
                },
                Action::UpdateStoryStatus { story_id, status } => {
                    &&& final(self).pages_seq() == old(self).pages_seq()
                    &&& match r {
                        Ok(_) => update_story_status_step(
                            old(self).st(),
                            final(self).st(),
                            story_id,
                            status,
                        ),
                        Err(_) => final(self).st() == old(self).st(),
                    }
                },
            },
    {
        match action {
            Action::NavigateToEpicDetail { epic_id } => {
                self.pages.push(Page::EpicDetail { epic_id });
                Ok(())
            },
            Action::NavigateToStoryDetail { epic_id, story_id } => {
                self.pages.push(Page::StoryDetail { epic_id, story_id });
                Ok(())
            },
            Action::GoBack => {
                if self.pages.len() > 0 {
                    self.pages.pop();
                }
                Ok(())
            },
            Action::Exit => {
                self.pages = Vec::new();
                Ok(())
            },
            Action::CreateEpic { epic } => {
                let ghost pre = self.db.st();
                match self.db.create_epic(epic) {
                    Ok(id) => {
                        proof {
                            assert(id == pre.last_item_id + 1);
                        }
                        Ok(())
                    },
                    Err(e) => Err(e),
                }
            },
            Action::CreateStory { story, epic_id } => {
                let ghost pre = self.db.st();
                match self.db.create_story(story, epic_id) {
                    Ok(id) => {
                        proof {
                            assert(id == pre.last_item_id + 1);
                        }
                        Ok(())
                    },
                    Err(e) => Err(e),
                }
            },
            Action::DeleteEpic { epic_id } => {
                match self.db.delete_epic(epic_id) {
                    Ok(_) => Ok(()),
                    Err(e) => Err(e),
                }
            },
            Action::DeleteStory { epic_id, story_id } => {
                match self.db.delete_story(epic_id, story_id) {
                    Ok(_) => Ok(()),
                    Err(e) => Err(e),
                }
            },
            Action::UpdateEpicStatus { epic_id, status } => {
                match self.db.update_epic_status(epic_id, status) {
                    Ok(_) => Ok(()),
                    Err(e) => Err(e),
                }
            },
            Action::UpdateStoryStatus { story_id, status } => {
                match self.db.update_story_status(story_id, status) {
                    Ok(_) => Ok(()),
                    Err(e) => Err(e),
                }
            },
        }
    }
}

} // verus!
