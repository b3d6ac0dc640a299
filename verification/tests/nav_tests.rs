use jira_tracker::db::{JiraDatabase, MockDB};
use jira_tracker::models::{Epic, Status, Story};
use jira_tracker::nav::{handle_input, Action, Navigator, Page, ScreenAction};

#[test]
fn each_screen_parses_its_own_commands() {
    let home = Page::Home;
    assert_eq!(handle_input(&home, "q"), Some(ScreenAction::ExitProgram));
    assert_eq!(handle_input(&home, "c"), Some(ScreenAction::OpenCreateEpicPrompt));
    assert_eq!(handle_input(&home, "3"), Some(ScreenAction::GoToEpic { epic_id: 3 }));
    assert_eq!(handle_input(&home, "p"), None);
    assert_eq!(handle_input(&home, ""), None);

    let epic = Page::EpicDetail { epic_id: 5 };
    assert_eq!(handle_input(&epic, "p"), Some(ScreenAction::GoToPreviousPage));
    assert_eq!(handle_input(&epic, "u"), Some(ScreenAction::OpenUpdateEpicPrompt { epic_id: 5 }));
    assert_eq!(handle_input(&epic, "d"), Some(ScreenAction::OpenDeleteEpicPrompt { epic_id: 5 }));
    assert_eq!(handle_input(&epic, "c"), Some(ScreenAction::OpenCreateStoryPrompt { epic_id: 5 }));
    assert_eq!(
        handle_input(&epic, "8"),
        Some(ScreenAction::GoToStory { epic_id: 5, story_id: 8 })
    );
    assert_eq!(handle_input(&epic, "q"), None);

    let story = Page::StoryDetail { epic_id: 5, story_id: 8 };
    assert_eq!(handle_input(&story, "p"), Some(ScreenAction::GoToPreviousPage));
    assert_eq!(
        handle_input(&story, "u"),
        Some(ScreenAction::OpenUpdateStoryPrompt { story_id: 8 })
    );
    assert_eq!(
        handle_input(&story, "d"),
        Some(ScreenAction::OpenDeleteStoryPrompt { epic_id: 5, story_id: 8 })
    );
    assert_eq!(handle_input(&story, "9"), None);
}

#[test]
fn navigator_starts_on_the_home_page() {
    let nav = Navigator::new(JiraDatabase { database: MockDB::new() });
    assert_eq!(nav.get_current_page(), Some(&Page::Home));
}

#[test]
fn navigation_actions_adjust_the_stack() {
    let mut nav = Navigator::new(JiraDatabase { database: MockDB::new() });

    nav.handle_action(Action::NavigateToEpicDetail { epic_id: 1 }).unwrap();
    assert_eq!(nav.get_current_page(), Some(&Page::EpicDetail { epic_id: 1 }));

    nav.handle_action(Action::NavigateToStoryDetail { epic_id: 1, story_id: 2 }).unwrap();
    assert_eq!(nav.get_current_page(), Some(&Page::StoryDetail { epic_id: 1, story_id: 2 }));

    nav.handle_action(Action::GoBack).unwrap();
    assert_eq!(nav.get_current_page(), Some(&Page::EpicDetail { epic_id: 1 }));

    nav.handle_action(Action::GoBack).unwrap();
    nav.handle_action(Action::GoBack).unwrap();
    assert_eq!(nav.get_current_page(), None);
}

#[test]
fn exit_clears_the_stack() {
    let mut nav = Navigator::new(JiraDatabase { database: MockDB::new() });
    nav.handle_action(Action::NavigateToEpicDetail { epic_id: 7 }).unwrap();
    nav.handle_action(Action::Exit).unwrap();
    assert_eq!(nav.get_current_page(), None);
}

#[test]
fn repository_actions_leave_the_stack_in_place() {
    let mut nav = Navigator::new(JiraDatabase { database: MockDB::new() });

    nav.handle_action(Action::CreateEpic {
        epic: Epic::new(String::from("E"), String::default()),
    })
    .unwrap();
    nav.handle_action(Action::CreateStory {
        story: Story::new(String::from("S"), String::default()),
        epic_id: 1,
    })
    .unwrap();
    nav.handle_action(Action::UpdateStoryStatus { story_id: 2, status: Status::Resolved })
        .unwrap();
    assert_eq!(nav.get_current_page(), Some(&Page::Home));

    let state = nav.db.read().unwrap();
    assert_eq!(state.stories.get(2).unwrap().status, Status::Resolved);

    // a failing repository call reports its error and changes nothing
    let r = nav.handle_action(Action::DeleteEpic { epic_id: 999 });
    assert!(r.is_err());
    assert_eq!(nav.get_current_page(), Some(&Page::Home));
    assert_eq!(nav.db.read().unwrap().last_item_id, 2);

    nav.handle_action(Action::DeleteStory { epic_id: 1, story_id: 2 }).unwrap();
    nav.handle_action(Action::UpdateEpicStatus { epic_id: 1, status: Status::Closed }).unwrap();
    let state = nav.db.read().unwrap();
    assert_eq!(state.epics.get(1).unwrap().status, Status::Closed);
    assert_eq!(state.stories.len(), 0);
}
