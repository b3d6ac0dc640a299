use jira_tracker::db::{backend_round_trip, JiraDatabase, MockDB};
use jira_tracker::models::{DbState, Epic, Status, Story};

#[test]
fn create_epic_should_work() {
    let mut jira_db = JiraDatabase { database: MockDB::new() };
    let epic = Epic::new(String::default(), String::default());

    let r = jira_db.create_epic(epic.clone());

    assert_eq!(r.is_ok(), true);

    let epic_id = r.unwrap();
    let state = jira_db.read().unwrap();

    let expected_id = 1;

    assert_eq!(epic_id, expected_id);
    assert_eq!(state.last_item_id, expected_id);
    assert_eq!(state.epics.get(epic_id), Some(&epic));
}

#[test]
fn create_story_should_work() {
    let mut jira_db = JiraDatabase { database: MockDB::new() };
    let epic = Epic::new(String::default(), String::default());
    let story = Story::new(String::default(), String::default());

    let r = jira_db.create_epic(epic);
    assert_eq!(r.is_ok(), true);

    let epic_id = r.unwrap();

    let r = jira_db.create_story(story.clone(), epic_id);
    assert_eq!(r.is_ok(), true);

    let id = r.unwrap();
    let db_state = jira_db.read().unwrap();

    let expected_id = 2;

    assert_eq!(id, expected_id);
    assert_eq!(db_state.last_item_id, expected_id);
    assert_eq!(db_state.epics.get(epic_id).unwrap().stories.contains(&id), true);
    assert_eq!(db_state.stories.get(id), Some(&story));
}

#[test]
fn create_story_should_error_if_invalid_epic_id() {
    let mut db = JiraDatabase { database: MockDB::new() };
    let story = Story::new(String::default(), String::default());

    let non_existent_epic_id = 999;

    let result = db.create_story(story, non_existent_epic_id);
    assert_eq!(result.is_err(), true);

    // the state is left untouched
    let state = db.read().unwrap();
    assert_eq!(state.last_item_id, 0);
    assert_eq!(state.stories.len(), 0);
}

#[test]
fn delete_story_should_error_if_invalid_epic_id() {
    let mut db = JiraDatabase { database: MockDB::new() };
    let epic = Epic::new(String::default(), String::default());
    let story = Story::new(String::default(), String::default());
    let r = db.create_epic(epic);

    assert_eq!(r.is_ok(), true);

    let epic_id = r.unwrap();
    let r = db.create_story(story, epic_id);

    assert_eq!(r.is_ok(), true);

    let story_id = r.unwrap();
    let non_existent_epic_id = 999;
    let r = db.delete_story(non_existent_epic_id, story_id);

    assert_eq!(r.is_err(), true);
}

#[test]
fn delete_epic_should_error_if_invalid_epic_id() {
    let mut jira_db = JiraDatabase { database: MockDB::new() };

    let non_existent_epic_id = 999;

    let r = jira_db.delete_epic(non_existent_epic_id);
    assert_eq!(r.is_err(), true);
}

#[test]
fn delete_story_should_error_if_story_not_found_in_epic() {
    let mut jira_db = JiraDatabase { database: MockDB::new() };
    let epic = Epic::new(String::default(), String::default());
    let story = Story::new(String::default(), String::default());

    let result = jira_db.create_epic(epic);
    assert_eq!(result.is_ok(), true);

    let epic_id = result.unwrap();

    let r = jira_db.create_story(story, epic_id);
    assert_eq!(r.is_ok(), true);

    let non_existent_story_id = 999;

    let r = jira_db.delete_story(epic_id, non_existent_story_id);
    assert_eq!(r.is_err(), true);
}

#[test]
fn delete_story_should_work() {
    let mut db = JiraDatabase { database: MockDB::new() };
    let epic = Epic::new(String::default(), String::default());
    let story = Story::new(String::default(), String::default());

    let result = db.create_epic(epic);
    assert_eq!(result.is_ok(), true);

    let epic_id = result.unwrap();

    let result = db.create_story(story, epic_id);
    assert_eq!(result.is_ok(), true);

    let story_id = result.unwrap();

    let result = db.delete_story(epic_id, story_id);
    assert_eq!(result.is_ok(), true);

    let db_state = db.read().unwrap();

    let expected_last_id = 2;

    assert_eq!(db_state.last_item_id, expected_last_id);
    assert_eq!(db_state.epics.get(epic_id).unwrap().stories.contains(&story_id), false);
    assert_eq!(db_state.stories.get(story_id), None);
}

#[test]
fn delete_epic_should_work() {
    let mut db = JiraDatabase { database: MockDB::new() };
    let epic = Epic::new(String::default(), String::default());
    let story = Story::new(String::default(), String::default());

    let result = db.create_epic(epic);
    assert_eq!(result.is_ok(), true);

    let epic_id = result.unwrap();

    let result = db.create_story(story, epic_id);
    assert_eq!(result.is_ok(), true);

    let story_id = result.unwrap();

    let result = db.delete_epic(epic_id);
    assert_eq!(result.is_ok(), true);

    let db_state = db.read().unwrap();

    let expected_last_id = 2;

    assert_eq!(db_state.last_item_id, expected_last_id);
    assert_eq!(db_state.epics.get(epic_id), None);
    assert_eq!(db_state.stories.get(story_id), None);
}

#[test]
fn update_epic_status_should_work() {
    let mut db = JiraDatabase { database: MockDB::new() };
    let epic = Epic::new(String::default(), String::default());

    let r = db.create_epic(epic);

    assert_eq!(r.is_ok(), true);

    let epic_id = r.unwrap();

    let r = db.update_epic_status(epic_id, Status::Closed);

    assert_eq!(r.is_ok(), true);

    let db_state = db.read().unwrap();

    assert_eq!(db_state.epics.get(epic_id).unwrap().status, Status::Closed);
}

#[test]
fn update_story_status_should_work() {
    let mut db = JiraDatabase { database: MockDB::new() };
    let epic = Epic::new(String::default(), String::default());
    let story = Story::new(String::default(), String::default());

    let r = db.create_epic(epic);
    let epic_id = r.unwrap();
    let r = db.create_story(story, epic_id);
    let story_id = r.unwrap();
    let r = db.update_story_status(story_id, Status::Closed);

    assert_eq!(r.is_ok(), true);

    let db_state = db.read().unwrap();

    assert_eq!(db_state.stories.get(story_id).unwrap().status, Status::Closed);
}

#[test]
fn update_epic_status_should_error_if_invalid_epic_id() {
    let mut db = JiraDatabase { database: MockDB::new() };
    let non_existent_epic_id = 999;

    let r = db.update_epic_status(non_existent_epic_id, Status::Closed);
    assert_eq!(r.is_err(), true);
}

#[test]
fn update_story_status_should_error_if_invalid_story_id() {
    let mut db = JiraDatabase { database: MockDB::new() };
    let non_existent_story_id = 999;

    let result = db.update_story_status(non_existent_story_id, Status::Closed);
    assert_eq!(result.is_err(), true);
}

#[test]
fn ids_increase_and_counter_tracks_highest() {
    let mut db = JiraDatabase { database: MockDB::new() };

    let e1 = db.create_epic(Epic::new(String::from("a"), String::from("a"))).unwrap();
    let s1 = db.create_story(Story::new(String::from("b"), String::from("b")), e1).unwrap();
    let e2 = db.create_epic(Epic::new(String::from("c"), String::from("c"))).unwrap();
    let s2 = db.create_story(Story::new(String::from("d"), String::from("d")), e2).unwrap();

    assert_eq!(e1, 1);
    assert_eq!(s1, 2);
    assert_eq!(e2, 3);
    assert_eq!(s2, 4);
    assert_eq!(db.read().unwrap().last_item_id, 4);
}

#[test]
fn delete_epic_spares_stories_of_other_epics() {
    let mut db = JiraDatabase { database: MockDB::new() };

    let e1 = db.create_epic(Epic::new(String::from("one"), String::default())).unwrap();
    let e2 = db.create_epic(Epic::new(String::from("two"), String::default())).unwrap();
    let s1 = db.create_story(Story::new(String::from("in one"), String::default()), e1).unwrap();
    let s2 = db.create_story(Story::new(String::from("in two"), String::default()), e2).unwrap();

    db.delete_epic(e1).unwrap();

    let state = db.read().unwrap();
    assert_eq!(state.epics.get(e1), None);
    assert_eq!(state.stories.get(s1), None);
    assert!(state.epics.get(e2).is_some());
    assert!(state.stories.get(s2).is_some());
    assert_eq!(state.epics.get(e2).unwrap().stories, vec![s2]);
}

#[test]
fn delete_story_requires_link_to_that_epic() {
    let mut db = JiraDatabase { database: MockDB::new() };

    let e1 = db.create_epic(Epic::new(String::from("one"), String::default())).unwrap();
    let e2 = db.create_epic(Epic::new(String::from("two"), String::default())).unwrap();
    let s2 = db.create_story(Story::new(String::from("in two"), String::default()), e2).unwrap();

    // the story exists, but under the other epic
    let r = db.delete_story(e1, s2);
    assert_eq!(r.is_err(), true);

    let state = db.read().unwrap();
    assert!(state.stories.get(s2).is_some());
    assert_eq!(state.epics.get(e2).unwrap().stories, vec![s2]);
}

#[test]
fn update_on_unknown_id_leaves_state_unchanged() {
    let mut db = JiraDatabase { database: MockDB::new() };
    let e1 = db.create_epic(Epic::new(String::from("one"), String::default())).unwrap();

    assert!(db.update_epic_status(999, Status::Resolved).is_err());
    assert!(db.update_story_status(999, Status::Resolved).is_err());

    let state = db.read().unwrap();
    assert_eq!(state.last_item_id, 1);
    assert_eq!(state.epics.get(e1).unwrap().status, Status::Open);
    assert_eq!(state.stories.len(), 0);
}

#[test]
fn backend_write_then_read_returns_equal_state() {
    let mut state = DbState::new();
    state.apply_create_epic(Epic::new(String::from("epic name"), String::from("epic description")));
    state
        .apply_create_story(
            Story::new(String::from("story name"), String::from("story description")),
            1,
        )
        .unwrap();

    let mut backend = MockDB::new();
    let back = backend_round_trip(&mut backend, &state).unwrap();

    assert_eq!(back.last_item_id, state.last_item_id);
    assert_eq!(back.epics.get(1), state.epics.get(1));
    assert_eq!(back.stories.get(2), state.stories.get(2));

    // the empty aggregate round-trips as well
    let empty = DbState::new();
    let back = backend_round_trip(&mut backend, &empty).unwrap();
    assert_eq!(back.last_item_id, 0);
    assert_eq!(back.epics.len(), 0);
    assert_eq!(back.stories.len(), 0);
}

#[test]
fn create_update_delete_scenario() {
    let mut db = JiraDatabase { database: MockDB::new() };

    let e1 = db.create_epic(Epic::new(String::from("E1"), String::default())).unwrap();
    assert_eq!(e1, 1);

    let s1 = db.create_story(Story::new(String::from("S1"), String::default()), e1).unwrap();
    assert_eq!(s1, 2);

    db.update_story_status(s1, Status::Closed).unwrap();

    let state = db.read().unwrap();
    assert_eq!(state.stories.get(2).unwrap().status, Status::Closed);
    assert_eq!(state.epics.get(1).unwrap().stories, vec![2]);

    db.delete_epic(e1).unwrap();

    let state = db.read().unwrap();
    assert_eq!(state.epics.get(1), None);
    assert_eq!(state.stories.get(2), None);
    assert_eq!(state.last_item_id, 2);
}
