use search6::level::{detect_level_up, is_level_up, level_of, LevelUpEvent, NOTIFY_LEVEL};
use search6::reconcile::{page_level_ups, SyncCursor, PAGE_SIZE, XP_FLOOR};
use search6::user::{Player, User};

fn player(id: &str, xp: u64) -> Player {
    Player {
        xp,
        id: id.to_string(),
        username: format!("user{id}"),
        discriminator: None,
        message_count: None,
        avatar: None,
    }
}

fn user(id: u64, xp: u64) -> User {
    User {
        xp,
        id,
        username: format!("user{id}"),
        discriminator: None,
        avatar: None,
        message_count: None,
        rank: 1,
        last_updated: None,
    }
}

#[test]
fn wrap_resets_cursor_and_drops_rest_of_page() {
    let mut cursor = SyncCursor { page: 3, rank: 42 };
    let page = cursor.next_page();
    assert_eq!(page, 3);
    let players = vec![player("1", 50000), player("2", 80)];
    let records = cursor.reconcile_page(&players, 1000);
    assert_eq!(records.len(), 1);
    assert_eq!(records[0].id, 1);
    assert_eq!(records[0].rank, 42);
    assert_eq!(records[0].last_updated, Some(1000));
    assert_eq!(cursor, SyncCursor { page: 0, rank: 1 });
}

#[test]
fn wrap_stops_before_later_entries() {
    let mut cursor = SyncCursor::new();
    let players = vec![player("5", 500), player("6", 99), player("7", 5000)];
    let records = cursor.reconcile_page(&players, 0);
    assert_eq!(records.len(), 1);
    assert_eq!(records[0].id, 5);
    assert_eq!(cursor, SyncCursor { page: 0, rank: 1 });
}

#[test]
fn ranks_follow_across_pages() {
    let mut cursor = SyncCursor::new();
    assert_eq!(cursor.next_page(), 0);
    let first = cursor.reconcile_page(&vec![player("10", 9000), player("11", 8000)], 5);
    assert_eq!(cursor, SyncCursor { page: 1, rank: 3 });
    assert_eq!(cursor.next_page(), 1);
    let second = cursor.reconcile_page(&vec![player("12", 7000), player("13", 6000)], 6);
    let ranks: Vec<i64> = first.iter().chain(second.iter()).map(|u| u.rank).collect();
    assert_eq!(ranks, vec![1, 2, 3, 4]);
    assert_eq!(cursor, SyncCursor { page: 2, rank: 5 });
}

#[test]
fn unreadable_id_is_skipped_without_a_rank() {
    let mut cursor = SyncCursor::new();
    let players = vec![player("20", 900), player("x1", 800), player("21", 700)];
    let records = cursor.reconcile_page(&players, 0);
    assert_eq!(records.iter().map(|u| (u.id, u.rank)).collect::<Vec<_>>(), vec![(20, 1), (21, 2)]);
    assert_eq!(cursor.rank, 3);
}

#[test]
fn empty_page_changes_nothing() {
    let mut cursor = SyncCursor { page: 4, rank: 9 };
    let records = cursor.reconcile_page(&Vec::new(), 0);
    assert!(records.is_empty());
    assert_eq!(cursor, SyncCursor { page: 4, rank: 9 });
}

#[test]
fn floor_entry_is_accepted() {
    let mut cursor = SyncCursor::new();
    let records = cursor.reconcile_page(&vec![player("30", XP_FLOOR)], 0);
    assert_eq!(records.len(), 1);
    assert_eq!(cursor.rank, 2);
}

#[test]
fn reconcile_now_stamps_a_time() {
    let mut cursor = SyncCursor::new();
    let records = cursor.reconcile_page_now(&vec![player("31", 1000)]);
    assert!(records[0].last_updated.unwrap() > 1_600_000_000_000);
}

#[test]
fn constants() {
    assert_eq!(PAGE_SIZE, 1000);
    assert_eq!(XP_FLOOR, 100);
    assert_eq!(NOTIFY_LEVEL, 5);
}

#[test]
fn level_curve_values() {
    assert_eq!(level_of(3255), Some(8));
    assert_eq!(level_of(900), Some(4));
    assert_eq!(level_of(1500), Some(5));
    assert_eq!(level_of(0), Some(0));
    assert_eq!(level_of(u64::MAX), None);
}

#[test]
fn level_up_threshold() {
    assert!(is_level_up(4, 5));
    assert!(is_level_up(0, 9));
    assert!(!is_level_up(5, 6));
    assert!(!is_level_up(3, 4));
}

#[test]
fn crossing_level_five_gives_one_event() {
    let prior = Some(user(7, 900));
    let fresh = user(7, 1500);
    let events = page_level_ups(&vec![fresh.clone()], &vec![prior]);
    assert_eq!(
        events,
        vec![LevelUpEvent { id: 7, user: fresh, previous_level: 4, new_level: 5 }]
    );
}

#[test]
fn first_sighting_is_silent() {
    assert_eq!(detect_level_up(&None, &user(8, 100000)), None);
    let events = page_level_ups(&vec![user(8, 100000)], &vec![None]);
    assert!(events.is_empty());
}

#[test]
fn second_pass_is_silent() {
    let fresh = user(7, 1500);
    let events = page_level_ups(&vec![fresh.clone()], &vec![Some(fresh)]);
    assert!(events.is_empty());
}

#[test]
fn prior_under_another_id_is_ignored() {
    assert_eq!(detect_level_up(&Some(user(9, 900)), &user(7, 1500)), None);
}

#[test]
fn duplicate_id_in_page_is_announced_once() {
    let records = vec![user(7, 1500), user(7, 1600)];
    let priors = vec![Some(user(7, 900)), Some(user(7, 900))];
    let events = page_level_ups(&records, &priors);
    assert_eq!(events.len(), 1);
    assert_eq!(events[0].user.xp, 1600);
}
