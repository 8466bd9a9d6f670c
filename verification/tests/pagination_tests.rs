use home4paws::cache::{CacheState, ImageCompletion, ImageOutcome};
use home4paws::dispatch::SearchCompletion;
use home4paws::errors::FetchError;
use home4paws::pagination::{Direction, PaginationController};
use home4paws::petfinder::AnimalData;

fn animal(name: &str, photo: Option<&str>) -> AnimalData {
    AnimalData {
        name: name.to_string(),
        breed: "Unknown".to_string(),
        description: "No description".to_string(),
        age: "Adult".to_string(),
        size: "Medium".to_string(),
        url: "Unknown".to_string(),
        city: "Seattle".to_string(),
        state: "WA".to_string(),
        good_with: String::new(),
        photo_url: photo.map(|s| s.to_string()),
    }
}

fn page_of(n: usize, photos: usize) -> Vec<AnimalData> {
    let mut records = Vec::new();
    for i in 0..n {
        let name = format!("pet-{}", i);
        if i < photos {
            let photo = format!("https://img/{}", i);
            records.push(animal(&name, Some(&photo)));
        } else {
            records.push(animal(&name, None));
        }
    }
    records
}

/// Drives a controller to the state where `records` form the merged window.
fn merged_controller(location: &str, records: Vec<AnimalData>) -> PaginationController {
    let mut c = PaginationController::new();
    let req = c.search(location.to_string());
    let eff = c.poll(
        Some(SearchCompletion { token: req.token, result: Ok(records) }),
        &Vec::new(),
    );
    assert!(eff.merged);
    c
}

#[test]
fn search_resets_view() {
    let mut c = PaginationController::new();
    let req = c.search("Seattle, WA".to_string());
    assert_eq!(req.query.page, 1);
    assert_eq!(req.query.location, "Seattle, WA");
    assert_eq!(c.view_page, 1);
    assert_eq!(c.side(), 0);
    assert_eq!(c.remote_page(), 1);
    assert!(c.loading);
}

#[test]
fn empty_search_falls_back_to_default_location() {
    let mut c = PaginationController::new();
    let req = c.search(String::new());
    assert_eq!(req.query.location, "San Diego, CA");
}

#[test]
fn merge_splits_page_and_requests_photos() {
    // search returns 10 records, 6 with photo identifiers: after the poll
    // that merges them, 6 decode workers are directed, one per identifier.
    let mut c = PaginationController::new();
    let req = c.search("Seattle, WA".to_string());
    let eff = c.poll(
        Some(SearchCompletion { token: req.token, result: Ok(page_of(10, 6)) }),
        &Vec::new(),
    );
    assert!(eff.merged);
    assert!(eff.error.is_none());
    assert_eq!(eff.spawns.len(), 6);
    assert_eq!(c.window.records.len(), 10);
    assert_eq!(c.visible_range(), (0, 5));
    assert!(c.loading);
}

#[test]
fn images_settle_and_loading_ends() {
    // All 6 decode completions drain in one poll:
    // the cache holds exactly 6 Ready or Failed entries, and loading is false.
    let mut c = PaginationController::new();
    let req = c.search("Seattle, WA".to_string());
    let eff = c.poll(
        Some(SearchCompletion { token: req.token, result: Ok(page_of(10, 6)) }),
        &Vec::new(),
    );
    let mut completions = Vec::new();
    for (i, s) in eff.spawns.iter().enumerate() {
        let outcome = if i % 2 == 0 { ImageOutcome::Loaded(i as u64) } else { ImageOutcome::Failed };
        completions.push(ImageCompletion { url: s.url.clone(), epoch: s.epoch, outcome });
    }
    let eff2 = c.poll(None, &completions);
    assert!(!eff2.merged);
    assert_eq!(eff2.settled.len(), 6);
    assert_eq!(c.cache.entry_count(), 6);
    for s in &eff.spawns {
        let state = c.cache.get(&s.url).expect("entry must exist");
        assert!(matches!(state, CacheState::Ready(_) | CacheState::Failed));
    }
    assert!(!c.loading);
}

#[test]
fn next_within_window_needs_no_fetch() {
    // Remote page 1 holds 10 records split 5/5; the first
    // Next flips to side 1 with no fetch, the second crosses into remote
    // page 2 with a fetch and side reset to 0.
    let mut c = merged_controller("Seattle, WA", page_of(10, 0));
    let eff = c.navigate(Direction::Next);
    assert!(eff.fetch.is_none());
    assert!(eff.scroll_to_top);
    assert_eq!(c.view_page, 2);
    assert_eq!(c.side(), 1);
    assert_eq!(c.remote_page(), 1);
    assert_eq!(c.visible_range(), (5, 10));

    let eff2 = c.navigate(Direction::Next);
    let fetch = eff2.fetch.expect("crossing the window must fetch");
    assert_eq!(fetch.query.page, 2);
    assert_eq!(fetch.query.location, "Seattle, WA");
    assert_eq!(c.view_page, 3);
    assert_eq!(c.side(), 0);
    assert_eq!(c.remote_page(), 2);
    assert!(c.loading);
}

#[test]
fn prev_at_first_page_is_noop() {
    let mut c = merged_controller("Seattle, WA", page_of(4, 0));
    let eff = c.navigate(Direction::Prev);
    assert!(eff.fetch.is_none());
    assert!(eff.scroll_to_top);
    assert_eq!(c.view_page, 1);
    assert_eq!(c.side(), 0);
}

#[test]
fn prev_across_window_fetches_previous_remote_page() {
    let mut c = merged_controller("Seattle, WA", page_of(10, 0));
    c.navigate(Direction::Next);
    c.navigate(Direction::Next); // now view page 3, remote page 2 fetching
    let eff = c.navigate(Direction::Prev); // back across the boundary
    let fetch = eff.fetch.expect("crossing back must fetch");
    assert_eq!(fetch.query.page, 1);
    assert_eq!(c.view_page, 2);
    assert_eq!(c.side(), 1);
    assert_eq!(c.remote_page(), 1);
}

#[test]
fn navigation_round_trip_restores_position() {
    // Three Next then three Prev: remote page and side are as at the start.
    let mut c = merged_controller("Seattle, WA", page_of(10, 0));
    let start_remote = c.remote_page();
    let start_side = c.side();
    for _ in 0..3 {
        c.navigate(Direction::Next);
    }
    for _ in 0..3 {
        c.navigate(Direction::Prev);
    }
    assert_eq!(c.remote_page(), start_remote);
    assert_eq!(c.side(), start_side);
    assert_eq!(c.view_page, 1);
}

#[test]
fn superseded_search_completion_is_discarded() {
    // Two searches in a row: only one search is outstanding, and the first
    // worker's late completion merges nothing.
    let mut c = PaginationController::new();
    let req1 = c.search("Seattle, WA".to_string());
    let req2 = c.search("Portland, OR".to_string());
    assert_ne!(req1.token, req2.token);
    let eff = c.poll(
        Some(SearchCompletion { token: req1.token, result: Ok(page_of(10, 0)) }),
        &Vec::new(),
    );
    assert!(!eff.merged);
    assert!(eff.error.is_none());
    assert_eq!(c.window.records.len(), 0);
    assert!(c.loading); // the second search is still outstanding

    let eff2 = c.poll(
        Some(SearchCompletion { token: req2.token, result: Ok(page_of(6, 0)) }),
        &Vec::new(),
    );
    assert!(eff2.merged);
    assert_eq!(c.window.records.len(), 6);
}

#[test]
fn transport_error_leaves_state_untouched() {
    // A transport failure on the search completion surfaces
    // the error and leaves the previous window and view state unchanged.
    let mut c = merged_controller("Seattle, WA", page_of(10, 0));
    c.navigate(Direction::Next);
    let eff = c.navigate(Direction::Next); // fetch for remote page 2
    let fetch = eff.fetch.expect("must fetch");
    let before_len = c.window.records.len();
    let before_remote_page_of_window = c.window.remote_page;
    let before_view = c.view_page;
    let eff2 = c.poll(
        Some(SearchCompletion {
            token: fetch.token,
            result: Err(FetchError::Transport("connection refused".to_string())),
        }),
        &Vec::new(),
    );
    assert!(!eff2.merged);
    assert!(matches!(eff2.error, Some(FetchError::Transport(_))));
    assert_eq!(c.window.records.len(), before_len);
    assert_eq!(c.window.remote_page, before_remote_page_of_window);
    assert_eq!(c.view_page, before_view);
    assert!(!c.loading); // nothing outstanding any more
}

#[test]
fn empty_remote_page_is_a_valid_state() {
    let c = merged_controller("Nowhere", Vec::new());
    assert_eq!(c.window.records.len(), 0);
    assert_eq!(c.visible_range(), (0, 0));
    assert!(!c.loading);
}

#[test]
fn single_record_page_keeps_it_in_first_half() {
    let mut c = merged_controller("Seattle, WA", page_of(1, 0));
    assert_eq!(c.visible_range(), (0, 1));
    let eff = c.navigate(Direction::Next);
    assert!(eff.fetch.is_none());
    assert_eq!(c.visible_range(), (1, 1)); // an empty second half shows no cards
}

#[test]
fn odd_page_keeps_extra_record_in_first_half() {
    let mut c = merged_controller("Seattle, WA", page_of(3, 0));
    assert_eq!(c.visible_range(), (0, 2));
    let eff = c.navigate(Direction::Next);
    assert!(eff.fetch.is_none());
    assert_eq!(c.visible_range(), (2, 3));
}

#[test]
fn poll_without_completions_changes_nothing() {
    let mut c = merged_controller("Seattle, WA", page_of(4, 0));
    let before_view = c.view_page;
    let eff = c.poll(None, &Vec::new());
    assert!(!eff.merged);
    assert!(eff.error.is_none());
    assert_eq!(eff.spawns.len(), 0);
    assert_eq!(eff.settled.len(), 0);
    assert_eq!(c.view_page, before_view);
    assert_eq!(c.window.records.len(), 4);
}

#[test]
fn duplicate_photo_identifiers_spawn_one_worker() {
    let mut c = PaginationController::new();
    let req = c.search("Seattle, WA".to_string());
    let records = vec![
        animal("a", Some("https://img/same")),
        animal("b", Some("https://img/same")),
        animal("c", Some("https://img/other")),
    ];
    let eff = c.poll(
        Some(SearchCompletion { token: req.token, result: Ok(records) }),
        &Vec::new(),
    );
    assert_eq!(eff.spawns.len(), 2);
    assert_eq!(eff.spawns[0].url, "https://img/same");
    assert_eq!(eff.spawns[1].url, "https://img/other");
}

#[test]
fn stale_image_completion_after_new_search_is_ignored() {
    // Images requested for the old page must never surface after the search
    // that cleared them, even when their workers complete later.
    let mut c = PaginationController::new();
    let req = c.search("Seattle, WA".to_string());
    let eff = c.poll(
        Some(SearchCompletion { token: req.token, result: Ok(page_of(2, 2)) }),
        &Vec::new(),
    );
    assert_eq!(eff.spawns.len(), 2);
    let req2 = c.search("Portland, OR".to_string());
    let stale: Vec<ImageCompletion> = eff
        .spawns
        .iter()
        .map(|s| ImageCompletion {
            url: s.url.clone(),
            epoch: s.epoch,
            outcome: ImageOutcome::Loaded(5),
        })
        .collect();
    let eff2 = c.poll(None, &stale);
    assert_eq!(eff2.settled.len(), 0);
    assert_eq!(c.cache.entry_count(), 0);
    // the second search is still outstanding; drop its token explicitly
    let _ = req2;
}
