use fogwatch::app::{App, AppState, Key, StatusCounts, StatusFilter};
use fogwatch::json::{Json, JsonNumber};
use fogwatch::types::{Outcome, TailEventMessage};

fn workers(names: &[&str]) -> Vec<String> {
    names.iter().map(|s| s.to_string()).collect()
}

fn status_event(status: Option<u64>) -> TailEventMessage {
    let event = status.map(|s| {
        Json::Object(vec![(
            "response".to_string(),
            Json::Object(vec![("status".to_string(), Json::Number(JsonNumber::PosInt(s)))]),
        )])
    });
    TailEventMessage {
        outcome: Outcome::Okay,
        script_name: None,
        exceptions: vec![],
        logs: vec![],
        event_timestamp: 0,
        event,
        status: None,
    }
}

fn viewing_app(statuses: &[Option<u64>]) -> App {
    let mut app = App::new(workers(&["w"]));
    app.select_worker();
    app.connection_finished(true);
    for s in statuses {
        app.receive_log(status_event(*s), 1000);
    }
    app
}

#[test]
fn new_app_starts_on_selection_screen() {
    let app = App::new(workers(&["a", "b"]));
    assert!(matches!(app.state, AppState::SelectingWorker(ref w) if w.len() == 2));
    assert_eq!(app.list_state.selected(), Some(0));
    assert_eq!(app.log_state.selected(), None);
    assert!(!app.should_quit && !app.show_details && !app.detail_focused);
    assert_eq!(app.detail_scroll, 0);
    assert_eq!(app.active_filter, None);
    assert_eq!(app.status_counts, StatusCounts { success: 0, client_err: 0, server_err: 0, other: 0 });
    assert_eq!(app.get_workers().len(), 2);
}

#[test]
fn worker_list_wraps_both_ways() {
    let mut app = App::new(workers(&["a", "b", "c"]));
    app.next();
    assert_eq!(app.list_state.selected(), Some(1));
    app.next();
    app.next();
    assert_eq!(app.list_state.selected(), Some(0));
    app.previous();
    assert_eq!(app.list_state.selected(), Some(2));
    app.next();
    assert_eq!(app.list_state.selected(), Some(0));
}

#[test]
fn moves_on_empty_worker_list_do_nothing() {
    let mut app = App::new(vec![]);
    app.next();
    app.previous();
    assert_eq!(app.list_state.selected(), Some(0));
    app.select_worker();
    assert!(matches!(app.state, AppState::SelectingWorker(_)));
    assert_eq!(app.selected_worker, None);
}

#[test]
fn selecting_a_worker_starts_connecting_with_all_filter() {
    let mut app = App::new(workers(&["alpha", "beta"]));
    app.next();
    app.select_worker();
    assert!(matches!(app.state, AppState::Connecting));
    assert_eq!(app.selected_worker.as_deref(), Some("beta"));
    assert_eq!(app.active_filter, Some(StatusFilter::All));
    assert_eq!(app.pending_connection().as_deref(), Some("beta"));
    assert_eq!(app.get_workers().len(), 0);
}

#[test]
fn failed_connection_offers_the_workers_again() {
    let mut app = App::new(workers(&["alpha", "beta"]));
    app.select_worker();
    assert_eq!(app.offered_workers, workers(&["alpha", "beta"]));
    app.connection_finished(false);
    assert!(matches!(app.state, AppState::SelectingWorker(ref w) if *w == workers(&["alpha", "beta"])));
    assert!(app.offered_workers.is_empty());
    assert_eq!(app.pending_connection(), None);
    app.next();
    assert_eq!(app.list_state.selected(), Some(1));
}

#[test]
fn successful_connection_shows_stream() {
    let mut app = App::new(workers(&["alpha"]));
    app.select_worker();
    app.connection_finished(true);
    assert!(matches!(app.state, AppState::Viewing));
    assert_eq!(app.pending_connection(), None);
}

#[test]
fn filters_select_status_classes() {
    let mut app = viewing_app(&[Some(200), Some(404), Some(503), Some(302), None, Some(700)]);
    assert_eq!(app.filtered_logs, vec![0, 1, 2, 3, 4, 5]);
    app.set_filter(Some(StatusFilter::Success));
    assert_eq!(app.filtered_logs, vec![0]);
    app.set_filter(Some(StatusFilter::ClientErr));
    assert_eq!(app.filtered_logs, vec![1]);
    app.set_filter(Some(StatusFilter::ServerErr));
    assert_eq!(app.filtered_logs, vec![2]);
    app.set_filter(Some(StatusFilter::Other));
    assert_eq!(app.filtered_logs, vec![3, 4, 5]);
    app.set_filter(None);
    assert_eq!(app.filtered_logs, vec![0, 1, 2, 3, 4, 5]);
}

#[test]
fn status_counts_tally_received_events() {
    let app = viewing_app(&[Some(200), Some(201), Some(404), Some(503), Some(302), None]);
    assert_eq!(app.status_counts, StatusCounts { success: 2, client_err: 1, server_err: 1, other: 1 });
    assert_eq!(app.logs.len(), 6);
}

#[test]
fn toggling_a_filter_twice_restores_it() {
    let mut app = viewing_app(&[Some(200), Some(500)]);
    app.set_filter(None);
    app.toggle_filter(StatusFilter::ServerErr);
    assert_eq!(app.active_filter, Some(StatusFilter::ServerErr));
    assert_eq!(app.filtered_logs, vec![1]);
    app.toggle_filter(StatusFilter::ServerErr);
    assert_eq!(app.active_filter, None);
    assert_eq!(app.filtered_logs, vec![0, 1]);
}

#[test]
fn toggling_another_filter_switches_to_it() {
    let mut app = viewing_app(&[Some(200), Some(500)]);
    app.toggle_filter(StatusFilter::Success);
    app.toggle_filter(StatusFilter::ServerErr);
    assert_eq!(app.active_filter, Some(StatusFilter::ServerErr));
    assert_eq!(app.filtered_logs, vec![1]);
}

#[test]
fn highlight_past_filtered_list_returns_to_first_row() {
    let mut app = viewing_app(&[Some(200), Some(404), Some(404), Some(404)]);
    app.log_state.select(Some(3));
    app.set_filter(Some(StatusFilter::Success));
    assert_eq!(app.log_state.selected(), Some(0));
    app.log_state.select(Some(2));
    app.set_filter(Some(StatusFilter::All));
    assert_eq!(app.log_state.selected(), Some(2));
}

#[test]
fn log_list_moves_wrap_and_reset_scroll() {
    let mut app = viewing_app(&[Some(200), Some(200), Some(200)]);
    app.detail_scroll = 7;
    app.next_log();
    assert_eq!(app.log_state.selected(), Some(0));
    assert_eq!(app.detail_scroll, 0);
    app.previous_log();
    assert_eq!(app.log_state.selected(), Some(2));
    app.next_log();
    assert_eq!(app.log_state.selected(), Some(0));
}

#[test]
fn log_moves_without_events_do_nothing() {
    let mut app = viewing_app(&[]);
    app.detail_scroll = 4;
    app.next_log();
    app.previous_log();
    assert_eq!(app.log_state.selected(), None);
    assert_eq!(app.detail_scroll, 4);
}

#[test]
fn detail_pane_focus_follows_its_visibility() {
    let mut app = viewing_app(&[Some(200)]);
    app.focus_details();
    assert!(!app.detail_focused);
    app.toggle_details();
    app.focus_details();
    assert!(app.show_details && app.detail_focused);
    app.toggle_details();
    assert!(!app.show_details && !app.detail_focused);
    app.toggle_details();
    assert!(app.show_details && !app.detail_focused);
    app.focus_details();
    app.focus_logs();
    assert!(!app.detail_focused);
}

#[test]
fn scrolling_saturates_at_both_ends() {
    let mut app = viewing_app(&[]);
    app.scroll_details_up();
    assert_eq!(app.detail_scroll, 0);
    app.scroll_details_page_down();
    app.scroll_details_down();
    assert_eq!(app.detail_scroll, 11);
    app.scroll_details_page_up();
    assert_eq!(app.detail_scroll, 1);
    app.scroll_details_page_up();
    assert_eq!(app.detail_scroll, 0);
    app.detail_scroll = u16::MAX - 3;
    app.scroll_details_page_down();
    assert_eq!(app.detail_scroll, u16::MAX);
    app.scroll_details_down();
    assert_eq!(app.detail_scroll, u16::MAX);
}

#[test]
fn scroll_down_then_up_returns() {
    let mut app = viewing_app(&[]);
    app.detail_scroll = 5;
    app.scroll_details_down();
    app.scroll_details_up();
    assert_eq!(app.detail_scroll, 5);
    app.scroll_details_page_down();
    app.scroll_details_page_up();
    assert_eq!(app.detail_scroll, 5);
}

#[test]
fn keys_drive_the_selection_screen() {
    let mut app = App::new(workers(&["a", "b"]));
    app.handle_key(Key::Down);
    assert_eq!(app.list_state.selected(), Some(1));
    app.handle_key(Key::Char('k'));
    assert_eq!(app.list_state.selected(), Some(0));
    app.handle_key(Key::Char('j'));
    app.handle_key(Key::Enter);
    assert!(matches!(app.state, AppState::Connecting));
    assert_eq!(app.selected_worker.as_deref(), Some("b"));
}

#[test]
fn keys_drive_the_stream_screen() {
    let mut app = viewing_app(&[Some(200), Some(404)]);
    app.handle_key(Key::Char('4'));
    assert_eq!(app.active_filter, Some(StatusFilter::ClientErr));
    app.handle_key(Key::Char('4'));
    assert_eq!(app.active_filter, None);
    app.handle_key(Key::Char('2'));
    assert_eq!(app.active_filter, Some(StatusFilter::Success));
    app.handle_key(Key::Char('a'));
    assert_eq!(app.active_filter, None);
    app.handle_key(Key::Char('5'));
    assert_eq!(app.active_filter, Some(StatusFilter::ServerErr));
    app.handle_key(Key::Char('0'));
    assert_eq!(app.active_filter, Some(StatusFilter::Other));
    assert!(app.filtered_logs.is_empty());
    app.handle_key(Key::Down);
    assert_eq!(app.log_state.selected(), None);
    app.handle_key(Key::Char('a'));
    app.handle_key(Key::Down);
    assert_eq!(app.log_state.selected(), Some(0));
    app.handle_key(Key::Enter);
    assert!(app.show_details);
    app.handle_key(Key::Right);
    assert!(app.detail_focused);
    app.handle_key(Key::Down);
    app.handle_key(Key::PageDown);
    assert_eq!(app.detail_scroll, 11);
    app.handle_key(Key::Char('u'));
    app.handle_key(Key::Up);
    assert_eq!(app.detail_scroll, 0);
    app.handle_key(Key::Char('h'));
    assert!(!app.detail_focused);
    app.handle_key(Key::Up);
    assert_eq!(app.log_state.selected(), Some(1));
    app.handle_key(Key::Other);
    app.handle_key(Key::Char('x'));
    assert!(!app.should_quit);
    app.handle_key(Key::Char('q'));
    assert!(app.should_quit);
}

#[test]
fn page_keys_need_a_focused_detail_pane() {
    let mut app = viewing_app(&[Some(200)]);
    app.handle_key(Key::PageDown);
    app.handle_key(Key::Char('d'));
    assert_eq!(app.detail_scroll, 0);
    app.handle_key(Key::Left);
    app.handle_key(Key::Char('l'));
    assert!(!app.detail_focused);
}

#[test]
fn workers_of_each_screen() {
    assert_eq!(AppState::SelectingWorker(workers(&["x"])).get_workers().len(), 1);
    assert!(AppState::Connecting.get_workers().is_empty());
    assert!(AppState::Viewing.get_workers().is_empty());
}

#[test]
fn reapplying_the_filter_changes_nothing() {
    let mut app = viewing_app(&[Some(200), Some(404), Some(200)]);
    app.set_filter(Some(StatusFilter::Success));
    app.log_state.select(Some(1));
    app.apply_filter();
    let first = (app.filtered_logs.clone(), app.log_state.selected());
    app.apply_filter();
    assert_eq!((app.filtered_logs.clone(), app.log_state.selected()), first);
    assert_eq!(first, (vec![0, 2], Some(1)));
}

#[test]
fn tab_and_home_work_in_the_detail_pane() {
    let mut app = viewing_app(&[Some(200)]);
    app.handle_key(Key::Tab);
    assert!(!app.detail_focused);
    app.handle_key(Key::Enter);
    app.handle_key(Key::Tab);
    assert!(app.detail_focused);
    app.handle_key(Key::PageDown);
    app.handle_key(Key::Home);
    assert_eq!(app.detail_scroll, 0);
    app.handle_key(Key::Tab);
    assert!(!app.detail_focused);
    app.handle_key(Key::PageDown);
    assert_eq!(app.detail_scroll, 0);
}

#[test]
fn log_moves_stay_in_the_shown_list() {
    let mut app = viewing_app(&[Some(200), Some(404), Some(200)]);
    app.set_filter(Some(StatusFilter::Success));
    assert_eq!(app.filtered_logs, vec![0, 2]);
    app.log_state.select(Some(1));
    app.next_log();
    assert_eq!(app.log_state.selected(), Some(0));
    app.previous_log();
    assert_eq!(app.log_state.selected(), Some(1));
}

#[test]
fn log_store_keeps_the_newest_entries() {
    let mut app = viewing_app(&[]);
    for s in [200u64, 404, 500, 201] {
        app.receive_log(status_event(Some(s)), 3);
    }
    assert_eq!(app.logs.len(), 3);
    assert_eq!(app.filtered_logs, vec![0, 1, 2]);
    let first = fogwatch::json::event_response_status(app.logs[0].event.as_ref().unwrap());
    assert_eq!(first, Some(404));
    assert_eq!(app.status_counts, StatusCounts { success: 2, client_err: 1, server_err: 1, other: 0 });
    app.receive_log(status_event(None), 0);
    assert!(app.logs.is_empty());
}

#[test]
fn counters_match_filtered_list_lengths() {
    let mut app = viewing_app(&[Some(200), Some(204), Some(404), Some(503), Some(302), None]);
    app.set_filter(Some(StatusFilter::Success));
    assert_eq!(app.filtered_logs.len(), app.status_counts.success);
    app.set_filter(Some(StatusFilter::ClientErr));
    assert_eq!(app.filtered_logs.len(), app.status_counts.client_err);
    app.set_filter(Some(StatusFilter::ServerErr));
    assert_eq!(app.filtered_logs.len(), app.status_counts.server_err);
    app.set_filter(Some(StatusFilter::Other));
    assert_eq!(app.filtered_logs.len(), app.status_counts.other + 1);
}
