use tune::app::{App, CompletionAction, PauseAction, PreviousAction, RepeatMode, SortMode};
use tune::player::{PlaybackState, Player};
use tune::state::AppState;
use tune::track::Track;

fn track(path: &str, title: &str, artist: &str) -> Track {
    Track {
        path: path.to_string(),
        title: title.to_string(),
        artist: artist.to_string(),
        duration: 180,
        lyrics: None,
    }
}

fn catalog(n: usize) -> Vec<Track> {
    (0..n)
        .map(|i| track(&format!("{:02}.mp3", i), &format!("Song {}", i), "Artist"))
        .collect()
}

fn fresh_app(n: usize) -> App {
    App::new(catalog(n), AppState::default())
}

fn sorted_copy(q: &Vec<usize>) -> Vec<usize> {
    let mut c = q.clone();
    c.sort();
    c
}

#[test]
fn new_app_defaults() {
    let app = fresh_app(3);
    assert!(app.running);
    assert_eq!(app.repeat_mode, RepeatMode::Off);
    assert_eq!(app.sort_mode, SortMode::Filename);
    assert!(!app.shuffle);
    assert_eq!(app.player.state, PlaybackState::Stopped);
    assert_eq!(app.player.volume, 10);
    assert_eq!(app.queue, vec![0, 1, 2]);
    assert_eq!(app.queue_index, None);
    assert_eq!(app.playing_index, None);
    assert_eq!(app.list_selected, Some(0));
}

#[test]
fn new_app_empty_catalog() {
    let app = fresh_app(0);
    assert_eq!(app.list_selected, None);
    assert_eq!(app.playing_index, None);
    assert!(app.queue.is_empty());
}

#[test]
fn new_app_restores_last_track() {
    let mut state = AppState::default();
    state.last_track_path = Some("01.mp3".to_string());
    let app = App::new(catalog(3), state);
    assert_eq!(app.list_selected, Some(1));
    assert_eq!(app.playing_index, Some(1));
    assert_eq!(app.queue_index, Some(1));
}

#[test]
fn queue_is_permutation_after_shuffle_toggles() {
    let mut app = fresh_app(7);
    for _ in 0..4 {
        app.toggle_shuffle();
        assert_eq!(sorted_copy(&app.queue), (0..7).collect::<Vec<usize>>());
    }
}

#[test]
fn queue_is_permutation_after_sort() {
    let mut app = fresh_app(5);
    app.toggle_shuffle();
    app.sort_tracks();
    assert_eq!(sorted_copy(&app.queue), (0..5).collect::<Vec<usize>>());
}

#[test]
fn shuffle_round_trip_restores_identity() {
    let mut app = fresh_app(6);
    app.playing_index = Some(4);
    app.queue_index = Some(4);
    app.toggle_shuffle();
    app.toggle_shuffle();
    assert!(!app.shuffle);
    assert_eq!(app.queue, (0..6).collect::<Vec<usize>>());
    assert_eq!(app.queue_index, Some(4));
}

#[test]
fn repeat_one_completion_keeps_track() {
    let mut app = fresh_app(3);
    app.repeat_mode = RepeatMode::One;
    app.playing_index = Some(1);
    app.queue_index = Some(1);
    app.player.state = PlaybackState::Playing;
    app.player.current_track = Some("Song 1".to_string());
    let action = app.check_playback(true);
    assert_eq!(action, CompletionAction::RestartCurrent);
    assert_eq!(app.player.state, PlaybackState::Playing);
    assert_eq!(app.playing_index, Some(1));
    assert_eq!(app.player.current_track, Some("Song 1".to_string()));
}

#[test]
fn repeat_all_completion_wraps_cursor() {
    let mut app = fresh_app(3);
    app.repeat_mode = RepeatMode::All;
    app.playing_index = Some(2);
    app.queue_index = Some(2);
    app.player.state = PlaybackState::Playing;
    let action = app.check_playback(true);
    assert_eq!(app.queue_index, Some(0));
    assert_eq!(action, CompletionAction::LoadTrack(0));
}

#[test]
fn repeat_off_completion_at_last_track_stops() {
    let mut app = fresh_app(3);
    app.playing_index = Some(2);
    app.queue_index = Some(2);
    app.player.state = PlaybackState::Playing;
    let action = app.check_playback(true);
    assert_eq!(action, CompletionAction::Idle);
    assert_eq!(app.player.state, PlaybackState::Stopped);
    assert_eq!(app.playing_index, None);
}

#[test]
fn completion_check_ignores_nonempty_sink() {
    let mut app = fresh_app(3);
    app.playing_index = Some(2);
    app.queue_index = Some(2);
    app.player.state = PlaybackState::Playing;
    let action = app.check_playback(false);
    assert_eq!(action, CompletionAction::Idle);
    assert_eq!(app.player.state, PlaybackState::Playing);
    assert_eq!(app.playing_index, Some(2));
}

#[test]
fn end_to_end_repeat_all_last_track_advances_to_first() {
    let mut app = fresh_app(3);
    app.repeat_mode = RepeatMode::All;
    app.playing_index = Some(2);
    app.queue_index = Some(2);
    app.player.state = PlaybackState::Playing;
    let action = app.check_playback(true);
    let target = match action {
        CompletionAction::LoadTrack(i) => i,
        other => panic!("expected a load request, got {:?}", other),
    };
    assert_eq!(target, 0);
    app.play_selected(Ok(()), 0);
    assert_eq!(app.playing_index, Some(0));
    assert_eq!(app.player.state, PlaybackState::Playing);
}

#[test]
fn end_to_end_enabling_shuffle_keeps_playing_track() {
    let mut app = fresh_app(5);
    app.playing_index = Some(3);
    app.queue_index = Some(3);
    app.player.state = PlaybackState::Playing;
    app.player.current_track = Some("Song 3".to_string());
    app.toggle_shuffle();
    assert!(app.shuffle);
    assert_eq!(app.player.state, PlaybackState::Playing);
    assert_eq!(app.player.current_track, Some("Song 3".to_string()));
    assert_eq!(app.playing_index, Some(3));
    let q = app.queue_index.expect("cursor must follow the playing track");
    assert_eq!(app.queue[q], 3);
}

#[test]
fn volume_quantization_and_clamping() {
    let mut p = Player::new();
    p.set_volume((0.34f32 * 10.0).round() as i32);
    assert_eq!(p.volume, 3);
    p.set_volume((1.7f32 * 10.0).round() as i32);
    assert_eq!(p.volume, 10);
    p.set_volume((-0.2f32 * 10.0).round() as i32);
    assert_eq!(p.volume, 0);
}

#[test]
fn volume_steps() {
    let mut p = Player::new();
    p.set_volume(5);
    p.increase_volume();
    assert_eq!(p.volume, 6);
    for _ in 0..10 {
        p.increase_volume();
    }
    assert_eq!(p.volume, 10);
    for _ in 0..15 {
        p.decrease_volume();
    }
    assert_eq!(p.volume, 0);
}

#[test]
fn mute_round_trip_restores_volume() {
    let mut p = Player::new();
    p.set_volume(7);
    p.toggle_mute();
    assert!(p.muted);
    assert_eq!(p.volume, 0);
    p.toggle_mute();
    assert!(!p.muted);
    assert_eq!(p.volume, 7);
}

#[test]
fn seek_backward_floors_at_zero() {
    let app = fresh_app(1);
    assert_eq!(app.seek_by(50, -100), 0);
    assert_eq!(app.seek_by(50, -50), 0);
    assert_eq!(app.seek_by(50, -49), 1);
    assert_eq!(app.seek_by(50, 5), 55);
    assert_eq!(app.seek_forward(10), 15);
    assert_eq!(app.seek_backward(3), 0);
}

#[test]
fn seek_percentage_uses_playing_track_duration() {
    let mut app = fresh_app(2);
    assert_eq!(app.seek_percentage(50), None);
    app.playing_index = Some(1);
    assert_eq!(app.seek_percentage(50), Some(90));
    assert_eq!(app.seek_percentage(0), Some(0));
    assert_eq!(app.seek_percentage(100), Some(180));
}

#[test]
fn player_state_machine_transitions() {
    let mut p = Player::new();
    assert!(!p.is_finished(true));
    p.play("Song");
    assert_eq!(p.state, PlaybackState::Playing);
    assert_eq!(p.current_track, Some("Song".to_string()));
    assert!(p.is_finished(true));
    assert!(!p.is_finished(false));
    p.toggle_pause();
    assert_eq!(p.state, PlaybackState::Paused);
    p.toggle_pause();
    assert_eq!(p.state, PlaybackState::Playing);
    p.stop();
    assert_eq!(p.state, PlaybackState::Stopped);
    assert_eq!(p.current_track, None);
}

#[test]
fn selection_moves_and_stops_at_edges() {
    let mut app = fresh_app(3);
    assert_eq!(app.selected(), 0);
    app.select_previous();
    assert_eq!(app.selected(), 0);
    app.select_next();
    app.select_next();
    assert_eq!(app.selected(), 2);
    app.select_next();
    assert_eq!(app.selected(), 2);
    app.select_previous();
    assert_eq!(app.selected(), 1);
}

#[test]
fn play_selected_success_updates_cursor_and_player() {
    let mut app = fresh_app(3);
    app.list_selected = Some(2);
    app.play_selected(Ok(()), 0);
    assert_eq!(app.playing_index, Some(2));
    assert_eq!(app.queue_index, Some(2));
    assert_eq!(app.player.state, PlaybackState::Playing);
    assert_eq!(app.player.current_track, Some("Song 2".to_string()));
}

#[test]
fn play_selected_failure_only_posts_status() {
    let mut app = fresh_app(3);
    app.list_selected = Some(1);
    app.play_selected(Err("decode failed".to_string()), 42);
    assert_eq!(app.playing_index, None);
    assert_eq!(app.player.state, PlaybackState::Stopped);
    let (text, at) = app.status_message.clone().expect("a status message");
    assert_eq!(text, "Error: decode failed");
    assert_eq!(at, 42);
}

#[test]
fn play_selected_failure_stops_current_playback() {
    let mut app = fresh_app(3);
    app.list_selected = Some(0);
    app.play_selected(Ok(()), 0);
    assert_eq!(app.player.state, PlaybackState::Playing);
    app.list_selected = Some(1);
    app.play_selected(Err("unreadable".to_string()), 7);
    assert_eq!(app.player.state, PlaybackState::Stopped);
    assert_eq!(app.player.current_track, None);
    assert_eq!(app.playing_index, Some(0));
    let (text, _) = app.status_message.clone().expect("a status message");
    assert_eq!(text, "Error: unreadable");
}

#[test]
fn queue_exhausted_under_shuffle_stops_playback() {
    let mut app = fresh_app(3);
    app.shuffle = true;
    app.playing_index = Some(0);
    app.queue_index = Some(2);
    app.player.state = PlaybackState::Playing;
    let action = app.check_playback(true);
    assert_eq!(action, CompletionAction::Idle);
    assert_eq!(app.player.state, PlaybackState::Stopped);
    assert_eq!(app.playing_index, None);
}

#[test]
fn play_next_stops_at_queue_end_without_repeat() {
    let mut app = fresh_app(2);
    app.queue_index = Some(1);
    assert_eq!(app.play_next(), None);
    assert_eq!(app.queue_index, Some(1));
}

#[test]
fn play_next_wraps_under_repeat_all() {
    let mut app = fresh_app(2);
    app.repeat_mode = RepeatMode::All;
    app.queue_index = Some(1);
    assert_eq!(app.play_next(), Some(0));
    assert_eq!(app.queue_index, Some(0));
}

#[test]
fn play_previous_restarts_when_far_in() {
    let mut app = fresh_app(3);
    app.queue_index = Some(1);
    assert_eq!(app.play_previous_track(4), PreviousAction::RestartCurrent);
    assert_eq!(app.queue_index, Some(1));
}

#[test]
fn play_previous_wraps_at_front() {
    let mut app = fresh_app(3);
    app.queue_index = Some(0);
    assert_eq!(app.play_previous_track(1), PreviousAction::LoadTrack(2));
    assert_eq!(app.queue_index, Some(2));
}

#[test]
fn toggle_pause_from_stopped_requests_start() {
    let mut app = fresh_app(3);
    assert_eq!(app.toggle_pause(), PauseAction::StartSelected);
    app.player.state = PlaybackState::Playing;
    assert_eq!(app.toggle_pause(), PauseAction::PauseSink);
    assert_eq!(app.player.state, PlaybackState::Paused);
    assert_eq!(app.toggle_pause(), PauseAction::ResumeSink);
    assert_eq!(app.player.state, PlaybackState::Playing);
}

#[test]
fn toggle_pause_random_pick_stays_in_range() {
    let mut app = fresh_app(5);
    app.shuffle = true;
    assert_eq!(app.toggle_pause(), PauseAction::StartSelected);
    assert!(app.selected() < 5);
}

#[test]
fn repeat_and_sort_modes_cycle() {
    let mut app = fresh_app(1);
    app.check_repeat_mode();
    assert_eq!(app.repeat_mode, RepeatMode::All);
    app.check_repeat_mode();
    assert_eq!(app.repeat_mode, RepeatMode::One);
    app.check_repeat_mode();
    assert_eq!(app.repeat_mode, RepeatMode::Off);
    app.cycle_sort_mode();
    assert_eq!(app.sort_mode, SortMode::Title);
    app.cycle_sort_mode();
    assert_eq!(app.sort_mode, SortMode::Artist);
    app.cycle_sort_mode();
    assert_eq!(app.sort_mode, SortMode::Filename);
}

#[test]
fn status_message_expires_after_three_seconds() {
    let mut app = fresh_app(1);
    app.set_status("hello".to_string(), 1000);
    app.check_status_message(4999);
    assert!(app.status_message.is_some());
    app.check_status_message(5001);
    assert!(app.status_message.is_none());
}

#[test]
fn help_and_lyrics_panes_exclude_each_other() {
    let mut app = fresh_app(1);
    app.toggle_lyrics();
    assert!(app.show_lyrics);
    app.toggle_help();
    assert!(app.show_help);
    assert!(!app.show_lyrics);
    app.toggle_lyrics();
    assert!(app.show_lyrics);
    assert!(!app.show_help);
}

#[test]
fn next_track_index_peeks_queue() {
    let mut app = fresh_app(3);
    assert_eq!(app.next_track_index(), None);
    app.queue_index = Some(0);
    assert_eq!(app.next_track_index(), Some(1));
    app.queue_index = Some(2);
    assert_eq!(app.next_track_index(), None);
    app.repeat_mode = RepeatMode::All;
    assert_eq!(app.next_track_index(), Some(0));
}

#[test]
fn quit_returns_session_state() {
    let mut app = fresh_app(3);
    app.playing_index = Some(2);
    app.queue_index = Some(2);
    app.player.state = PlaybackState::Playing;
    app.player.set_volume(6);
    app.shuffle = false;
    app.repeat_mode = RepeatMode::All;
    let st = app.quit();
    assert!(!app.running);
    assert_eq!(app.player.state, PlaybackState::Stopped);
    assert_eq!(st.volume, 6);
    assert_eq!(st.repeat_mode, RepeatMode::All);
    assert_eq!(st.last_track_path, Some("02.mp3".to_string()));
}

#[test]
fn stop_clears_playing_identity() {
    let mut app = fresh_app(3);
    app.playing_index = Some(1);
    app.player.state = PlaybackState::Playing;
    app.stop();
    assert_eq!(app.playing_index, None);
    assert_eq!(app.player.state, PlaybackState::Stopped);
}

#[test]
fn app_state_defaults() {
    let st = AppState::default();
    assert_eq!(st.volume, 10);
    assert!(!st.shuffle);
    assert_eq!(st.repeat_mode, RepeatMode::Off);
    assert_eq!(st.sort_mode, SortMode::Filename);
    assert_eq!(st.last_track_path, None);
}

#[test]
fn config_override_wins() {
    let c = tune::config::Config::new(Some("/srv/music".to_string()));
    assert_eq!(c.music_dir, "/srv/music");
}

#[test]
fn default_impls_match_documented_defaults() {
    assert_eq!(RepeatMode::default(), RepeatMode::Off);
    assert_eq!(SortMode::default(), SortMode::Filename);
    let p = Player::default();
    assert_eq!(p.state, PlaybackState::Stopped);
    assert_eq!(p.volume, 10);
    assert!(!p.muted);
}

#[test]
fn new_app_restores_shuffled_session() {
    let mut state = AppState::default();
    state.shuffle = true;
    state.last_track_path = Some("02.mp3".to_string());
    let app = App::new(catalog(4), state);
    assert!(app.shuffle);
    assert_eq!(sorted_copy(&app.queue), (0..4).collect::<Vec<usize>>());
    assert_eq!(app.playing_index, Some(2));
    let q = app.queue_index.expect("cursor must point at the remembered track");
    assert_eq!(app.queue[q], 2);
}

#[test]
fn new_app_with_unknown_last_track_selects_first() {
    let mut state = AppState::default();
    state.last_track_path = Some("missing.mp3".to_string());
    let app = App::new(catalog(3), state);
    assert_eq!(app.list_selected, Some(0));
    assert_eq!(app.playing_index, None);
    assert_eq!(app.queue_index, None);
}
