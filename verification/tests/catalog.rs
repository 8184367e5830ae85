use tune::app::{App, SortMode};
use tune::player::PlaybackState;
use tune::state::AppState;
use tune::track::{sort_catalog, Track, TrackOrder};

fn track(path: &str, title: &str, artist: &str) -> Track {
    Track {
        path: path.to_string(),
        title: title.to_string(),
        artist: artist.to_string(),
        duration: 60,
        lyrics: None,
    }
}

#[test]
fn sort_by_path_orders_filenames() {
    let mut v = vec![
        track("c.mp3", "t", "a"),
        track("a.mp3", "t", "a"),
        track("b.mp3", "t", "a"),
    ];
    sort_catalog(&mut v, TrackOrder::Path);
    let paths: Vec<&str> = v.iter().map(|t| t.path.as_str()).collect();
    assert_eq!(paths, vec!["a.mp3", "b.mp3", "c.mp3"]);
}

#[test]
fn sort_by_title_is_case_insensitive() {
    let mut v = vec![track("1", "Banana", "x"), track("2", "apple", "x")];
    sort_catalog(&mut v, TrackOrder::Title);
    let titles: Vec<&str> = v.iter().map(|t| t.title.as_str()).collect();
    assert_eq!(titles, vec!["apple", "Banana"]);
}

#[test]
fn sort_by_artist_then_title_breaks_ties() {
    let mut v = vec![
        track("1", "Zed", "beta"),
        track("2", "Alpha", "beta"),
        track("3", "Mid", "Alpha"),
    ];
    sort_catalog(&mut v, TrackOrder::ArtistTitle);
    let paths: Vec<&str> = v.iter().map(|t| t.path.as_str()).collect();
    assert_eq!(paths, vec!["3", "2", "1"]);
}

#[test]
fn sorting_keeps_playing_track_identity() {
    let tracks = vec![
        track("z.mp3", "zulu", "a"),
        track("m.mp3", "mike", "a"),
        track("a.mp3", "alfa", "a"),
    ];
    let mut app = App::new(tracks, AppState::default());
    app.playing_index = Some(0);
    app.queue_index = Some(0);
    app.player.state = PlaybackState::Playing;
    app.sort_tracks();
    let playing = app.playing_index.expect("playing track must survive the sort");
    assert_eq!(app.tracks[playing].path, "z.mp3");
    assert_eq!(playing, 2);
    assert_eq!(app.queue_index, Some(2));
    assert_eq!(app.player.state, PlaybackState::Playing);
    let paths: Vec<&str> = app.tracks.iter().map(|t| t.path.as_str()).collect();
    assert_eq!(paths, vec!["a.mp3", "m.mp3", "z.mp3"]);
}

#[test]
fn sorting_under_shuffle_rebuilds_a_permutation() {
    let tracks = vec![
        track("b.mp3", "b", "a"),
        track("a.mp3", "a", "a"),
        track("c.mp3", "c", "a"),
    ];
    let mut app = App::new(tracks, AppState::default());
    app.shuffle = true;
    app.playing_index = Some(1);
    app.queue_index = Some(1);
    app.sort_tracks();
    let mut q = app.queue.clone();
    q.sort();
    assert_eq!(q, vec![0, 1, 2]);
    let playing = app.playing_index.expect("playing survives");
    assert_eq!(app.tracks[playing].path, "a.mp3");
    let cursor = app.queue_index.expect("cursor follows playing");
    assert_eq!(app.queue[cursor], playing);
}

#[test]
fn cycle_sort_mode_sorts_by_title() {
    let tracks = vec![track("1", "bb", "x"), track("2", "AA", "x")];
    let mut app = App::new(tracks, AppState::default());
    app.cycle_sort_mode();
    assert_eq!(app.sort_mode, SortMode::Title);
    let titles: Vec<&str> = app.tracks.iter().map(|t| t.title.as_str()).collect();
    assert_eq!(titles, vec!["AA", "bb"]);
}

#[test]
fn display_name_formats_artist_and_title() {
    let t = track("p", "Title", "Artist");
    assert_eq!(t.display_name(), "Artist - Title");
    let u = track("p", "Title", "Unknown Artist");
    assert_eq!(u.display_name(), "Title");
}
