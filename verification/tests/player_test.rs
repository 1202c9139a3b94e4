use synth::audio_player::AudioPlayer;
use synth::fixed::ONE;
use synth::song::Song;
use synth::song::VibratoSong;

fn player_at(rate: u32) -> AudioPlayer<VibratoSong> {
    let song = VibratoSong::new(1000, vec![7, 0, -250_000, 250_000, ONE], false).unwrap();
    AudioPlayer::new(song, rate)
}

#[test]
fn construction_starts_at_time_zero() {
    let player = player_at(1000);
    assert_eq!(player.get_time(), 0);
}

#[test]
fn callback_advances_one_frame_at_a_time() {
    let mut player = player_at(1000);
    player.next_sample();
    assert_eq!(player.get_time(), 1_000);
    player.next_sample();
    player.next_sample();
    assert_eq!(player.get_time(), 3_000);
}

#[test]
fn callback_time_is_monotone() {
    let mut player = player_at(44_100);
    let mut last = player.get_time();
    for _ in 0..200 {
        player.next_sample();
        let now = player.get_time();
        assert!(now >= last);
        last = now;
    }
}

#[test]
fn callback_step_matches_sample_rate() {
    // Each advance is 1/44100 seconds: 22.67 micro-seconds, so every
    // observed step is 22 or 23 once rounded.
    let mut player = player_at(44_100);
    let mut last = player.get_time();
    for _ in 0..100 {
        player.next_sample();
        let now = player.get_time();
        let step = now - last;
        assert!(step == 22 || step == 23);
        last = now;
    }
}

#[test]
fn callback_returns_the_song_amplitude() {
    let mut player = player_at(1000);
    for _ in 0..10 {
        let amp = player.next_sample();
        assert_eq!(amp, player.song.amp_at(player.get_time()));
    }
}

#[test]
fn seeking_negative_clamps_to_zero() {
    let mut player = player_at(1000);
    player.set_time(2_000);
    player.set_time(-5_000_000);
    assert_eq!(player.get_time(), 0);
}

#[test]
fn seeking_round_trips_on_frame_boundaries() {
    let mut player = player_at(1000);
    player.set_time(2_500_000);
    assert_eq!(player.get_time(), 2_500_000);
    player.next_sample();
    assert_eq!(player.get_time(), 2_501_000);
}

#[test]
fn seeking_keeps_sub_frame_targets() {
    // The seek target is stored exactly, frame-aligned or not, and the
    // next advance steps one whole frame from it.
    let mut player = player_at(1000);
    player.set_time(500);
    assert_eq!(player.get_time(), 500);
    player.next_sample();
    assert_eq!(player.get_time(), 1_500);

    let mut player = player_at(44_100);
    player.set_time(10);
    assert_eq!(player.get_time(), 10);
    player.next_sample();
    assert_eq!(player.get_time(), 32);
}

#[test]
fn window_rejects_negative_start() {
    let player = player_at(1000);
    assert!(player.get_data(-1_000_000, 1_000_000, 100_000).is_none());
}

#[test]
fn window_rejects_end_before_start() {
    let player = player_at(1000);
    assert!(player.get_data(1_000_000, 0, 100_000).is_none());
}

#[test]
fn window_spans_both_endpoints() {
    let player = player_at(1000);
    let points = player.get_data(0, 1_000_000, 500_000).unwrap();
    assert_eq!(points.len(), 3);
    assert_eq!(points[0].0, 0);
    assert_eq!(points[1].0, 500_000);
    assert_eq!(points[2].0, 1_000_000);
    for (t, amp) in points {
        assert_eq!(amp, player.song.amp_at(t));
    }
}

#[test]
fn window_count_rounds_the_last_step_up() {
    let player = player_at(1000);
    let points = player.get_data(0, 1_000_000, 300_000).unwrap();
    assert_eq!(points.len(), 5);
    assert_eq!(points[4].0, 1_200_000);
}

#[test]
fn window_of_a_single_instant() {
    let player = player_at(1000);
    let points = player.get_data(5, 5, 1).unwrap();
    assert_eq!(points.len(), 1);
    assert_eq!(points[0].0, 5);
}

#[test]
fn window_with_step_past_the_end() {
    let player = player_at(1000);
    let points = player.get_data(0, 10, 100).unwrap();
    assert_eq!(points.len(), 2);
    assert_eq!(points[0].0, 0);
    assert_eq!(points[1].0, 100);
}
