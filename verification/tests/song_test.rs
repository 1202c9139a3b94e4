use synth::fixed::ONE;
use synth::song::Song;
use synth::song::VibratoSong;

fn small_song(overlay: bool) -> VibratoSong {
    VibratoSong::new(1000, vec![7, 0, -250_000, 250_000, ONE], overlay).unwrap()
}

#[test]
fn construction_rejects_zero_rate() {
    assert!(VibratoSong::new(0, vec![0, 0], false).is_none());
}

#[test]
fn construction_rejects_empty_buffer() {
    assert!(VibratoSong::new(44_100, vec![], false).is_none());
}

#[test]
fn construction_rejects_sample_out_of_range() {
    assert!(VibratoSong::new(44_100, vec![0, ONE + 1], false).is_none());
    assert!(VibratoSong::new(44_100, vec![-ONE - 1, 0], false).is_none());
}

#[test]
fn construction_accepts_full_scale_samples() {
    assert!(VibratoSong::new(44_100, vec![-ONE, ONE], false).is_some());
}

#[test]
fn toggle_overlay_flips_the_flag() {
    let mut song = small_song(false);
    assert!(!song.overlay);
    song.toggle_overlay();
    assert!(song.overlay);
    song.toggle_overlay();
    assert!(!song.overlay);
}

#[test]
fn amp_at_zero_mixes_square_at_eighth_volume() {
    // At time zero the integrated phase is zero and the square reads
    // ONE, mixed in at one eighth: the first sample plus 125_000.
    let song = small_song(false);
    assert_eq!(song.amp_at(0), 7 + 125_000);
}

#[test]
fn amp_at_zero_with_sine_overlay_is_the_sample() {
    // The sine reads zero at a zero phase: the first sample alone.
    let song = small_song(true);
    assert_eq!(song.amp_at(0), 7);
}

#[test]
fn amp_at_is_deterministic() {
    let song = small_song(false);
    assert_eq!(song.amp_at(123_456), song.amp_at(123_456));
    let song = small_song(true);
    assert_eq!(song.amp_at(987_654), song.amp_at(987_654));
}

#[test]
fn buffer_index_advances_with_time() {
    let song = small_song(false);
    assert_eq!(song.buffer_index(0), 0);
    assert_eq!(song.buffer_index(2_000), 2);
    assert_eq!(song.buffer_index(4_000), 4);
}

#[test]
fn buffer_index_wraps_after_one_loop() {
    // Five samples at 1000 samples per second loop every 5000
    // micro-seconds.
    let song = small_song(false);
    assert_eq!(song.buffer_index(5_000), 0);
    assert_eq!(song.buffer_index(7_000), song.buffer_index(2_000));
    assert_eq!(song.buffer_index(104_000), 4);
}

#[test]
fn buffer_index_saturates_below_zero() {
    let song = small_song(false);
    assert_eq!(song.buffer_index(-5), 0);
}

#[test]
fn frequency_rests_at_concert_pitch() {
    // At time zero the pitch curve is zero: 440 Hz, in micro-hertz.
    let song = small_song(false);
    assert_eq!(song.frequency(0, 0), 440_000_000);
}

#[test]
fn frequency_climbs_one_octave() {
    // At the curve's crest the pitch is +10 semitones; two more of
    // shift make an exact octave: 880 Hz.
    let song = small_song(false);
    assert_eq!(song.frequency(250_000, 2_000_000), 880_000_000);
}

#[test]
fn integrated_phase_starts_at_zero() {
    let song = small_song(false);
    assert_eq!(song.frequency_integr(0, 0), 0);
}
