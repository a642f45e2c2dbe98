use beatmap::bpm_time_to_real;

#[test]
fn bpm_time_shuffle_example() {
    assert_eq!(bpm_time_to_real(10, 60, 1, 2), 12);
}

#[test]
fn bpm_time_disabled_is_identity() {
    assert_eq!(bpm_time_to_real(7, 0, 5, 0), 7);
    assert_eq!(bpm_time_to_real(7, 0, 0, 3), 7);
    assert_eq!(bpm_time_to_real(-9, -1, 0, 0), -9);
}

#[test]
fn bpm_time_shuffle_applies_even_without_rescale() {
    // Beat 10 lies in window 5 of period 2, an odd window, so the shuffle
    // offset applies before the (disabled) rescale.
    assert_eq!(bpm_time_to_real(10, 0, 1, 2), 12);
}

#[test]
fn bpm_time_window_index_truncates_toward_zero() {
    // -10 / 3 truncates to -3 (not -4), an odd window, so the offset
    // applies: -10 + 1 * 3 == -7.
    assert_eq!(bpm_time_to_real(-10, 0, 1, 3), -7);
    // -4 / 3 truncates to -1, odd as well.
    assert_eq!(bpm_time_to_real(-4, 0, 1, 3), -1);
    // -2 / 3 truncates to 0, even: no offset.
    assert_eq!(bpm_time_to_real(-2, 0, 1, 3), -2);
}

#[test]
fn bpm_time_rescales_by_tempo() {
    assert_eq!(bpm_time_to_real(12, 60, 0, 0), 12);
    assert_eq!(bpm_time_to_real(30, 120, 0, 0), 15);
    assert_eq!(bpm_time_to_real(-30, 120, 0, 0), -15);
}
