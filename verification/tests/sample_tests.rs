use actor_system::sample::{
    copy_batch, merge, silent_batch, StereoSample, FULL_SCALE, MAX_BATCH,
};

fn s(left: i32, right: i32) -> StereoSample {
    StereoSample { left, right }
}

#[test]
fn silence_is_zero_on_both_channels() {
    assert_eq!(StereoSample::silence(), s(0, 0));
    assert!(StereoSample::silence().is_silent());
    assert!(!s(0, 1).is_silent());
    assert!(!s(-1, 0).is_silent());
}

#[test]
fn batch_bound_is_sixty_four() {
    assert_eq!(MAX_BATCH, 64);
    assert_eq!(FULL_SCALE, 65536);
}

#[test]
fn plus_adds_channel_by_channel() {
    assert_eq!(s(100, -200).plus(s(5, 7)), s(105, -193));
}

#[test]
fn plus_saturates_at_both_ends() {
    assert_eq!(s(i32::MAX, i32::MIN).plus(s(1, -1)), s(i32::MAX, i32::MIN));
    assert_eq!(s(i32::MAX - 1, i32::MIN + 1).plus(s(1, -1)), s(i32::MAX, i32::MIN));
    assert_eq!(s(i32::MAX, i32::MIN).plus(s(-1, 1)), s(i32::MAX - 1, i32::MIN + 1));
}

#[test]
fn scaled_rounds_toward_zero() {
    // 7 * 1 / 2 = 3.5, -7 * 1 / 2 = -3.5
    assert_eq!(s(7, -7).scaled(1, 2), s(3, -3));
    // 100 * 1 / 3 = 33.33, -100 * 2 / 3 = -66.67
    assert_eq!(s(100, 100).scaled(1, 3), s(33, 33));
    assert_eq!(s(-100, -100).scaled(2, 3), s(-66, -66));
}

#[test]
fn scaled_by_one_is_identity_and_by_zero_is_silence() {
    assert_eq!(s(i32::MAX, i32::MIN).scaled(65535, 65535), s(i32::MAX, i32::MIN));
    assert_eq!(s(i32::MAX, i32::MIN).scaled(0, 65535), s(0, 0));
}

#[test]
fn inverted_negates_and_saturates() {
    assert_eq!(s(5, -9).inverted(), s(-5, 9));
    assert_eq!(s(i32::MIN, i32::MAX).inverted(), s(i32::MAX, -i32::MAX));
    assert_eq!(s(0, 0).inverted(), s(0, 0));
}

#[test]
fn silent_batch_has_the_length_asked_for() {
    assert_eq!(silent_batch(0), Vec::<StereoSample>::new());
    assert_eq!(silent_batch(3), vec![s(0, 0); 3]);
    assert_eq!(silent_batch(64).len(), 64);
}

#[test]
fn copy_batch_copies() {
    let batch = vec![s(1, 2), s(3, 4)];
    assert_eq!(copy_batch(&batch), batch);
}

#[test]
fn merge_adds_frame_by_frame() {
    let mut dest = vec![s(1, 1), s(2, 2), s(3, 3)];
    merge(&mut dest, &vec![s(10, 20), s(30, 40), s(50, 60)]);
    assert_eq!(dest, vec![s(11, 21), s(32, 42), s(53, 63)]);
}

#[test]
fn merge_order_does_not_matter_within_range() {
    let first = vec![s(10, -20), s(30, 40)];
    let second = vec![s(-5, 7), s(1000, -1000)];
    let mut one = vec![s(1, 1), s(2, 2)];
    merge(&mut one, &first);
    merge(&mut one, &second);
    let mut other = vec![s(1, 1), s(2, 2)];
    merge(&mut other, &second);
    merge(&mut other, &first);
    assert_eq!(one, other);
    assert_eq!(one, vec![s(6, -12), s(1032, -958)]);
}
