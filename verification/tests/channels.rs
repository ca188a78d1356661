use piano_core::channels::first_channel;

#[test]
fn first_channel_of_stereo() {
    assert_eq!(first_channel(&[1, 2, 3, 4, 5, 6], 2), vec![1, 3, 5]);
}

#[test]
fn first_channel_keeps_a_short_last_frame() {
    assert_eq!(first_channel(&[1, 2, 3, 4, 5, 6, 7], 3), vec![1, 4, 7]);
}

#[test]
fn first_channel_of_mono_is_the_data() {
    let data = [0.5f32, -0.25, 1.0];
    assert_eq!(first_channel(&data, 1), data.to_vec());
}

#[test]
fn first_channel_of_nothing() {
    let data: [i16; 0] = [];
    assert!(first_channel(&data, 4).is_empty());
}

#[test]
fn first_channel_with_fewer_samples_than_channels() {
    assert_eq!(first_channel(&[9, 8], 6), vec![9]);
}
