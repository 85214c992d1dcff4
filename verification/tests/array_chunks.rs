use fast_image_resize::array_chunks::ArrayChunks;

#[test]
fn chunks_and_remainder() {
    let mut chunks: ArrayChunks<u8, 2> = ArrayChunks::new(vec![1, 2, 3, 4, 5]);
    assert_eq!(chunks.len(), 2);
    assert_eq!(chunks.size_hint(), (2, Some(2)));
    assert_eq!(chunks.next(), Some([1, 2]));
    assert_eq!(chunks.next(), Some([3, 4]));
    assert_eq!(chunks.len(), 0);
    assert_eq!(chunks.next(), None);
    assert_eq!(chunks.next(), None);
    assert_eq!(chunks.into_remainder(), Some(vec![5]));
}

#[test]
fn exact_division_leaves_empty_remainder() {
    let mut chunks: ArrayChunks<u16, 3> = ArrayChunks::new(vec![1, 2, 3]);
    assert_eq!(chunks.next(), Some([1, 2, 3]));
    assert_eq!(chunks.next(), None);
    assert_eq!(chunks.into_remainder(), Some(vec![]));
}

#[test]
fn remainder_is_none_before_exhaustion() {
    let chunks: ArrayChunks<u8, 4> = ArrayChunks::new(vec![1, 2, 3, 4, 5, 6, 7, 8, 9]);
    assert_eq!(chunks.into_remainder(), None);
    let chunks: ArrayChunks<u8, 4> = ArrayChunks::new(vec![1, 2, 3, 4, 5, 6, 7, 8, 9]);
    assert_eq!(chunks.count(), 2);
}
