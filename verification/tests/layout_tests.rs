use autd3_simulator::layout::TransducerLayout;

#[test]
fn layout_of_no_devices() {
    let layout = TransducerLayout::new();
    assert_eq!(layout.num_devices(), 0);
    assert_eq!(layout.len(), 0);
    assert_eq!(layout.range(0), None);
    assert_eq!(TransducerLayout::from_counts(&[]), Some(TransducerLayout::new()));
}

#[test]
fn layout_puts_devices_one_after_the_other() {
    let layout = TransducerLayout::from_counts(&[249, 249, 10]).unwrap();
    assert_eq!(layout.num_devices(), 3);
    assert_eq!(layout.len(), 508);
    assert_eq!(layout.range(0), Some((0, 249)));
    assert_eq!(layout.range(1), Some((249, 498)));
    assert_eq!(layout.range(2), Some((498, 508)));
    assert_eq!(layout.range(3), None);
    assert_eq!(layout.range(usize::MAX), None);
}

#[test]
fn layout_with_empty_devices() {
    let layout = TransducerLayout::from_counts(&[0, 3, 0, 0, 2]).unwrap();
    assert_eq!(layout.len(), 5);
    assert_eq!(layout.range(0), Some((0, 0)));
    assert_eq!(layout.range(1), Some((0, 3)));
    assert_eq!(layout.range(2), Some((3, 3)));
    assert_eq!(layout.range(3), Some((3, 3)));
    assert_eq!(layout.range(4), Some((3, 5)));
}

#[test]
fn layout_whose_total_does_not_fit_is_refused() {
    assert!(TransducerLayout::from_counts(&[usize::MAX]).is_some());
    assert!(TransducerLayout::from_counts(&[usize::MAX, 0]).is_some());
    assert!(TransducerLayout::from_counts(&[usize::MAX, 1]).is_none());
    assert!(TransducerLayout::from_counts(&[1, usize::MAX]).is_none());
    assert!(TransducerLayout::from_counts(&[usize::MAX / 2 + 1, usize::MAX / 2 + 1, 0]).is_none());
    assert!(TransducerLayout::from_counts(&[usize::MAX / 2, usize::MAX / 2, 1]).is_some());
}

#[test]
fn layout_clear_forgets_the_devices() {
    let mut layout = TransducerLayout::from_counts(&[4, 4]).unwrap();
    layout.clear();
    assert_eq!(layout, TransducerLayout::new());
    assert_eq!(layout.num_devices(), 0);
    assert_eq!(layout.len(), 0);
}
