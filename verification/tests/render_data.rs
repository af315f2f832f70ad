use cyclone::render::{WindowInfo, group_triples};

#[test]
fn window_info_carries_plain_data() {
    let info = WindowInfo { title: "cyclone", screen_size: (1280, 720) };
    assert_eq!(info.title, "cyclone");
    assert_eq!(info.screen_size, (1280, 720));
}

#[test]
fn grouping_a_flat_attribute_array() {
    let flat: Vec<u32> = vec![0, 1, 2, 3, 4, 5, 6, 7, 8];
    let grouped = group_triples(&flat);
    assert_eq!(grouped, vec![(0, 1, 2), (3, 4, 5), (6, 7, 8)]);
}

#[test]
fn grouping_drops_a_trailing_partial_triple() {
    let flat: Vec<u32> = vec![0, 1, 2, 3, 4, 5, 6, 7, 8, 9];
    let grouped = group_triples(&flat);
    assert_eq!(grouped.len(), 3);
    assert_eq!(grouped[2], (6, 7, 8));
}

#[test]
fn grouping_an_empty_array() {
    let flat: Vec<u32> = Vec::new();
    assert_eq!(group_triples(&flat).len(), 0);
}

#[test]
fn grouping_floating_point_attributes() {
    let flat: Vec<f32> = vec![1.0, 2.5, -3.0, 0.0, 4.0, 5.0];
    let grouped = group_triples(&flat);
    assert_eq!(grouped, vec![(1.0, 2.5, -3.0), (0.0, 4.0, 5.0)]);
}
