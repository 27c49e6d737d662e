use vulkan_sync::temp::Temp;
use vulkan_sync::Api;

#[test]
fn make_c_str_ends_the_name_with_a_nul() {
    let mut temp = Temp::default();
    temp.make_c_str("pass");
    assert_eq!(temp.marker, b"pass\0".to_vec());
    temp.make_c_str("");
    assert_eq!(temp.marker, vec![0]);
    temp.make_c_str("gr\u{fc}n");
    assert_eq!(temp.marker, vec![b'g', b'r', 0xc3, 0xbc, b'n', 0]);
    assert_eq!(temp.marker.iter().position(|byte| *byte == 0), Some(5));
}

#[test]
fn clear_empties_the_marker() {
    let mut temp = Temp::default();
    temp.make_c_str("pass");
    temp.clear();
    assert!(temp.marker.is_empty());
}

#[test]
fn the_backend_tag_can_be_cloned() {
    let api = Api;
    let _copy = api.clone();
    assert_eq!(format!("{:?}", api), "Api");
}
