use visualizer::naming::{frame_file_name_string, id_to_path_string};

#[test]
fn names_have_five_digits() {
    let ids = [0usize, 9, 10, 99, 100, 999, 1000, 9999, 10000];
    let expected = [
        "00000.png", "00009.png", "00010.png", "00099.png", "00100.png", "00999.png",
        "01000.png", "09999.png", "10000.png",
    ];
    for (id, name) in ids.iter().zip(expected.iter()) {
        let got = frame_file_name_string(*id);
        assert_eq!(&got, name);
        let digits = got.strip_suffix(".png").unwrap();
        assert_eq!(digits.len(), 5);
        assert!(digits.chars().all(|c| c.is_ascii_digit()));
    }
}

#[test]
fn names_sort_as_ids() {
    let ids = [0usize, 9, 10, 99, 100, 999, 1000, 9999, 10000, 99999];
    let names: Vec<String> = ids.iter().map(|i| frame_file_name_string(*i)).collect();
    let mut sorted = names.clone();
    sorted.sort();
    assert_eq!(names, sorted);
}

#[test]
fn large_ids_keep_all_digits() {
    assert_eq!(frame_file_name_string(99999), "99999.png");
    assert_eq!(frame_file_name_string(100000), "100000.png");
    assert_eq!(frame_file_name_string(1234567), "1234567.png");
}

#[test]
fn path_is_in_image_directory() {
    assert_eq!(id_to_path_string(0), "../pngs/00000.png");
    assert_eq!(id_to_path_string(42), "../pngs/00042.png");
    assert_eq!(id_to_path_string(12345), "../pngs/12345.png");
}
