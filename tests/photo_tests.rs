use viewfinder::photo::{decimal_digits, next_photo_index, photo_file_name, photo_index};

#[test]
fn file_names() {
    assert_eq!(photo_file_name(1), b"photo1.jpg".to_vec());
    assert_eq!(photo_file_name(42), b"photo42.jpg".to_vec());
    assert_eq!(photo_file_name(u32::MAX), b"photo4294967295.jpg".to_vec());
    assert_eq!(decimal_digits(0), b"0".to_vec());
    assert_eq!(decimal_digits(1005), b"1005".to_vec());
}

#[test]
fn indices_of_names() {
    assert_eq!(photo_index(b"photo1.jpg"), Some(1));
    assert_eq!(photo_index(b"photo307.jpg"), Some(307));
    assert_eq!(photo_index(b"photo4294967295.jpg"), Some(u32::MAX));
    assert_eq!(photo_index(b"photo4294967296.jpg"), None);
    assert_eq!(photo_index(b"photo01.jpg"), None);
    assert_eq!(photo_index(b"photo.jpg"), None);
    assert_eq!(photo_index(b"photo1.png"), None);
    assert_eq!(photo_index(b"image1.jpg"), None);
    assert_eq!(photo_index(b"photo1a.jpg"), None);
    for i in [1u32, 9, 10, 123456] {
        assert_eq!(photo_index(&photo_file_name(i)), Some(i));
    }
}

#[test]
fn next_index_is_first_gap() {
    assert_eq!(next_photo_index(&Vec::new()), Some(1));
    assert_eq!(next_photo_index(&vec![1, 2, 3]), Some(4));
    assert_eq!(next_photo_index(&vec![3, 1, 4]), Some(2));
    assert_eq!(next_photo_index(&vec![2, 3]), Some(1));
}
