use network_discover::tmp::{get_tmp_file, named_file};

#[test]
fn names_of_files() {
    assert_eq!(named_file("id", None), "id");
    assert_eq!(named_file("id", Some("xml")), "id.xml");
    assert_eq!(named_file("id", Some("")), "id.");
}

#[test]
fn names_are_random() {
    let first = get_tmp_file(Some("xml"));
    let second = get_tmp_file(Some("xml"));
    assert_ne!(first, second);
    assert_eq!(first.len(), 40);
    assert!(first.ends_with(".xml"));
    let bare = get_tmp_file(None);
    let id = bare.as_bytes();
    assert_eq!(id.len(), 36);
    for (i, c) in id.iter().enumerate() {
        match i {
            8 | 13 | 18 | 23 => assert_eq!(*c, b'-'),
            14 => assert_eq!(*c, b'4'),
            19 => assert!(b"89ab".contains(c)),
            _ => assert!(b"0123456789abcdef".contains(c)),
        }
    }
}
