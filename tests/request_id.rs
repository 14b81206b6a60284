use poem_select::MakeRequestUuidV7;

#[test]
fn request_id_is_hyphenated_uuid_v7() {
    let maker = MakeRequestUuidV7;
    let id = maker.make_request_id();
    let chars: Vec<char> = id.chars().collect();
    assert_eq!(chars.len(), 36);
    for (i, c) in chars.iter().enumerate() {
        if [8, 13, 18, 23].contains(&i) {
            assert_eq!(*c, '-');
        } else {
            assert!(c.is_ascii_hexdigit() && !c.is_ascii_uppercase(), "{id}");
        }
    }
    assert_eq!(chars[14], '7');
}

#[test]
fn request_ids_differ_and_sort_by_time() {
    let maker = MakeRequestUuidV7;
    let first = maker.make_request_id();
    let second = maker.make_request_id();
    assert_ne!(first, second);
    assert!(first < second);
}
