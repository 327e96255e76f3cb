use opossum::text::count_str;

#[test]
fn test_count_str() {
    assert_eq!(count_str(0), "0th");
    assert_eq!(count_str(1), "1st");
    assert_eq!(count_str(2), "2nd");
    assert_eq!(count_str(3), "3rd");
    assert_eq!(count_str(4), "4th");
    assert_eq!(count_str(20), "20th");
    assert_eq!(count_str(21), "21st");
    assert_eq!(count_str(22), "22nd");
    assert_eq!(count_str(23), "23rd");
    assert_eq!(count_str(24), "24th");
}

#[test]
fn count_str_large_and_teens() {
    assert_eq!(count_str(11), "11st");
    assert_eq!(count_str(112), "112nd");
    assert_eq!(count_str(1000), "1000th");
    assert_eq!(count_str(usize::MAX), format!("{}th", usize::MAX));
}
