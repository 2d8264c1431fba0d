use gruntia::text::{append_count, append_int, int_between};

#[test]
fn decimal_notation_of_integers() {
    let mut s = String::new();
    append_int(&mut s, 0);
    assert_eq!(s, "0");
    let mut s = String::from("x=");
    append_int(&mut s, -1205);
    assert_eq!(s, "x=-1205");
    let mut s = String::new();
    append_int(&mut s, i64::MIN);
    assert_eq!(s, i64::MIN.to_string());
    let mut s = String::new();
    append_count(&mut s, 907);
    assert_eq!(s, "907");
}

#[test]
fn number_between_two_texts() {
    assert_eq!(int_between("Selected ", 3, " card(s)."), "Selected 3 card(s).");
}
