use multiprint::{Decorate, MultiPrint};

#[test]
fn hello_twice() {
    let s = String::from("Hello");

    assert_eq!(s.times(2, ' '), "Hello Hello");
}

#[test]
fn do_it_5_times() {
    let s = String::from("Peter");

    assert_eq!(s.times(5, '-'), "Peter-Peter-Peter-Peter-Peter");
}

#[test]
fn underline_test() {
    let s = String::from("This is a header");

    assert_eq!(s.underline('-'), "This is a header\n----------------");
}

#[test]
fn overline_test() {
    let s = String::from("This is a header");

    assert_eq!(s.overline('-'), "----------------\nThis is a header");
}

#[test]
fn outline() {
    let s = String::from("This is a header");

    assert_eq!(s.outline('-', '='), "----------------\nThis is a header\n================");
}
