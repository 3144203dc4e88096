use multiprint::{Decorate, MultiPrint};

#[test]
fn zero_copies_are_empty() {
    assert_eq!("Hello".to_string().times(0, ' '), "");
    assert_eq!("".to_string().times(0, '-'), "");
}

#[test]
fn one_copy_is_the_text() {
    assert_eq!("Hello".to_string().times(1, ' '), "Hello");
    assert_eq!("a-b".to_string().times(1, '-'), "a-b");
}

#[test]
fn copies_alternate_with_separators() {
    let r = "ab".to_string().times(4, '|');
    assert_eq!(r, "ab|ab|ab|ab");
    assert_eq!(r.chars().count(), 4 * 3 - 1);
    assert_eq!(r.matches("ab").count(), 4);
    assert_eq!(r.matches('|').count(), 3);
}

#[test]
fn empty_text_repeats_to_separators_only() {
    assert_eq!("".to_string().times(3, ','), ",,");
}

#[test]
fn underline_length_and_second_line() {
    let r = "Header 1".to_string().underline('-');
    assert_eq!(r.chars().count(), 8 * 2 + 1);
    assert_eq!(r.split('\n').nth(1), Some("--------"));
}

#[test]
fn lines_count_characters_not_bytes() {
    assert_eq!("héllo".to_string().underline('='), "héllo\n=====");
    assert_eq!("日本".to_string().overline('~'), "~~\n日本");
    assert_eq!("ü".to_string().border('#', '!'), "#####\n! ü !\n#####");
}

#[test]
fn overline_mirrors_underline() {
    let u = "Title".to_string().underline('^');
    let o = "Title".to_string().overline('^');
    let lines: Vec<&str> = u.split('\n').collect();
    assert_eq!(o, format!("{}\n{}", lines[1], lines[0]));
    assert_eq!(o, "^^^^^\nTitle");
}

#[test]
fn outline_is_overline_then_underline() {
    let t = "Header 1".to_string();
    let under = t.underline('=');
    let second = under.split('\n').nth(1).unwrap();
    assert_eq!(t.outline('_', '='), format!("{}\n{}", t.overline('_'), second));
    assert_eq!(t.outline('_', '='), "________\nHeader 1\n========");
}

#[test]
fn empty_text_decorations() {
    let e = String::new();
    assert_eq!(e.underline('-'), "\n");
    assert_eq!(e.overline('-'), "\n");
    assert_eq!(e.outline('-', '='), "\n\n");
    assert_eq!(e.border('-', '|'), "----\n|  |\n----");
}

#[test]
fn echo_five_times() {
    let s = String::from("Echo..");
    assert_eq!(s.times(5, ' '), "Echo.. Echo.. Echo.. Echo.. Echo..");
    assert_eq!("Hello!".to_string().times(2, ' '), "Hello! Hello!");
}
