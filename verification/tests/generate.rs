use vault::generate::{
    draw, make_password, mix, PasswordOption, DIGIT, LOWERCASE, MAX_PASSWORD_LEN, SPECIAL,
    UPPERCASE,
};

fn option(len: usize, uppercase: bool, lowercase: bool, digit: bool, special: bool) -> PasswordOption {
    PasswordOption { len, uppercase, lowercase, digit, special }
}

fn count(text: &str, class: &[u8]) -> usize {
    text.bytes().filter(|b| class.contains(b)).count()
}

#[test]
fn alphabets_are_what_they_are_called() {
    assert_eq!(&UPPERCASE[..], b"ABCDEFGHIJKLMNOPQRSTUVWXYZ");
    assert_eq!(&LOWERCASE[..], b"abcdefghijklmnopqrstuvwxyz");
    assert_eq!(&DIGIT[..], b"0123456789");
    assert_eq!(&SPECIAL[..], b"!\"#$%&'()*+,-./:;<=>?@[\\]^_`{|}~");
}

#[test]
fn classes_come_in_a_fixed_order() {
    assert_eq!(
        option(1, true, true, true, true).chars(),
        vec![&UPPERCASE[..], &LOWERCASE[..], &DIGIT[..], &SPECIAL[..]]
    );
    assert_eq!(option(1, false, true, false, true).chars(), vec![&LOWERCASE[..], &SPECIAL[..]]);
    assert_eq!(option(1, false, false, true, false).chars(), vec![&DIGIT[..]]);
    assert!(option(1, false, false, false, false).chars().is_empty());
}

#[test]
fn nothing_is_made_of_nothing() {
    assert_eq!(make_password(&option(16, false, false, false, false)), "");
    assert_eq!(make_password(&option(0, true, true, true, true)), "");
    assert_eq!(make_password(&option(MAX_PASSWORD_LEN + 1, true, true, true, true)), "");
}

#[test]
fn longest_password_is_made() {
    let text = make_password(&option(MAX_PASSWORD_LEN, true, true, true, true));
    assert_eq!(text.len(), 8192);
    assert_eq!(count(&text, &UPPERCASE), 2048);
    assert_eq!(count(&text, &SPECIAL), 2048);
}

#[test]
fn each_class_gives_its_share() {
    for _ in 0..20 {
        let text = make_password(&option(10, true, true, true, false));
        assert_eq!(text.len(), 10);
        assert_eq!(count(&text, &UPPERCASE), 4);
        assert_eq!(count(&text, &LOWERCASE), 3);
        assert_eq!(count(&text, &DIGIT), 3);
        assert_eq!(count(&text, &SPECIAL), 0);
    }
}

#[test]
fn remainder_goes_to_the_first_classes() {
    let text = make_password(&option(3, true, true, true, true));
    assert_eq!(text.len(), 3);
    assert_eq!(count(&text, &UPPERCASE), 1);
    assert_eq!(count(&text, &LOWERCASE), 1);
    assert_eq!(count(&text, &DIGIT), 1);
    assert_eq!(count(&text, &SPECIAL), 0);
    let text = make_password(&option(1, false, false, true, true));
    assert_eq!(count(&text, &DIGIT), 1);
}

#[test]
fn one_class_gives_every_character() {
    let text = make_password(&option(64, false, false, true, false));
    assert_eq!(text.len(), 64);
    assert!(text.bytes().all(|b| b.is_ascii_digit()));
}

#[test]
fn passwords_differ() {
    let o = option(32, true, true, true, true);
    assert_ne!(make_password(&o), make_password(&o));
}

#[test]
fn drawing_goes_class_by_class() {
    let classes: Vec<&'static [u8]> = vec![&UPPERCASE, &DIGIT];
    let drawn = draw(&classes, 5);
    assert_eq!(drawn.len(), 5);
    assert!(drawn[..3].iter().all(|b| b.is_ascii_uppercase()));
    assert!(drawn[3..].iter().all(|b| b.is_ascii_digit()));
    assert!(draw(&classes, 0).is_empty());
}

#[test]
fn mixing_keeps_every_character() {
    let drawn: Vec<u8> = (b'a'..=b'z').chain(b'a'..=b'z').collect();
    let text = mix(drawn.clone());
    let mut sorted = text.clone().into_bytes();
    sorted.sort();
    let mut expected = drawn.clone();
    expected.sort();
    assert_eq!(sorted, expected);
    assert_ne!(text.as_bytes(), &drawn[..]);
    assert_eq!(mix(Vec::new()), "");
}
