use blurry::{ascii, hexdigits, latin1, latin1_french};

#[test]
fn hexdigits_are_digits_letters_and_x() {
    let got: String = hexdigits().into_iter().collect();
    assert_eq!(got, "0123456789abcdefABCDEFxX");
}

#[test]
fn ascii_runs_from_bang_to_tilde() {
    let a = ascii();
    assert_eq!(a.len(), 94);
    assert_eq!(a[0], '!');
    assert_eq!(a[93], '~');
    assert!(!a.contains(&' '));
    for (i, c) in a.iter().enumerate() {
        assert_eq!(*c as u32, 0x21 + i as u32);
    }
}

#[test]
fn latin1_is_ascii_then_a1_to_ff() {
    let l = latin1();
    assert_eq!(l.len(), 94 + 95);
    assert_eq!(&l[..94], &ascii()[..]);
    assert_eq!(l[94], '\u{a1}');
    assert_eq!(l[188], '\u{ff}');
    assert!(!l.contains(&'\u{a0}'));
}

#[test]
fn latin1_french_adds_three_letters() {
    let f = latin1_french();
    assert_eq!(f.len(), 94 + 95 + 3);
    assert_eq!(&f[..189], &latin1()[..]);
    assert_eq!(&f[189..], &['\u{152}', '\u{153}', '\u{178}']);
}
