use crossdesk::protocol::{
    copy_displays, displays_match, id_from_hex, id_to_hex, same_id, Display, DEFAULT_PORT,
    DISCOVERY_PORT, MAGIC, MAX_FRAME, PROTOCOL_VERSION,
};
use crossdesk::table::Table;
use crossdesk::text::{is_before, push_decimal, push_upper, trim};

fn screen(scale: f32) -> Display {
    Display {
        id: 3,
        name: "Left".into(),
        x: -1920,
        y: 0,
        width: 1920,
        height: 1080,
        scale_bits: scale.to_bits(),
        primary: false,
    }
}

#[test]
fn constants_are_what_peers_expect() {
    assert_eq!(PROTOCOL_VERSION, 1);
    assert_eq!(&MAGIC, b"XDSK");
    assert_eq!(DEFAULT_PORT, 47810);
    assert_eq!(DISCOVERY_PORT, 47811);
    assert_eq!(MAX_FRAME, 32 * 1024 * 1024);
}

#[test]
fn ids_survive_the_trip_through_text() {
    let mut id = [0u8; 16];
    for (i, b) in id.iter_mut().enumerate() {
        *b = (i * 17) as u8;
    }
    let hex = id_to_hex(&id);
    assert_eq!(hex, "00112233445566778899aabbccddeeff");
    assert_eq!(id_from_hex(&hex), Some(id));
    assert_eq!(id_from_hex("00112233445566778899AABBCCDDEEFF"), Some(id));
    assert!(same_id(&id, &id_from_hex(&hex).unwrap()));
    assert!(!same_id(&id, &[0u8; 16]));
}

#[test]
fn text_that_is_not_an_id_is_refused() {
    assert_eq!(id_from_hex(""), None);
    assert_eq!(id_from_hex("00112233445566778899aabbccddeef"), None);
    assert_eq!(id_from_hex("00112233445566778899aabbccddeeff0"), None);
    assert_eq!(id_from_hex("g0112233445566778899aabbccddeeff"), None);
    assert_eq!(id_from_hex("0g112233445566778899aabbccddeeff"), None);
    // Sixteen two-byte characters are 32 bytes, none of them a digit.
    assert_eq!(id_from_hex("éééééééééééééééé"), None);
}

#[test]
fn monitors_are_compared_field_by_field() {
    assert!(displays_match(&vec![screen(1.5)], &vec![screen(1.5)]));
    assert!(!displays_match(&vec![screen(1.5)], &vec![screen(1.25)]));
    assert!(!displays_match(&vec![screen(1.5)], &vec![]));
    let mut other = screen(1.5);
    other.name = "Right".into();
    assert!(!displays_match(&vec![screen(1.5)], &vec![other]));
    // Scales compare as numbers do: the zeros are equal, not-a-number is not.
    assert!(displays_match(&vec![screen(0.0)], &vec![screen(-0.0)]));
    assert!(!displays_match(&vec![screen(f32::NAN)], &vec![screen(f32::NAN)]));
    let copy = copy_displays(&vec![screen(2.0)]);
    assert!(displays_match(&copy, &vec![screen(2.0)]));
}

#[test]
fn tables_hold_each_key_once() {
    let mut t: Table<u8> = Table::new();
    t.insert("a".into(), 1);
    t.insert("b".into(), 2);
    t.insert("a".into(), 3);
    assert_eq!(t.get("a"), Some(&3));
    assert_eq!(t.get("b"), Some(&2));
    assert_eq!(t.get("c"), None);
    assert_eq!(t.entries.len(), 2);
    t.remove("a");
    t.remove("zzz");
    assert_eq!(t.get("a"), None);
    assert_eq!(t.copy().get("b"), Some(&2));
}

#[test]
fn text_helpers_do_what_std_does() {
    for s in ["", " a ", "\u{2003}x y\n\t", "   ", "ß", "\u{85}q\u{3000}"] {
        assert_eq!(trim(s), s.trim());
    }
    for (a, b) in [("a", "b"), ("a", "ab"), ("B", "a"), ("é", "z"), ("x", "x"), ("\u{10000}", "\u{ffff}")] {
        assert_eq!(is_before(a, b), a < b);
        assert_eq!(is_before(b, a), b < a);
    }
    let mut s = String::from("n=");
    push_decimal(&mut s, 0);
    push_decimal(&mut s, 65535);
    push_decimal(&mut s, u64::MAX);
    assert_eq!(s, "n=06553518446744073709551615");
    let mut up = String::new();
    for c in "aZ1ßé".chars() {
        push_upper(&mut up, c);
    }
    assert_eq!(up, "AZ1SSÉ");
}
