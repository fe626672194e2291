use uuid_qr::gen::{insert_dashes_str, rnd_uuid, to_capital, to_four, to_two, u8_hex_rnd};
use uuid_qr::{uuid, uuid_dashed, uuid_dashed_uppercase, uuid_uppercase, UUIDError};

fn is_lower_hex(c: char) -> bool {
    c.is_ascii_digit() || ('a'..='f').contains(&c)
}

fn is_upper_hex(c: char) -> bool {
    c.is_ascii_digit() || ('A'..='F').contains(&c)
}

#[test]
fn uuid_length_and_alphabet() {
    for _ in 0..100 {
        let s = uuid().unwrap();
        assert_eq!(s.len(), 32);
        assert!(s.chars().all(is_lower_hex));
    }
}

#[test]
fn uuid_version_and_variant_markers() {
    for _ in 0..100 {
        let s = uuid().unwrap();
        let cs: Vec<char> = s.chars().collect();
        assert_eq!(cs[12], '4');
        assert!(matches!(cs[16], '8' | '9' | 'a' | 'b'));
    }
}

#[test]
fn uuid_uppercase_length_alphabet_markers() {
    for _ in 0..100 {
        let s = uuid_uppercase().unwrap();
        assert_eq!(s.len(), 32);
        assert!(s.chars().all(is_upper_hex));
        let cs: Vec<char> = s.chars().collect();
        assert_eq!(cs[12], '4');
        assert!(matches!(cs[16], '8' | '9' | 'A' | 'B'));
    }
}

#[test]
fn uuid_dashed_shape() {
    for _ in 0..100 {
        let s = uuid_dashed().unwrap();
        assert_eq!(s.len(), 36);
        let cs: Vec<char> = s.chars().collect();
        for (i, c) in cs.iter().enumerate() {
            if i == 8 || i == 13 || i == 18 || i == 23 {
                assert_eq!(*c, '-');
            } else {
                assert!(is_lower_hex(*c));
            }
        }
        assert_eq!(cs[14], '4');
        assert!(matches!(cs[19], '8' | '9' | 'a' | 'b'));
    }
}

#[test]
fn uuid_dashed_uppercase_shape() {
    for _ in 0..100 {
        let s = uuid_dashed_uppercase().unwrap();
        assert_eq!(s.len(), 36);
        let cs: Vec<char> = s.chars().collect();
        for (i, c) in cs.iter().enumerate() {
            if i == 8 || i == 13 || i == 18 || i == 23 {
                assert_eq!(*c, '-');
            } else {
                assert!(is_upper_hex(*c));
            }
        }
        assert_eq!(cs[14], '4');
        assert!(matches!(cs[19], '8' | '9' | 'A' | 'B'));
    }
}

#[test]
fn dashed_form_strips_to_undashed_shape() {
    for _ in 0..50 {
        let s = uuid_dashed().unwrap();
        let stripped: String = s.chars().filter(|c| *c != '-').collect();
        assert_eq!(stripped.len(), 32);
        assert!(stripped.chars().all(is_lower_hex));
        let cs: Vec<char> = stripped.chars().collect();
        assert_eq!(cs[12], '4');
        assert!(matches!(cs[16], '8' | '9' | 'a' | 'b'));
    }
}

#[test]
fn upper_and_lower_are_case_inverses() {
    for _ in 0..50 {
        let d = uuid_dashed().unwrap();
        let u = to_capital(d.clone());
        assert_eq!(u.len(), d.len());
        for (cd, cu) in d.chars().zip(u.chars()) {
            assert_eq!(cu, cd.to_ascii_uppercase());
            assert_eq!(cd, cu.to_ascii_lowercase());
            assert_eq!(cd == '-', cu == '-');
        }
    }
}

#[test]
fn to_capital_exact() {
    assert_eq!(to_capital(String::from("abcdef-0129-z")), "ABCDEF-0129-Z");
    assert_eq!(to_capital(String::new()), "");
}

#[test]
fn to_four_exact_values() {
    assert_eq!(to_four("ff").unwrap(), "4f");
    assert_eq!(to_four("00").unwrap(), "40");
    assert_eq!(to_four("4a").unwrap(), "4a");
    assert_eq!(to_four("AB").unwrap(), "4b");
    assert_eq!(to_four("9C").unwrap(), "4c");
}

#[test]
fn to_four_rejects_malformed() {
    assert_eq!(to_four(""), Err(UUIDError::ParseIntError));
    assert_eq!(to_four("f"), Err(UUIDError::ParseIntError));
    assert_eq!(to_four("abc"), Err(UUIDError::ParseIntError));
    assert_eq!(to_four("zz"), Err(UUIDError::ParseIntError));
    assert_eq!(to_four("4g"), Err(UUIDError::ParseIntError));
}

#[test]
fn to_two_exact_values() {
    assert_eq!(to_two("00").unwrap(), "80");
    assert_eq!(to_two("ff").unwrap(), "bf");
    assert_eq!(to_two("3f").unwrap(), "bf");
    assert_eq!(to_two("40").unwrap(), "80");
    assert_eq!(to_two("C1").unwrap(), "81");
}

#[test]
fn to_two_rejects_malformed() {
    assert_eq!(to_two(""), Err(UUIDError::ParseIntError));
    assert_eq!(to_two("-1"), Err(UUIDError::ParseIntError));
    assert_eq!(to_two("q0"), Err(UUIDError::ParseIntError));
}

#[test]
fn u8_hex_rnd_is_a_lowercase_pair() {
    for _ in 0..100 {
        let s = u8_hex_rnd();
        assert_eq!(s.len(), 2);
        assert!(s.chars().all(is_lower_hex));
    }
}

#[test]
fn rnd_uuid_groups() {
    for _ in 0..50 {
        let gs = rnd_uuid().unwrap();
        assert_eq!(gs.len(), 16);
        for g in &gs {
            assert_eq!(g.len(), 2);
            assert!(g.chars().all(is_lower_hex));
        }
        assert!(gs[6].starts_with('4'));
        let c = gs[8].chars().next().unwrap();
        assert!(matches!(c, '8' | '9' | 'a' | 'b'));
    }
}

#[test]
fn insert_dashes_exact() {
    assert_eq!(
        insert_dashes_str("0123456789abcdef0123456789abcdef"),
        "01234567-89ab-cdef-0123-456789abcdef"
    );
}
