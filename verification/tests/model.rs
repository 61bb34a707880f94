use midiseq::model::NoteClass;
use midiseq::model::NoteKey;

#[test]
fn test_notes() {
    let c = NoteClass::C;
    assert_eq!(NoteClass::D, c.shift(2));
    assert_eq!(NoteClass::As, c.shift(-2));
}

#[test]
fn test_key() {
    let c_major = NoteKey::major(NoteClass::C);
    let a_minor = NoteKey::minor(NoteClass::A);

    assert!(
        a_minor.equivalent(&c_major) && c_major.equivalent(&a_minor),
        "Difference : {:?}",
        NoteClass::all()
            .iter()
            .copied()
            .filter(|note| a_minor.contains(*note) != c_major.contains(*note))
            .collect::<Vec<_>>()
    );
    assert_eq!(NoteClass::C, c_major.root());
    assert_eq!(NoteClass::A, a_minor.root());
    assert_eq!(NoteClass::C, c_major.nth(0));
    assert_eq!(NoteClass::E, c_major.nth(2));
    assert_eq!(NoteClass::G, c_major.nth(4));
    assert_eq!(NoteClass::B, c_major.nth(6));
    assert_eq!(NoteClass::C, c_major.nth(7));
    for idx in -(c_major.len() as isize) * 2..(c_major.len() as isize) * 2 {
        let c_note = c_major.nth(idx);
        let a_note = a_minor.nth(idx + 2);
        assert_eq!(c_note, a_note, "IDX: {}", idx);
    }
}

#[test]
fn class_index_round_trip() {
    let all = NoteClass::all();
    assert_eq!(12, all.len());
    for (idx, class) in all.iter().enumerate() {
        assert_eq!(idx as u8, class.as_u8());
        assert_eq!(*class, NoteClass::from_u8(idx as u8));
        assert_eq!(*class, NoteClass::from_u8(idx as u8 + 12));
        assert_eq!(*class, class.shift(12));
        assert_eq!(*class, class.shift(-12));
        assert_eq!(*class, class.shift(0));
    }
    assert_eq!(NoteClass::C, NoteClass::B.shift(1));
    assert_eq!(NoteClass::B, NoteClass::C.shift(-1));
    assert_eq!(NoteClass::E, NoteClass::C.shift(-128));
    assert_eq!(NoteClass::G, NoteClass::C.shift(127));
}

#[test]
fn octave_range() {
    assert_eq!(-1, midiseq::model::Octave::clamp(-5).as_raw());
    assert_eq!(9, midiseq::model::Octave::clamp(10).as_raw());
    assert_eq!(4, midiseq::model::Octave::clamp(4).as_raw());
    assert_eq!(None, midiseq::model::Octave::from_raw(10));
    assert_eq!(None, midiseq::model::Octave::from_raw(-2));
    assert_eq!(Some(9), midiseq::model::Octave::from_raw(9).map(|o| o.as_raw()));
}

#[test]
fn major_key_holds_seven_classes() {
    for root in NoteClass::all() {
        let key = NoteKey::major(root);
        assert_eq!(root, key.root());
        assert_eq!(7, key.len());
        for off in 0..12i8 {
            let expected = [0, 2, 4, 5, 7, 9, 11].contains(&off);
            assert_eq!(expected, key.contains(root.shift(off)));
        }
    }
}

#[test]
fn minor_key_is_relative_major() {
    for root in NoteClass::all() {
        let minor = NoteKey::minor(root);
        let major = NoteKey::major(root.shift(3));
        assert!(minor.equivalent(&major));
        assert_eq!(root, minor.root());
        assert_eq!(7, minor.len());
        assert!(!minor.equivalent(&NoteKey::major(root)));
        for off in 0..12i8 {
            let expected = [0, 2, 3, 5, 7, 8, 10].contains(&off);
            assert_eq!(expected, minor.contains(root.shift(off)));
        }
    }
}

#[test]
fn nth_wraps_both_ways() {
    let e_major = NoteKey::major(NoteClass::E);
    let places = [
        NoteClass::E,
        NoteClass::Fs,
        NoteClass::Gs,
        NoteClass::A,
        NoteClass::B,
        NoteClass::Cs,
        NoteClass::Ds,
    ];
    for k in -21isize..21 {
        assert_eq!(places[k.rem_euclid(7) as usize], e_major.nth(k));
    }
    let a_minor = NoteKey::minor(NoteClass::A);
    assert_eq!(NoteClass::C, a_minor.nth(2));
    assert_eq!(NoteClass::G, a_minor.nth(-1));
    assert_eq!(NoteClass::A, a_minor.nth(isize::MIN + 1 + (isize::MAX % 7)));
}
