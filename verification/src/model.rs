//! Pitch classes, octaves and musical keys.

use vstd::arithmetic::div_mod::lemma_fundamental_div_mod;
use vstd::arithmetic::div_mod::lemma_fundamental_div_mod_converse;
use vstd::prelude::*;

verus! {

/// One of the twelve chromatic pitch classes.
#[derive(Debug, Copy, Clone, PartialEq, Eq, Structural, Hash)]
pub enum NoteClass {
    C,
    Cs,
    D,
    Ds,
    E,
    F,
    Fs,
    G,
    Gs,
    A,
    As,
    B,
}

impl NoteClass {
    /// The position of this class above C, in semitones.
    pub open spec fn index(self) -> int {
        match self {
            NoteClass::C => 0,
            NoteClass::Cs => 1,
            NoteClass::D => 2,
            NoteClass::Ds => 3,
            NoteClass::E => 4,
            NoteClass::F => 5,
            NoteClass::Fs => 6,
            NoteClass::G => 7,
            NoteClass::Gs => 8,
            NoteClass::A => 9,
            NoteClass::As => 10,
            NoteClass::B => 11,
        }
    }

    /// The class that lies `i mod 12` semitones above C.
    pub open spec fn from_index(i: int) -> NoteClass {
        let k = i % 12;
        if k == 0 {
            NoteClass::C
        } else if k == 1 {
            NoteClass::Cs
        } else if k == 2 {
            NoteClass::D
        } else if k == 3 {
            NoteClass::Ds
        } else if k == 4 {
            NoteClass::E
        } else if k == 5 {
            NoteClass::F
        } else if k == 6 {
            NoteClass::Fs
        } else if k == 7 {
            NoteClass::G
        } else if k == 8 {
            NoteClass::Gs
        } else if k == 9 {
            NoteClass::A
        } else if k == 10 {
            NoteClass::As
        } else {
            NoteClass::B
        }
    }

    /// This class moved by `offset` semitones, wrapping round the octave.
    pub open spec fn shifted(self, offset: int) -> NoteClass {
        NoteClass::from_index(self.index() + offset)
    }

    /// All twelve classes, upward from C.
    pub fn all() -> (r: Vec<NoteClass>)
        ensures
            r@.len() == 12,
            forall|i: int| 0 <= i < 12 ==> (#[trigger] r@[i]).index() == i,
    {
        vec![
            NoteClass::C,
            NoteClass::Cs,
            NoteClass::D,
            NoteClass::Ds,
            NoteClass::E,
            NoteClass::F,
            NoteClass::Fs,
            NoteClass::G,
            NoteClass::Gs,
            NoteClass::A,
            NoteClass::As,
            NoteClass::B,
        ]
    }

    /// Moves this class by `offset` semitones, wrapping round the octave.
    pub fn shift(&self, offset: i8) -> (r: NoteClass)
        ensures
            r == self.shifted(offset as int),
    {
        let raw: i16 = (self.as_u8() as i16) + (offset as i16);
        let wrapped: i16 = if raw < 0 {
            let back: i16 = (-raw) % 12;
            if back == 0 {
                0
            } else {
                12 - back
            }
        } else {
            raw % 12
        };
        NoteClass::from_u8(wrapped as u8)
    }

    /// The class that lies `raw mod 12` semitones above C.
    pub fn from_u8(raw: u8) -> (r: NoteClass)
        ensures
            r == NoteClass::from_index(raw as int),
    {
        let k: u8 = raw % 12;
        if k == 0 {
            NoteClass::C
        } else if k == 1 {
            NoteClass::Cs
        } else if k == 2 {
            NoteClass::D
        } else if k == 3 {
            NoteClass::Ds
        } else if k == 4 {
            NoteClass::E
        } else if k == 5 {
            NoteClass::F
        } else if k == 6 {
            NoteClass::Fs
        } else if k == 7 {
            NoteClass::G
        } else if k == 8 {
            NoteClass::Gs
        } else if k == 9 {
            NoteClass::A
        } else if k == 10 {
            NoteClass::As
        } else {
            NoteClass::B
        }
    }

    /// The position of this class above C, in semitones.
    pub fn as_u8(&self) -> (r: u8)
        ensures
            r == self.index(),
            r < 12,
    {
        match self {
            NoteClass::C => 0,
            NoteClass::Cs => 1,
            NoteClass::D => 2,
            NoteClass::Ds => 3,
            NoteClass::E => 4,
            NoteClass::F => 5,
            NoteClass::Fs => 6,
            NoteClass::G => 7,
            NoteClass::Gs => 8,
            NoteClass::A => 9,
            NoteClass::As => 10,
            NoteClass::B => 11,
        }
    }
}

/// An octave number, kept between -1 and 9.
#[derive(Debug, Copy, Clone, PartialEq, Eq, Structural, Hash)]
pub struct Octave(i8);

impl Octave {
    /// The octave's number.
    pub closed spec fn value(self) -> int {
        self.0 as int
    }

    /// The octave with the number `v`, for `v` from -1 to 9.
    pub closed spec fn of(v: int) -> Octave {
        Octave(v as i8)
    }

    /// Whether the number lies in the range that octaves are kept to.
    pub open spec fn wf(self) -> bool {
        -1 <= self.value() <= 9
    }

    /// `of` and `value` undo each other.
    pub broadcast proof fn lemma_of_value(v: int)
        requires
            -128 <= v <= 127,
        ensures
            (#[trigger] Octave::of(v)).value() == v,
    {
    }

    /// An octave is fixed by its number.
    pub broadcast proof fn lemma_value_of(self)
        ensures
            Octave::of(#[trigger] self.value()) == self,
    {
    }

    #[verifier::type_invariant]
    pub open spec fn inv(self) -> bool {
        self.wf()
    }

    /// The octave's number.
    pub fn as_raw(&self) -> (r: i8)
        ensures
            r == self.value(),
            self.wf(),
    {
        proof {
            use_type_invariant(self);
        }
        self.0
    }

    /// The octave `raw`, unless `raw` lies outside -1 to 9.
    pub fn from_raw(raw: i8) -> (r: Option<Octave>)
        ensures
            r == if -1 <= raw <= 9 {
                Some(Octave::of(raw as int))
            } else {
                None
            },
    {
        if raw < -1 || raw > 9 {
            None
        } else {
            Some(Octave(raw))
        }
    }

    /// The octave nearest to `raw` within -1 to 9.
    pub fn clamp(raw: i8) -> (r: Octave)
        ensures
            r.wf(),
            r == Octave::of(
                if raw < -1 {
                    -1
                } else if raw > 9 {
                    9
                } else {
                    raw as int
                },
            ),
    {
        let clamped: i8 = if raw < -1 {
            -1
        } else if raw > 9 {
            9
        } else {
            raw
        };
        Octave(clamped)
    }
}

/// Whether bit `j` of `bits` is set.
pub open spec fn bit_is_set(bits: u16, j: u16) -> bool {
    (bits >> j) & 1 == 1
}

proof fn lemma_set_bit(bits: u16, k: u16, j: u16)
    by (bit_vector)
    requires
        k < 12,
        j < 12,
    ensures
        bit_is_set(bits | (1u16 << k), j) <==> (j == k || bit_is_set(bits, j)),
        (bits | (1u16 << k)) >> 12 == bits >> 12,
{
}

proof fn lemma_clear_bit(bits: u16, k: u16, j: u16)
    by (bit_vector)
    requires
        k < 12,
        j < 12,
    ensures
        bit_is_set(bits & !(1u16 << k), j) <==> (j != k && bit_is_set(bits, j)),
        (bits & !(1u16 << k)) >> 12 == bits >> 12,
{
}

proof fn lemma_test_bit(bits: u16, j: u16)
    by (bit_vector)
    requires
        j < 12,
    ensures
        (bits & (1u16 << j) != 0) <==> bit_is_set(bits, j),
{
}

proof fn lemma_root_only(root: u16, j: u16)
    by (bit_vector)
    requires
        root < 12,
        j < 12,
    ensures
        (root << 12) >> 12 == root,
        !bit_is_set(root << 12, j),
        ((root << 12) & 0xF000) >> 12 == root,
{
}

proof fn lemma_root_field(bits: u16)
    by (bit_vector)
    ensures
        (bits & 0xF000) >> 12 == bits >> 12,
        bits >> 12 < 16,
{
}

/// The semitone offsets above the root of the seven classes of a major key,
/// upward.
pub open spec fn major_offsets() -> Seq<int> {
    seq![0, 2, 4, 5, 7, 9, 11]
}

/// The semitone offsets above the root of the seven classes of a (natural)
/// minor key, upward.
pub open spec fn minor_offsets() -> Seq<int> {
    seq![0, 2, 3, 5, 7, 8, 10]
}

/// A musical key: a root class and the set of classes that belong to the key.
/// The root always belongs to its key.
#[derive(Debug, Copy, Clone, PartialEq, Eq, Structural, Hash)]
pub struct NoteKey {
    // Bits 0 to 11 say which classes are in the key, bit k standing for the
    // class k semitones above C; bits 12 to 15 hold the root's index.
    notes_with_root: u16,
}

impl NoteKey {
    /// The key's root class.
    pub closed spec fn root_class(self) -> NoteClass {
        NoteClass::from_index((self.notes_with_root >> 12) as int)
    }

    /// Whether the class `c` belongs to the key.
    pub closed spec fn has(self, c: NoteClass) -> bool {
        bit_is_set(self.notes_with_root, c.index() as u16)
    }

    /// Whether the class `off` semitones above the root belongs to the key.
    pub open spec fn has_offset(self, off: int) -> bool {
        self.has(self.root_class().shifted(off))
    }

    /// How many of the classes `off`, `off + 1`, ..., 11 semitones above the
    /// root belong to the key.
    pub open spec fn count_from(self, off: int) -> nat
        decreases 12 - off,
    {
        if off >= 12 || off < 0 {
            0
        } else {
            (if self.has_offset(off) {
                1nat
            } else {
                0nat
            }) + self.count_from(off + 1)
        }
    }

    /// The number of classes in the key.
    pub open spec fn size(self) -> nat {
        self.count_from(0)
    }

    /// The offset above the root of the class that comes `k` places after the
    /// first class of the key at or above offset `off`, counting upward; 12 if
    /// the key has no such class below the root's octave.
    pub open spec fn offset_after(self, k: nat, off: int) -> int
        decreases 12 - off,
    {
        if off >= 12 || off < 0 {
            12
        } else if self.has_offset(off) {
            if k == 0 {
                off
            } else {
                self.offset_after((k - 1) as nat, off + 1)
            }
        } else {
            self.offset_after(k, off + 1)
        }
    }

    /// The class at place `k` of the key, where place 0 is the root and the
    /// places count the key's classes upward and wrap round at its size, for
    /// negative `k` too.
    pub open spec fn nth_class(self, k: int) -> NoteClass {
        self.root_class().shifted(self.offset_after((k % (self.size() as int)) as nat, 0))
    }

    /// Whether the key is well formed: its root belongs to it.
    pub open spec fn wf(self) -> bool {
        self.has(self.root_class())
    }

    #[verifier::type_invariant]
    pub open spec fn inv(self) -> bool {
        self.wf()
    }

    /// Whether the key's classes are exactly those that lie at one of
    /// `offsets` above `root`.
    pub open spec fn is_scale(self, root: NoteClass, offsets: Seq<int>) -> bool {
        &&& self.root_class() == root
        &&& forall|off: int| 0 <= off < 12 ==> (#[trigger] self.has_offset(off) <==> offsets.contains(off))
    }

    fn with_note(self, note: NoteClass) -> (r: NoteKey)
        ensures
            r.root_class() == self.root_class(),
            forall|c: NoteClass| #[trigger] r.has(c) <==> (c == note || self.has(c)),
    {
        proof {
            use_type_invariant(self);
        }
        let k: u8 = note.as_u8();
        let mask: u16 = 1u16 << (k as u16);
        let bits: u16 = self.notes_with_root | mask;
        proof {
            let r = NoteKey { notes_with_root: bits };
            assert forall|c: NoteClass| #[trigger] r.has(c) <==> (c == note || self.has(c)) by {
                lemma_set_bit(self.notes_with_root, k as u16, c.index() as u16);
                lemma_index_injective(c, note);
            }
            lemma_set_bit(self.notes_with_root, k as u16, 0);
            assert(r.has(r.root_class()));
        }
        NoteKey { notes_with_root: bits }
    }

    fn without_note(self, note: NoteClass) -> (r: NoteKey)
        requires
            note != self.root_class(),
        ensures
            r.root_class() == self.root_class(),
            forall|c: NoteClass| #[trigger] r.has(c) <==> (c != note && self.has(c)),
    {
        proof {
            use_type_invariant(self);
        }
        let k: u8 = note.as_u8();
        let mask: u16 = !(1u16 << (k as u16));
        let bits: u16 = self.notes_with_root & mask;
        proof {
            let r = NoteKey { notes_with_root: bits };
            assert forall|c: NoteClass| #[trigger] r.has(c) <==> (c != note && self.has(c)) by {
                lemma_clear_bit(self.notes_with_root, k as u16, c.index() as u16);
                lemma_index_injective(c, note);
            }
            lemma_clear_bit(self.notes_with_root, k as u16, 0);
            assert(r.has(r.root_class()));
        }
        NoteKey { notes_with_root: bits }
    }

    fn only_root(root: NoteClass) -> (r: NoteKey)
        ensures
            r.root_class() == root,
            forall|c: NoteClass| #[trigger] r.has(c) <==> c == root,
    {
        let k: u8 = root.as_u8();
        let base: u16 = (k as u16) << 12;
        let bits: u16 = base | (1u16 << (k as u16));
        proof {
            lemma_root_only(k as u16, 0);
            lemma_set_bit(base, k as u16, 0);
            assert forall|c: NoteClass| bit_is_set(bits, c.index() as u16) <==> c == root by {
                lemma_root_only(k as u16, c.index() as u16);
                lemma_set_bit(base, k as u16, c.index() as u16);
                lemma_index_injective(c, root);
            }
            lemma_index_injective(NoteClass::from_index(k as int), root);
        }
        NoteKey { notes_with_root: bits }
    }

    /// The major key on `root`: the classes 0, 2, 4, 5, 7, 9 and 11 semitones
    /// above it.
    pub fn major(root: NoteClass) -> (r: NoteKey)
        ensures
            r.wf(),
            r.is_scale(root, major_offsets()),
    {
        let mut retvl = Self::only_root(root);
        retvl = retvl.with_note(root.shift(2));
        retvl = retvl.with_note(root.shift(4));
        retvl = retvl.with_note(root.shift(5));
        retvl = retvl.with_note(root.shift(7));
        retvl = retvl.with_note(root.shift(9));
        retvl = retvl.with_note(root.shift(11));
        proof {
            lemma_shift_distinct(root);
            assert forall|off: int| 0 <= off < 12 implies (#[trigger] retvl.has_offset(off)
                <==> major_offsets().contains(off)) by {
                lemma_offsets_contain();
            }
        }
        retvl
    }

    /// The (natural) minor key on `root`: the classes 0, 2, 3, 5, 7, 8 and 10
    /// semitones above it.
    pub fn minor(root: NoteClass) -> (r: NoteKey)
        ensures
            r.wf(),
            r.is_scale(root, minor_offsets()),
    {
        proof {
            lemma_shift_distinct(root);
            lemma_offsets_contain();
        }
        let base = Self::major(root);
        let k1 = base.without_note(root.shift(4)).with_note(root.shift(3));
        let k2 = k1.without_note(root.shift(9)).with_note(root.shift(8));
        let k3 = k2.without_note(root.shift(11)).with_note(root.shift(10));
        proof {
            assert forall|off: int| 0 <= off < 12 implies (#[trigger] k3.has_offset(off)
                <==> minor_offsets().contains(off)) by {
                let c = root.shifted(off);
                assert(base.has_offset(off) <==> major_offsets().contains(off));
                assert(k1.has(c) <==> (c == root.shifted(3) || (c != root.shifted(4) && base.has(
                    c,
                ))));
                assert(k2.has(c) <==> (c == root.shifted(8) || (c != root.shifted(9) && k1.has(
                    c,
                ))));
                assert(k3.has(c) <==> (c == root.shifted(10) || (c != root.shifted(11) && k2.has(
                    c,
                ))));
            }
        }
        k3
    }

    /// Whether the two keys hold the same classes, whatever their roots.
    pub fn equivalent(&self, other: &NoteKey) -> (r: bool)
        ensures
            r <==> forall|c: NoteClass| self.has(c) <==> other.has(c),
    {
        let self_notes: u16 = self.notes_with_root & 0x0FFF;
        let other_notes: u16 = other.notes_with_root & 0x0FFF;
        proof {
            if self_notes == other_notes {
                assert forall|c: NoteClass| self.has(c) <==> other.has(c) by {
                    lemma_same_low_bits(
                        self.notes_with_root,
                        other.notes_with_root,
                        c.index() as u16,
                    );
                }
            } else {
                lemma_differing_low_bit(self.notes_with_root, other.notes_with_root);
                let j = choose|j: u16|
                    j < 12 && (bit_is_set(self.notes_with_root, j) != bit_is_set(
                        other.notes_with_root,
                        j,
                    ));
                let c = NoteClass::from_index(j as int);
                assert(c.index() == j);
                assert(self.has(c) != other.has(c));
            }
        }
        self_notes == other_notes
    }

    /// The key's root class.
    pub fn root(&self) -> (r: NoteClass)
        ensures
            r == self.root_class(),
    {
        let raw_root: u16 = (self.notes_with_root & 0xF000) >> 12;
        proof {
            lemma_root_field(self.notes_with_root);
        }
        NoteClass::from_u8(raw_root as u8)
    }

    /// Whether the class `note` belongs to the key.
    pub fn contains(&self, note: NoteClass) -> (r: bool)
        ensures
            r == self.has(note),
    {
        let raw: u8 = note.as_u8();
        let mask: u16 = 1u16 << (raw as u16);
        proof {
            lemma_test_bit(self.notes_with_root, raw as u16);
        }
        self.notes_with_root & mask != 0
    }

    /// The number of classes in the key.
    pub fn len(&self) -> (r: usize)
        ensures
            r == self.size(),
            1 <= r <= 12,
    {
        proof {
            use_type_invariant(self);
        }
        let root = self.root();
        let mut count: usize = 0;
        let mut off: i8 = 0;
        while off < 12
            invariant
                0 <= off <= 12,
                root == self.root_class(),
                count <= off,
                count + self.count_from(off as int) == self.count_from(0),
                off > 0 ==> count >= 1,
                self.wf(),
            decreases 12 - off,
        {
            proof {
                if off == 0 {
                    assert(root.shifted(0) == root);
                }
            }
            if self.contains(root.shift(off)) {
                count = count + 1;
            }
            off = off + 1;
        }
        count
    }

    /// The class at place `keystep` of the key: place 0 is the root, the
    /// places count the key's classes upward, and they wrap round at the
    /// key's size, for negative places too.
    pub fn nth(&self, keystep: isize) -> (r: NoteClass)
        ensures
            r == self.nth_class(keystep as int),
    {
        let n: isize = self.len() as isize;
        let target: isize = if keystep >= 0 {
            keystep % n
        } else {
            let back: isize = (-(keystep + 1)) % n;
            proof {
                let y = -(keystep + 1) as int;
                lemma_fundamental_div_mod(y, n as int);
                let q = y / (n as int);
                assert(keystep as int == (-q - 1) * n + (n - 1 - back)) by (nonlinear_arith)
                    requires
                        y == n * q + back,
                        y == -(keystep + 1),
                ;
                lemma_fundamental_div_mod_converse(
                    keystep as int,
                    n as int,
                    -q - 1,
                    n - 1 - back,
                );
            }
            n - 1 - back
        };
        assert(target == (keystep as int) % (self.size() as int));
        let root = self.root();
        let mut seen: isize = 0;
        let mut off: i8 = 0;
        while off < 12
            invariant
                0 <= off <= 12,
                0 <= seen <= target,
                root == self.root_class(),
                target < self.size(),
                seen + self.count_from(off as int) == self.count_from(0),
                self.offset_after(target as nat, 0) == self.offset_after(
                    (target - seen) as nat,
                    off as int,
                ),
                target == (keystep as int) % (self.size() as int),
            decreases 12 - off,
        {
            if self.contains(root.shift(off)) {
                if seen == target {
                    return root.shift(off);
                }
                seen = seen + 1;
            }
            off = off + 1;
        }
        proof {
            assert(false);
        }
        root
    }
}

proof fn lemma_same_low_bits(a: u16, b: u16, j: u16)
    by (bit_vector)
    requires
        (a & 0x0FFF) == (b & 0x0FFF),
        j < 12,
    ensures
        bit_is_set(a, j) <==> bit_is_set(b, j),
{
}

proof fn lemma_differing_low_bit(a: u16, b: u16)
    by (bit_vector)
    requires
        (a & 0x0FFF) != (b & 0x0FFF),
    ensures
        bit_is_set(a, 0) != bit_is_set(b, 0) || bit_is_set(a, 1) != bit_is_set(b, 1) || bit_is_set(
            a,
            2,
        ) != bit_is_set(b, 2) || bit_is_set(a, 3) != bit_is_set(b, 3) || bit_is_set(a, 4)
            != bit_is_set(b, 4) || bit_is_set(a, 5) != bit_is_set(b, 5) || bit_is_set(a, 6)
            != bit_is_set(b, 6) || bit_is_set(a, 7) != bit_is_set(b, 7) || bit_is_set(a, 8)
            != bit_is_set(b, 8) || bit_is_set(a, 9) != bit_is_set(b, 9) || bit_is_set(a, 10)
            != bit_is_set(b, 10) || bit_is_set(a, 11) != bit_is_set(b, 11),
{
}

/// Two classes with one index are one class.
pub proof fn lemma_index_injective(a: NoteClass, b: NoteClass)
    ensures
        a.index() == b.index() <==> a == b,
        0 <= a.index() < 12,
        NoteClass::from_index(a.index()) == a,
{
}

/// The twelve shifts of a class within one octave are twelve different
/// classes.
pub proof fn lemma_shift_distinct(root: NoteClass)
    ensures
        forall|a: int, b: int|
            0 <= a < 12 && 0 <= b < 12 && #[trigger] root.shifted(a) == #[trigger] root.shifted(b)
                ==> a == b,
        root.shifted(0) == root,
{
    assert forall|a: int, b: int|
        0 <= a < 12 && 0 <= b < 12 && #[trigger] root.shifted(a) == #[trigger] root.shifted(
            b,
        ) implies a == b by {
        assert(root.shifted(a).index() == (root.index() + a) % 12);
        assert(root.shifted(b).index() == (root.index() + b) % 12);
    }
}

proof fn lemma_offsets_contain()
    ensures
        forall|off: int| #[trigger]
            major_offsets().contains(off) <==> (off == 0 || off == 2 || off == 4 || off == 5 || off
                == 7 || off == 9 || off == 11),
        forall|off: int| #[trigger]
            minor_offsets().contains(off) <==> (off == 0 || off == 2 || off == 3 || off == 5 || off
                == 7 || off == 8 || off == 10),
{
    let ma = major_offsets();
    let mi = minor_offsets();
    assert(ma[0] == 0 && ma[1] == 2 && ma[2] == 4 && ma[3] == 5 && ma[4] == 7 && ma[5] == 9
        && ma[6] == 11);
    assert(mi[0] == 0 && mi[1] == 2 && mi[2] == 3 && mi[3] == 5 && mi[4] == 7 && mi[5] == 8
        && mi[6] == 10);
}

/// Every class lies at exactly one offset within the octave above a root: at
/// `class_offset(root, c)`.
pub open spec fn class_offset(root: NoteClass, c: NoteClass) -> int {
    (c.index() - root.index()) % 12
}

/// `class_offset` undoes `shifted`.
pub proof fn lemma_class_offset(root: NoteClass, c: NoteClass)
    ensures
        0 <= class_offset(root, c) < 12,
        root.shifted(class_offset(root, c)) == c,
{
    lemma_index_injective(root.shifted(class_offset(root, c)), c);
}

/// A key whose classes lie at the major or the minor offsets above its root
/// has seven classes.
pub proof fn lemma_scale_size(key: NoteKey, root: NoteClass)
    requires
        key.is_scale(root, major_offsets()) || key.is_scale(root, minor_offsets()),
    ensures
        key.size() == 7,
{
    lemma_offsets_contain();
    reveal_with_fuel(NoteKey::count_from, 13);
    assert(key.has_offset(0) && key.has_offset(2) && key.has_offset(7));
    assert(!key.has_offset(1) && !key.has_offset(6));
    if key.is_scale(root, major_offsets()) {
        assert(key.has_offset(4) && key.has_offset(5) && key.has_offset(9) && key.has_offset(11));
        assert(!key.has_offset(3) && !key.has_offset(8) && !key.has_offset(10));
    } else {
        assert(key.has_offset(3) && key.has_offset(5) && key.has_offset(8) && key.has_offset(10));
        assert(!key.has_offset(4) && !key.has_offset(9) && !key.has_offset(11));
    }
}

/// In a major key the class at place `k` lies `major_offsets()[k mod 7]`
/// semitones above the root.
pub proof fn lemma_major_nth(key: NoteKey, root: NoteClass, k: int)
    requires
        key.is_scale(root, major_offsets()),
    ensures
        key.nth_class(k) == root.shifted(major_offsets()[k % 7]),
{
    lemma_offsets_contain();
    lemma_scale_size(key, root);
    reveal_with_fuel(NoteKey::offset_after, 13);
    assert(key.has_offset(0) && key.has_offset(2) && key.has_offset(7));
    assert(!key.has_offset(1) && !key.has_offset(6));
    assert(key.has_offset(4) && key.has_offset(5) && key.has_offset(9) && key.has_offset(11));
    assert(!key.has_offset(3) && !key.has_offset(8) && !key.has_offset(10));
    let m = k % 7;
    assert(key.offset_after(m as nat, 0) == major_offsets()[m]);
}

/// In a minor key the class at place `k` lies `minor_offsets()[k mod 7]`
/// semitones above the root.
pub proof fn lemma_minor_nth(key: NoteKey, root: NoteClass, k: int)
    requires
        key.is_scale(root, minor_offsets()),
    ensures
        key.nth_class(k) == root.shifted(minor_offsets()[k % 7]),
{
    lemma_offsets_contain();
    lemma_scale_size(key, root);
    reveal_with_fuel(NoteKey::offset_after, 13);
    assert(key.has_offset(0) && key.has_offset(2) && key.has_offset(7));
    assert(!key.has_offset(1) && !key.has_offset(6));
    assert(key.has_offset(3) && key.has_offset(5) && key.has_offset(8) && key.has_offset(10));
    assert(!key.has_offset(4) && !key.has_offset(9) && !key.has_offset(11));
    let m = k % 7;
    assert(key.offset_after(m as nat, 0) == minor_offsets()[m]);
}

/// The major key on a root holds exactly the seven classes that lie 0, 2, 4,
/// 5, 7, 9 and 11 semitones above the root, and reports that root.
pub proof fn lemma_major_classes(key: NoteKey, root: NoteClass, c: NoteClass)
    requires
        key.is_scale(root, major_offsets()),
    ensures
        key.root_class() == root,
        key.size() == 7,
        key.has(c) <==> (c == root || c == root.shifted(2) || c == root.shifted(4) || c
            == root.shifted(5) || c == root.shifted(7) || c == root.shifted(9) || c
            == root.shifted(11)),
{
    lemma_offsets_contain();
    lemma_scale_size(key, root);
    lemma_shift_distinct(root);
    lemma_class_offset(root, c);
    assert(key.has_offset(class_offset(root, c)) == key.has(c));
    assert(key.has_offset(0) && key.has_offset(2) && key.has_offset(4) && key.has_offset(5)
        && key.has_offset(7) && key.has_offset(9) && key.has_offset(11));
}

proof fn lemma_has_by_offset(key: NoteKey, c: NoteClass)
    ensures
        0 <= class_offset(key.root_class(), c) < 12,
        key.has(c) == key.has_offset(class_offset(key.root_class(), c)),
{
    lemma_class_offset(key.root_class(), c);
}

proof fn lemma_offset_three_up(ri: int, ci: int)
    requires
        0 <= ri < 12,
        0 <= ci < 12,
    ensures
        (ci - (ri + 3) % 12) % 12 == if (ci - ri) % 12 >= 3 {
            (ci - ri) % 12 - 3
        } else {
            (ci - ri) % 12 + 9
        },
{
}

proof fn lemma_shifted_index(root: NoteClass, off: int)
    ensures
        root.shifted(off).index() == (root.index() + off) % 12,
{
}

/// The minor key on a root holds the same classes as the major key on the
/// class three semitones above that root (its relative major), and reports
/// its own root.
pub proof fn lemma_minor_relative_major(minor: NoteKey, major: NoteKey, root: NoteClass)
    requires
        minor.is_scale(root, minor_offsets()),
        major.is_scale(root.shifted(3), major_offsets()),
    ensures
        minor.root_class() == root,
        forall|c: NoteClass| minor.has(c) <==> major.has(c),
{
    lemma_offsets_contain();
    let up = root.shifted(3);
    lemma_shifted_index(root, 3);
    lemma_index_injective(root, root);
    assert forall|c: NoteClass| minor.has(c) <==> major.has(c) by {
        lemma_has_by_offset(minor, c);
        lemma_has_by_offset(major, c);
        lemma_index_injective(c, c);
        lemma_offset_three_up(root.index(), c.index());
        let a = class_offset(root, c);
        let b = class_offset(up, c);
        assert(b == if a >= 3 {
            a - 3
        } else {
            a + 9
        });
        assert(minor.has_offset(a) <==> minor_offsets().contains(a));
        assert(major.has_offset(b) <==> major_offsets().contains(b));
    }
}

pub broadcast group group_octave {
    Octave::lemma_of_value,
    Octave::lemma_value_of,
}

} // verus!
