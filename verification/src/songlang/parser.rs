//! The parser of the song language.

use crate::control::first_mark;
use crate::control::is_whitespace;
use crate::songlang::ast::item_view;
use crate::songlang::ast::items_view;
use crate::songlang::ast::ItemView;
use crate::songlang::ast::LangItem;
use crate::utils::NonZeroU16;
use commands::asm_command_at;
use playcmd::pressline_at;
use vstd::prelude::*;
use vstd::string::StrSliceExecFns;
use vstd::string::StringExecFns;

pub mod commands;
pub mod playcmd;
pub mod values;

pub use playcmd::parse_pressline;

pub use commands::consume_commalist_seperator;
pub use commands::parse_asm_command;
pub use commands::parse_midimsg;
pub use commands::parse_noteoff;
pub use commands::parse_noteon;
pub use commands::parse_outputlabel;
pub use commands::parse_rawlabel;

pub use values::parse_channel;
pub use values::parse_chordkind;
pub use values::parse_fullchord;
pub use values::parse_noteclass;
pub use values::parse_notepitch;
pub use values::parse_octave;
pub use values::parse_rawduration;
pub use values::parse_velocity;

verus! {

broadcast use vstd::string::group_string_axioms;

/// A text to parse, with its characters laid out for reading by place.
pub struct Source<'a> {
    text: &'a str,
    chars: Vec<char>,
}

impl<'a> View for Source<'a> {
    type V = Seq<char>;

    closed spec fn view(&self) -> Seq<char> {
        self.text@
    }
}

impl<'a> Source<'a> {
    /// Whether the characters laid out are those of the text.
    pub closed spec fn wf(&self) -> bool {
        self.chars@ == self.text@
    }

    /// Lays out the characters of `text`.
    pub fn new(text: &'a str) -> (r: Self)
        ensures
            r.wf(),
            r@ == text@,
    {
        let mut chars: Vec<char> = Vec::new();
        for c in it: text.chars()
            invariant
                it.seq() == text@,
                chars@.len() == it.index(),
                forall|j: int| 0 <= j < chars@.len() ==> chars@[j] == it.seq()[j],
                it.index() == it.seq().len() ==> chars@ =~= text@,
        {
            chars.push(c);
        }
        Source { text, chars }
    }

    /// The number of characters.
    pub fn len(&self) -> (r: usize)
        requires
            self.wf(),
        ensures
            r == self@.len(),
    {
        self.chars.len()
    }

    /// The character at place `i`.
    pub fn at(&self, i: usize) -> (r: char)
        requires
            self.wf(),
            i < self@.len(),
        ensures
            r == self@[i as int],
    {
        self.chars[i]
    }

    /// The characters from place `from` up to place `to`, as a string.
    pub fn slice(&self, from: usize, to: usize) -> (r: String)
        requires
            self.wf(),
            from <= to <= self@.len(),
        ensures
            r@ == self@.subrange(from as int, to as int),
    {
        String::from_str(self.text.substring_char(from, to))
    }
}

/// What an attempt to read something at a place of a text came to.
#[derive(Debug, Clone, PartialEq, Eq)]
pub enum Parsed<T> {
    /// The thing was read; the text goes on at the place given.
    Done(T, usize),
    /// The text holds no such thing at that place.
    Miss,
    /// The text is broken in a way that no other reading can mend: a
    /// comment was opened and not closed on its line.
    Fatal,
}

/// The classes of character that the language tells apart.
#[derive(Debug, Copy, Clone, PartialEq, Eq, Structural)]
pub enum CharClass {
    /// A space or a tab.
    Blank,
    /// A space, a tab, a carriage return or a line feed.
    Space,
    /// One of the ten digits.
    Digit,
    /// One of the letters `a` to `z` and `A` to `Z`.
    Alpha,
    /// A digit or one of these letters.
    AlphaNum,
    /// Any character but a carriage return and a line feed.
    LineText,
}

/// Whether the character `c` belongs to `class`.
pub open spec fn in_class(class: CharClass, c: char) -> bool {
    match class {
        CharClass::Blank => c == ' ' || c == '\t',
        CharClass::Space => c == ' ' || c == '\t' || c == '\r' || c == '\n',
        CharClass::Digit => 48 <= c as u32 <= 57,
        CharClass::Alpha => 65 <= c as u32 <= 90 || 97 <= c as u32 <= 122,
        CharClass::AlphaNum => 48 <= c as u32 <= 57 || 65 <= c as u32 <= 90 || 97 <= c as u32
            <= 122,
        CharClass::LineText => c != '\r' && c != '\n',
    }
}

/// Whether the character `c` belongs to `class`.
pub fn is_in_class(class: CharClass, c: char) -> (r: bool)
    ensures
        r == in_class(class, c),
{
    let n: u32 = c as u32;
    match class {
        CharClass::Blank => c == ' ' || c == '\t',
        CharClass::Space => c == ' ' || c == '\t' || c == '\r' || c == '\n',
        CharClass::Digit => 48 <= n && n <= 57,
        CharClass::Alpha => (65 <= n && n <= 90) || (97 <= n && n <= 122),
        CharClass::AlphaNum => (48 <= n && n <= 57) || (65 <= n && n <= 90) || (97 <= n && n
            <= 122),
        CharClass::LineText => c != '\r' && c != '\n',
    }
}

/// The place at which the run of characters of `class` that starts at place
/// `pos` ends: the place of the first character from `pos` on that is not of
/// the class, or the end of the text.
pub open spec fn run_end(s: Seq<char>, pos: int, class: CharClass) -> int
    decreases s.len() - pos,
{
    if 0 <= pos < s.len() && in_class(class, s[pos]) {
        run_end(s, pos + 1, class)
    } else {
        pos
    }
}

/// Every character of a run is of the run's class, and the character after
/// the run, if there is one, is not.
pub proof fn lemma_run_members(s: Seq<char>, pos: int, class: CharClass)
    requires
        0 <= pos <= s.len(),
    ensures
        forall|j: int| pos <= j < run_end(s, pos, class) ==> in_class(class, #[trigger] s[j]),
        run_end(s, pos, class) < s.len() ==> !in_class(class, s[run_end(s, pos, class)]),
    decreases s.len() - pos,
{
    if pos < s.len() && in_class(class, s[pos]) {
        lemma_run_members(s, pos + 1, class);
    }
}

/// The number that a letter stands for when capitals and small letters count
/// alike: that of the small letter.
pub open spec fn folded(c: char) -> u32 {
    if 65 <= c as u32 <= 90 {
        (c as u32 + 32) as u32
    } else {
        c as u32
    }
}

/// Whether the text holds the word `tag` at place `pos`, letter for letter.
pub open spec fn has_tag(s: Seq<char>, pos: int, tag: Seq<char>) -> bool {
    &&& 0 <= pos
    &&& pos + tag.len() <= s.len()
    &&& forall|i: int| 0 <= i < tag.len() ==> s[pos + i] == #[trigger] tag[i]
}

/// Whether the text holds the word `tag` at place `pos`, where capitals and
/// small letters count alike.
pub open spec fn has_tag_no_case(s: Seq<char>, pos: int, tag: Seq<char>) -> bool {
    &&& 0 <= pos
    &&& pos + tag.len() <= s.len()
    &&& forall|i: int| 0 <= i < tag.len() ==> folded(s[pos + i]) == folded(#[trigger] tag[i])
}

/// The number that the digits from place `from` up to place `to` spell.
pub open spec fn digits_value(s: Seq<char>, from: int, to: int) -> nat
    decreases to - from,
{
    if to <= from || to > s.len() || from < 0 {
        0
    } else {
        (digits_value(s, from, to - 1) * 10 + (s[to - 1] as u32 - 48)) as nat
    }
}

/// The number at place `pos`: the digits there spell it. There is none where
/// no digit stands there, or where the number is above `max`.
pub open spec fn number_at(s: Seq<char>, pos: int, max: nat) -> Parsed<u64> {
    let end = run_end(s, pos, CharClass::Digit);
    if end <= pos || digits_value(s, pos, end) > max || max > u64::MAX {
        Parsed::Miss
    } else {
        Parsed::Done(digits_value(s, pos, end) as u64, end as usize)
    }
}

/// The count at place `pos`: a number from 1 to 65535.
pub open spec fn count_at(s: Seq<char>, pos: int) -> Parsed<NonZeroU16> {
    match number_at(s, pos, 65535) {
        Parsed::Done(n, end) => if n == 0 {
            Parsed::Miss
        } else {
            Parsed::Done(NonZeroU16::of(n as int), end)
        },
        Parsed::Miss => Parsed::Miss,
        Parsed::Fatal => Parsed::Fatal,
    }
}

impl<'a> Source<'a> {
    /// The end of the run of characters of `class` that starts at `pos`.
    pub fn skip(&self, pos: usize, class: CharClass) -> (r: usize)
        requires
            self.wf(),
            pos <= self@.len(),
        ensures
            r == run_end(self@, pos as int, class),
            pos <= r <= self@.len(),
    {
        let n = self.len();
        let mut i = pos;
        while i < n && is_in_class(class, self.at(i))
            invariant
                self.wf(),
                pos <= i <= n,
                n == self@.len(),
                run_end(self@, pos as int, class) == run_end(self@, i as int, class),
            decreases n - i,
        {
            i = i + 1;
        }
        i
    }

    /// Whether the word `tag` stands at place `pos`, letter for letter; if
    /// so, the place after it.
    pub fn tag(&self, pos: usize, tag: &str) -> (r: Option<usize>)
        requires
            self.wf(),
            pos <= self@.len(),
        ensures
            r == if has_tag(self@, pos as int, tag@) {
                Some((pos + tag@.len()) as usize)
            } else {
                None
            },
            r matches Some(p) ==> p == pos + tag@.len() && p <= self@.len(),
            self@.len() <= usize::MAX,
    {
        let m = tag.unicode_len();
        let n = self.len();
        if m > n - pos {
            return None;
        }
        let mut i: usize = 0;
        while i < m
            invariant
                self.wf(),
                i <= m,
                m == tag@.len(),
                n == self@.len(),
                pos + m <= n,
                forall|j: int| 0 <= j < i ==> self@[pos + j] == #[trigger] tag@[j],
            decreases m - i,
        {
            if self.at(pos + i) != tag.get_char(i) {
                return None;
            }
            i = i + 1;
        }
        Some(pos + m)
    }

    /// Whether the word `tag` stands at place `pos`, where capitals and small
    /// letters count alike; if so, the place after it.
    pub fn tag_no_case(&self, pos: usize, tag: &str) -> (r: Option<usize>)
        requires
            self.wf(),
            pos <= self@.len(),
        ensures
            r == if has_tag_no_case(self@, pos as int, tag@) {
                Some((pos + tag@.len()) as usize)
            } else {
                None
            },
            r matches Some(p) ==> p == pos + tag@.len() && p <= self@.len(),
            self@.len() <= usize::MAX,
    {
        let m = tag.unicode_len();
        let n = self.len();
        if m > n - pos {
            return None;
        }
        let mut i: usize = 0;
        while i < m
            invariant
                self.wf(),
                i <= m,
                m == tag@.len(),
                n == self@.len(),
                pos + m <= n,
                forall|j: int|
                    0 <= j < i ==> folded(self@[pos + j]) == folded(#[trigger] tag@[j]),
            decreases m - i,
        {
            if fold(self.at(pos + i)) != fold(tag.get_char(i)) {
                return None;
            }
            i = i + 1;
        }
        Some(pos + m)
    }

    /// The number at place `pos`, if one stands there that is not above
    /// `max`.
    pub fn number(&self, pos: usize, max: u64) -> (r: Parsed<u64>)
        requires
            self.wf(),
            pos <= self@.len(),
        ensures
            r == number_at(self@, pos as int, max as nat),
            r matches Parsed::Done(n, end) ==> n <= max && pos < end <= self@.len(),
    {
        let end = self.skip(pos, CharClass::Digit);
        if end == pos {
            return Parsed::Miss;
        }
        proof {
            lemma_run_members(self@, pos as int, CharClass::Digit);
        }
        let mut value: u64 = 0;
        let mut i = pos;
        while i < end
            invariant
                self.wf(),
                pos <= i <= end <= self@.len(),
                value == digits_value(self@, pos as int, i as int),
                value <= max,
                end == run_end(self@, pos as int, CharClass::Digit),
                forall|j: int| pos <= j < end ==> in_class(CharClass::Digit, #[trigger] self@[j]),
            decreases end - i,
        {
            assert(in_class(CharClass::Digit, self@[i as int]));
            let digit: u64 = (self.at(i) as u32 - 48) as u64;
            if digit > max || value > (max - digit) / 10 {
                proof {
                    assert(digits_value(self@, pos as int, i as int + 1) == value * 10 + digit);
                    lemma_digits_grow(self@, pos as int, i as int + 1, end as int);
                }
                return Parsed::Miss;
            }
            value = value * 10 + digit;
            i = i + 1;
        }
        Parsed::Done(value, end)
    }

    /// The count at place `pos`: a number from 1 to 65535.
    pub fn nonzerou16(&self, pos: usize) -> (r: Parsed<NonZeroU16>)
        requires
            self.wf(),
            pos <= self@.len(),
        ensures
            r == count_at(self@, pos as int),
            r matches Parsed::Done(n, end) ==> pos < end <= self@.len(),
    {
        match self.number(pos, 65535) {
            Parsed::Done(n, end) => match NonZeroU16::new(n as u16) {
                Some(count) => Parsed::Done(count, end),
                None => Parsed::Miss,
            },
            Parsed::Miss => Parsed::Miss,
            Parsed::Fatal => Parsed::Fatal,
        }
    }
}

/// The number that a letter stands for when capitals and small letters count
/// alike.
pub fn fold(c: char) -> (r: u32)
    ensures
        r == folded(c),
{
    let n: u32 = c as u32;
    if 65 <= n && n <= 90 {
        n + 32
    } else {
        n
    }
}

/// More digits spell no smaller a number.
pub proof fn lemma_digits_grow(s: Seq<char>, from: int, mid: int, to: int)
    requires
        0 <= from <= mid <= to <= s.len(),
        forall|j: int| from <= j < to ==> in_class(CharClass::Digit, #[trigger] s[j]),
    ensures
        digits_value(s, from, mid) <= digits_value(s, from, to),
    decreases to - mid,
{
    if mid < to {
        lemma_digits_grow(s, from, mid, to - 1);
    }
}

/// The place after the word `tag` at place `pos`, if the word stands there
/// letter for letter.
pub open spec fn after_tag(s: Seq<char>, pos: int, tag: Seq<char>) -> Option<usize> {
    if has_tag(s, pos, tag) {
        Some((pos + tag.len()) as usize)
    } else {
        None
    }
}

/// The place after the word `tag` at place `pos`, if the word stands there,
/// where capitals and small letters count alike.
pub open spec fn after_tag_no_case(s: Seq<char>, pos: int, tag: Seq<char>) -> Option<usize> {
    if has_tag_no_case(s, pos, tag) {
        Some((pos + tag.len()) as usize)
    } else {
        None
    }
}

/// The place after the end of line at place `pos`, if one stands there: a
/// line feed, or a carriage return and a line feed.
pub open spec fn after_line_ending(s: Seq<char>, pos: int) -> Option<usize> {
    match after_tag(s, pos, "\n"@) {
        Some(p) => Some(p),
        None => after_tag(s, pos, "\r\n"@),
    }
}

/// The place at which the body of an inline comment ends that is looked for
/// from place `pos` on: the first place where the text ends, or where the
/// closing mark or an end of line stands.
pub open spec fn comment_body_end(s: Seq<char>, pos: int) -> int
    decreases s.len() - pos,
{
    if pos < 0 || pos >= s.len() || has_tag(s, pos, "*/"@) || after_line_ending(s, pos) is Some {
        pos
    } else {
        comment_body_end(s, pos + 1)
    }
}

/// The inline comment at place `pos`: it opens with `/*` and closes with
/// `*/` on the same line. One that is opened and not closed there breaks the
/// text. (The `*` of the opening mark may serve the closing mark too.)
pub open spec fn comment_inline_at(s: Seq<char>, pos: int) -> Parsed<()> {
    if after_tag(s, pos, "/*"@) is None {
        Parsed::Miss
    } else {
        match after_tag(s, comment_body_end(s, pos + 1), "*/"@) {
            Some(p) => Parsed::Done((), p),
            None => Parsed::Fatal,
        }
    }
}

/// The comment to the end of the line at place `pos`: it opens with `#` or
/// `//` and runs up to the end of line, which belongs to it, or up to the
/// end of the text. There is none where the line holds a carriage return
/// that no line feed follows.
pub open spec fn comment_fullline_at(s: Seq<char>, pos: int) -> Parsed<()> {
    let opened = match after_tag(s, pos, "#"@) {
        Some(p) => Some(p),
        None => after_tag(s, pos, "//"@),
    };
    match opened {
        None => Parsed::Miss,
        Some(start) => {
            let body = run_end(s, start as int, CharClass::LineText);
            match after_line_ending(s, body) {
                Some(p) => Parsed::Done((), p),
                None => if body >= s.len() {
                    Parsed::Done((), body as usize)
                } else {
                    Parsed::Miss
                },
            }
        },
    }
}

/// The comment at place `pos`, of either kind.
pub open spec fn comment_at(s: Seq<char>, pos: int) -> Parsed<()> {
    match comment_inline_at(s, pos) {
        Parsed::Miss => comment_fullline_at(s, pos),
        other => other,
    }
}

/// The place after the inline comments that stand one after the other from
/// place `pos` on.
pub open spec fn inline_comments_end(s: Seq<char>, pos: int) -> Parsed<()>
    decreases s.len() - pos,
{
    match comment_inline_at(s, pos) {
        Parsed::Done(_, p) => if pos < p <= s.len() {
            inline_comments_end(s, p as int)
        } else {
            Parsed::Miss
        },
        Parsed::Miss => Parsed::Done((), pos as usize),
        Parsed::Fatal => Parsed::Fatal,
    }
}

/// The place after the comments of either kind that stand one after the
/// other from place `pos` on.
pub open spec fn comments_end(s: Seq<char>, pos: int) -> Parsed<()>
    decreases s.len() - pos,
{
    match comment_at(s, pos) {
        Parsed::Done(_, p) => if pos < p <= s.len() {
            comments_end(s, p as int)
        } else {
            Parsed::Miss
        },
        Parsed::Miss => Parsed::Done((), pos as usize),
        Parsed::Fatal => Parsed::Fatal,
    }
}

/// The place after the blanks at place `pos`, of which there may be none.
pub open spec fn space0_at(s: Seq<char>, pos: int) -> Parsed<()> {
    Parsed::Done((), run_end(s, pos, CharClass::Blank) as usize)
}

/// The place after the gap within a line at place `pos`: inline comments,
/// of which there may be none, then at least one blank.
pub open spec fn space1_at(s: Seq<char>, pos: int) -> Parsed<()> {
    match inline_comments_end(s, pos) {
        Parsed::Done(_, p) => {
            let end = run_end(s, p as int, CharClass::Blank);
            if end > p {
                Parsed::Done((), end as usize)
            } else {
                Parsed::Miss
            }
        },
        other => other,
    }
}

/// The place after the white space and the comments that stand from place
/// `pos` on, of which there may be none.
pub open spec fn multispace0_at(s: Seq<char>, pos: int) -> Parsed<()>
    decreases s.len() - pos,
{
    let spaces = run_end(s, pos, CharClass::Space);
    if pos < spaces <= s.len() {
        multispace0_at(s, spaces)
    } else {
        match comment_at(s, pos) {
            Parsed::Done(_, p) => if pos < p <= s.len() {
                match comments_end(s, p as int) {
                    Parsed::Done(_, q) => if pos < q <= s.len() {
                        multispace0_at(s, q as int)
                    } else {
                        Parsed::Done((), pos as usize)
                    },
                    Parsed::Miss => Parsed::Done((), pos as usize),
                    Parsed::Fatal => Parsed::Fatal,
                }
            } else {
                Parsed::Done((), pos as usize)
            },
            Parsed::Miss => Parsed::Done((), pos as usize),
            Parsed::Fatal => Parsed::Fatal,
        }
    }
}

/// The place after the gap between two items at place `pos`: blanks, then a
/// comment to the end of the line or at least one character of white space,
/// then white space and comments.
pub open spec fn multispace1_at(s: Seq<char>, pos: int) -> Parsed<()> {
    let blanks = run_end(s, pos, CharClass::Blank);
    match comment_fullline_at(s, blanks) {
        Parsed::Done(_, p) => multispace0_at(s, run_end(s, p as int, CharClass::Space)),
        _ => {
            let spaces = run_end(s, blanks, CharClass::Space);
            if spaces > blanks {
                multispace0_at(s, spaces)
            } else {
                Parsed::Miss
            }
        },
    }
}

impl<'a> Source<'a> {
    /// The place after the end of line at place `pos`, if one stands there.
    pub fn line_ending(&self, pos: usize) -> (r: Option<usize>)
        requires
            self.wf(),
            pos <= self@.len(),
        ensures
            r == after_line_ending(self@, pos as int),
    {
        match self.tag(pos, "\n") {
            Some(p) => Some(p),
            None => self.tag(pos, "\r\n"),
        }
    }

    /// The inline comment at place `pos`.
    pub fn parse_comment_inline(&self, pos: usize) -> (r: Parsed<()>)
        requires
            self.wf(),
            pos <= self@.len(),
        ensures
            r == comment_inline_at(self@, pos as int),
            r matches Parsed::Done(_, p) ==> pos < p <= self@.len(),
    {
        if self.tag(pos, "/*").is_none() {
            return Parsed::Miss;
        }
        proof {
            reveal_strlit("/*");
            reveal_strlit("*/");
        }
        let n = self.len();
        let mut idx = pos + 1;
        while idx < n && self.tag(idx, "*/").is_none() && self.line_ending(idx).is_none()
            invariant
                self.wf(),
                pos < idx <= n,
                n == self@.len(),
                comment_body_end(self@, pos + 1) == comment_body_end(self@, idx as int),
            decreases n - idx,
        {
            idx = idx + 1;
        }
        match self.tag(idx, "*/") {
            Some(p) => Parsed::Done((), p),
            None => Parsed::Fatal,
        }
    }

    /// The comment to the end of the line at place `pos`.
    pub fn parse_comment_fullline(&self, pos: usize) -> (r: Parsed<()>)
        requires
            self.wf(),
            pos <= self@.len(),
        ensures
            r == comment_fullline_at(self@, pos as int),
            r matches Parsed::Done(_, p) ==> pos < p <= self@.len(),
    {
        let opened = match self.tag(pos, "#") {
            Some(p) => Some(p),
            None => self.tag(pos, "//"),
        };
        proof {
            reveal_strlit("#");
            reveal_strlit("//");
            reveal_strlit("\n");
            reveal_strlit("\r\n");
        }
        match opened {
            None => Parsed::Miss,
            Some(start) => {

                let body = self.skip(start, CharClass::LineText);
                match self.line_ending(body) {
                    Some(p) => Parsed::Done((), p),
                    None => if body >= self.len() {
                        Parsed::Done((), body)
                    } else {
                        Parsed::Miss
                    },
                }
            },
        }
    }

    /// The comment at place `pos`, of either kind.
    pub fn parse_comment(&self, pos: usize) -> (r: Parsed<()>)
        requires
            self.wf(),
            pos <= self@.len(),
        ensures
            r == comment_at(self@, pos as int),
            r matches Parsed::Done(_, p) ==> pos < p <= self@.len(),
    {
        match self.parse_comment_inline(pos) {
            Parsed::Miss => self.parse_comment_fullline(pos),
            other => other,
        }
    }

    /// The place after the inline comments from place `pos` on.
    pub fn inline_comments(&self, pos: usize) -> (r: Parsed<()>)
        requires
            self.wf(),
            pos <= self@.len(),
        ensures
            r == inline_comments_end(self@, pos as int),
            r matches Parsed::Done(_, p) ==> pos <= p <= self@.len(),
    {
        let n = self.len();
        let mut i = pos;
        loop
            invariant
                self.wf(),
                pos <= i <= n,
                n == self@.len(),
                inline_comments_end(self@, pos as int) == inline_comments_end(self@, i as int),
            decreases n - i,
        {
            match self.parse_comment_inline(i) {
                Parsed::Done(_, p) => {
                    i = p;
                },
                Parsed::Miss => {
                    return Parsed::Done((), i);
                },
                Parsed::Fatal => {
                    return Parsed::Fatal;
                },
            }
        }
    }

    /// The place after the comments of either kind from place `pos` on.
    pub fn comments(&self, pos: usize) -> (r: Parsed<()>)
        requires
            self.wf(),
            pos <= self@.len(),
        ensures
            r == comments_end(self@, pos as int),
            r matches Parsed::Done(_, p) ==> pos <= p <= self@.len(),
    {
        let n = self.len();
        let mut i = pos;
        loop
            invariant
                self.wf(),
                pos <= i <= n,
                n == self@.len(),
                comments_end(self@, pos as int) == comments_end(self@, i as int),
            decreases n - i,
        {
            match self.parse_comment(i) {
                Parsed::Done(_, p) => {
                    i = p;
                },
                Parsed::Miss => {
                    return Parsed::Done((), i);
                },
                Parsed::Fatal => {
                    return Parsed::Fatal;
                },
            }
        }
    }

    /// The place after the blanks at place `pos`.
    pub fn space0(&self, pos: usize) -> (r: Parsed<()>)
        requires
            self.wf(),
            pos <= self@.len(),
        ensures
            r == space0_at(self@, pos as int),
            r matches Parsed::Done(_, p) && pos <= p <= self@.len(),
    {
        Parsed::Done((), self.skip(pos, CharClass::Blank))
    }

    /// The place after the gap within a line at place `pos`.
    pub fn space1(&self, pos: usize) -> (r: Parsed<()>)
        requires
            self.wf(),
            pos <= self@.len(),
        ensures
            r == space1_at(self@, pos as int),
            r matches Parsed::Done(_, p) ==> pos < p <= self@.len(),
    {
        match self.inline_comments(pos) {
            Parsed::Done(_, p) => {
                let end = self.skip(p, CharClass::Blank);
                if end > p {
                    Parsed::Done((), end)
                } else {
                    Parsed::Miss
                }
            },
            other => other,
        }
    }

    /// The place after the white space and the comments from place `pos`
    /// on.
    pub fn multispace0(&self, pos: usize) -> (r: Parsed<()>)
        requires
            self.wf(),
            pos <= self@.len(),
        ensures
            r == multispace0_at(self@, pos as int),
            r matches Parsed::Done(_, p) ==> pos <= p <= self@.len(),
            !(r is Miss),
    {
        let n = self.len();
        let mut i = pos;
        loop
            invariant
                self.wf(),
                pos <= i <= n,
                n == self@.len(),
                multispace0_at(self@, pos as int) == multispace0_at(self@, i as int),
            decreases n - i,
        {
            let spaces = self.skip(i, CharClass::Space);
            if spaces > i {
                i = spaces;
            } else {
                match self.parse_comment(i) {
                    Parsed::Done(_, p) => match self.comments(p) {
                        Parsed::Done(_, q) => {
                            i = q;
                        },
                        Parsed::Miss => {
                            return Parsed::Done((), i);
                        },
                        Parsed::Fatal => {
                            return Parsed::Fatal;
                        },
                    },
                    Parsed::Miss => {
                        return Parsed::Done((), i);
                    },
                    Parsed::Fatal => {
                        return Parsed::Fatal;
                    },
                }
            }
        }
    }

    /// The place after the gap between two items at place `pos`.
    pub fn multispace1(&self, pos: usize) -> (r: Parsed<()>)
        requires
            self.wf(),
            pos <= self@.len(),
        ensures
            r == multispace1_at(self@, pos as int),
            r matches Parsed::Done(_, p) ==> pos < p <= self@.len(),
    {
        let blanks = self.skip(pos, CharClass::Blank);
        match self.parse_comment_fullline(blanks) {
            Parsed::Done(_, p) => {
                let spaces = self.skip(p, CharClass::Space);
                self.multispace0(spaces)
            },
            _ => {
                let spaces = self.skip(blanks, CharClass::Space);
                if spaces > blanks {
                    self.multispace0(spaces)
                } else {
                    Parsed::Miss
                }
            },
        }
    }
}

/// What an item that was read says.
pub open spec fn item_result_view(r: Parsed<LangItem>) -> Parsed<ItemView> {
    match r {
        Parsed::Done(item, p) => Parsed::Done(item_view(item), p),
        Parsed::Miss => Parsed::Miss,
        Parsed::Fatal => Parsed::Fatal,
    }
}

/// What items that were read say.
pub open spec fn items_result_view(r: Parsed<Vec<LangItem>>) -> Parsed<Seq<ItemView>> {
    match r {
        Parsed::Done(items, p) => Parsed::Done(items_view(items@), p),
        Parsed::Miss => Parsed::Miss,
        Parsed::Fatal => Parsed::Fatal,
    }
}

/// A loop says what its body says.
pub proof fn lemma_loop_view(expr: Vec<LangItem>, repititions: Option<NonZeroU16>)
    ensures
        item_view(LangItem::Loop { expr, repititions }) == (ItemView::Loop {
            expr: items_view(expr@),
            repititions,
        }),
{
    assert(item_view(LangItem::Loop { expr, repititions })->Loop_expr =~= items_view(expr@));
}

/// The number of passes that the head of a loop gives at place `pos`, after
/// the word `loop`: a gap within the line, the count and blanks; or blanks
/// alone, for a loop without end.
pub open spec fn loop_count_at(s: Seq<char>, pos: int) -> Parsed<Option<NonZeroU16>> {
    let counted = match space1_at(s, pos) {
        Parsed::Done(_, e1) => match count_at(s, e1 as int) {
            Parsed::Done(n, e2) => Parsed::Done(
                Some(n),
                run_end(s, e2 as int, CharClass::Blank) as usize,
            ),
            _ => Parsed::Miss,
        },
        Parsed::Miss => Parsed::Miss,
        Parsed::Fatal => Parsed::Fatal,
    };
    match counted {
        Parsed::Miss => Parsed::Done(None, run_end(s, pos, CharClass::Blank) as usize),
        other => other,
    }
}

/// The item at place `pos`: a loop, a line of chords or a low-level
/// command, whichever stands there, tried in this order.
pub open spec fn expr_at(s: Seq<char>, pos: int) -> Parsed<ItemView>
    decreases s.len() - pos, 2nat,
{
    match loop_at(s, pos) {
        Parsed::Miss => match pressline_at(s, pos) {
            Parsed::Done(line, p) => Parsed::Done(ItemView::NotePress(line), p),
            _ => match asm_command_at(s, pos) {
                Parsed::Done(cmd, p) => Parsed::Done(ItemView::Asm(cmd), p),
                _ => Parsed::Miss,
            },
        },
        other => other,
    }
}

/// The loop at place `pos`: the word `loop`, the number of passes if one is
/// given, and the body between braces.
pub open spec fn loop_at(s: Seq<char>, pos: int) -> Parsed<ItemView>
    decreases s.len() - pos, 1nat,
{
    match after_tag(s, pos, "loop"@) {
        None => Parsed::Miss,
        Some(e1) => match loop_count_at(s, e1 as int) {
            Parsed::Done(repititions, e2) => if pos < e2 <= s.len() {
                match block_at(s, e2 as int) {
                    Parsed::Done(expr, e3) => Parsed::Done(ItemView::Loop { expr, repititions }, e3),
                    Parsed::Miss => Parsed::Miss,
                    Parsed::Fatal => Parsed::Fatal,
                }
            } else {
                Parsed::Miss
            },
            Parsed::Miss => Parsed::Miss,
            Parsed::Fatal => Parsed::Fatal,
        },
    }
}

/// The block at place `pos`: items between braces, with white space and
/// comments where one likes inside the braces.
pub open spec fn block_at(s: Seq<char>, pos: int) -> Parsed<Seq<ItemView>>
    decreases s.len() - pos, 0nat,
{
    match after_tag(s, pos, "{"@) {
        None => Parsed::Miss,
        Some(e1) => match multispace0_at(s, e1 as int) {
            Parsed::Done(_, e2) => if pos < e2 <= s.len() {
                match items_at(s, e2 as int) {
                    Parsed::Done(items, e3) => match multispace0_at(s, e3 as int) {
                        Parsed::Done(_, e4) => match after_tag(s, e4 as int, "}"@) {
                            Some(e5) => Parsed::Done(items, e5),
                            None => Parsed::Miss,
                        },
                        Parsed::Miss => Parsed::Miss,
                        Parsed::Fatal => Parsed::Fatal,
                    },
                    Parsed::Miss => Parsed::Miss,
                    Parsed::Fatal => Parsed::Fatal,
                }
            } else {
                Parsed::Miss
            },
            Parsed::Miss => Parsed::Miss,
            Parsed::Fatal => Parsed::Fatal,
        },
    }
}

/// The items at place `pos`, with a gap between each two; there may be
/// none.
pub open spec fn items_at(s: Seq<char>, pos: int) -> Parsed<Seq<ItemView>>
    decreases s.len() - pos, 3nat,
{
    match expr_at(s, pos) {
        Parsed::Done(first, p) => if pos < p <= s.len() {
            more_items_at(s, p as int, seq![first])
        } else {
            Parsed::Miss
        },
        Parsed::Miss => Parsed::Done(Seq::empty(), pos as usize),
        Parsed::Fatal => Parsed::Fatal,
    }
}

/// The items that follow, each after a gap, those that were read up to
/// place `pos`.
pub open spec fn more_items_at(s: Seq<char>, pos: int, read: Seq<ItemView>) -> Parsed<
    Seq<ItemView>,
>
    decreases s.len() - pos, 4nat,
{
    match multispace1_at(s, pos) {
        Parsed::Done(_, p) => if pos < p <= s.len() {
            match expr_at(s, p as int) {
                Parsed::Done(item, q) => if pos < q <= s.len() {
                    more_items_at(s, q as int, read.push(item))
                } else {
                    Parsed::Miss
                },
                Parsed::Miss => Parsed::Done(read, pos as usize),
                Parsed::Fatal => Parsed::Fatal,
            }
        } else {
            Parsed::Miss
        },
        Parsed::Miss => Parsed::Done(read, pos as usize),
        Parsed::Fatal => Parsed::Fatal,
    }
}

/// The items of a text, and the place up to which the text was read: white
/// space and comments, the items, white space and comments.
pub open spec fn file_at(s: Seq<char>) -> Parsed<Seq<ItemView>> {
    match multispace0_at(s, 0) {
        Parsed::Done(_, e1) => match items_at(s, e1 as int) {
            Parsed::Done(items, e2) => match multispace0_at(s, e2 as int) {
                Parsed::Done(_, e3) => Parsed::Done(items, e3),
                Parsed::Miss => Parsed::Miss,
                Parsed::Fatal => Parsed::Fatal,
            },
            Parsed::Miss => Parsed::Miss,
            Parsed::Fatal => Parsed::Fatal,
        },
        Parsed::Miss => Parsed::Miss,
        Parsed::Fatal => Parsed::Fatal,
    }
}

/// Why a text is no song.
#[derive(Debug, Copy, Clone, PartialEq, Eq, Structural)]
pub enum SongParseError {
    /// A comment is opened and not closed on its line.
    OpenComment,
    /// The text cannot be read past the place `position`, and more than
    /// white space is left there.
    Unparsed { position: usize },
}

/// The song that a text spells, if it spells one: the text's items, where
/// nothing but white space is left of the text after the items and the white
/// space and comments round them.
pub open spec fn song_of(s: Seq<char>) -> Result<Seq<ItemView>, SongParseError> {
    match file_at(s) {
        Parsed::Done(items, p) => if first_mark(s, p as int) >= s.len() {
            Ok(items)
        } else {
            Err(SongParseError::Unparsed { position: p })
        },
        Parsed::Miss => Err(SongParseError::Unparsed { position: 0 }),
        Parsed::Fatal => Err(SongParseError::OpenComment),
    }
}

fn parse_loop_count(src: &Source, pos: usize) -> (r: Parsed<Option<NonZeroU16>>)
    requires
        src.wf(),
        pos <= src@.len(),
    ensures
        r == loop_count_at(src@, pos as int),
        r matches Parsed::Done(_, p) ==> pos <= p <= src@.len(),
{
    let counted = match src.space1(pos) {
        Parsed::Done(_, e1) => match src.nonzerou16(e1) {
            Parsed::Done(n, e2) => Parsed::Done(Some(n), src.skip(e2, CharClass::Blank)),
            _ => Parsed::Miss,
        },
        Parsed::Miss => Parsed::Miss,
        Parsed::Fatal => Parsed::Fatal,
    };
    match counted {
        Parsed::Miss => Parsed::Done(None, src.skip(pos, CharClass::Blank)),
        other => other,
    }
}

/// The item at place `pos`.
pub fn parse_expr(src: &Source, pos: usize) -> (r: Parsed<LangItem>)
    requires
        src.wf(),
        pos <= src@.len(),
    ensures
        item_result_view(r) == expr_at(src@, pos as int),
        r matches Parsed::Done(_, p) ==> pos < p <= src@.len(),
    decreases src@.len() - pos, 2nat,
{
    match parse_loop(src, pos) {
        Parsed::Miss => match parse_pressline(src, pos) {
            Parsed::Done(line, p) => Parsed::Done(LangItem::NotePress(line), p),
            _ => match parse_asm_command(src, pos) {
                Parsed::Done(cmd, p) => Parsed::Done(LangItem::Asm(cmd), p),
                _ => Parsed::Miss,
            },
        },
        other => other,
    }
}

/// The loop at place `pos`.
pub fn parse_loop(src: &Source, pos: usize) -> (r: Parsed<LangItem>)
    requires
        src.wf(),
        pos <= src@.len(),
    ensures
        item_result_view(r) == loop_at(src@, pos as int),
        r matches Parsed::Done(_, p) ==> pos < p <= src@.len(),
    decreases src@.len() - pos, 1nat,
{
    let e1 = match src.tag(pos, "loop") {
        Some(p) => p,
        None => {
            return Parsed::Miss;
        },
    };
    proof {
        reveal_strlit("loop");
    }
    match parse_loop_count(src, e1) {
        Parsed::Done(repititions, e2) => match parse_block(src, e2) {
            Parsed::Done(expr, e3) => {
                proof {
                    lemma_loop_view(expr, repititions);
                }
                Parsed::Done(LangItem::Loop { expr, repititions }, e3)
            },
            Parsed::Miss => Parsed::Miss,
            Parsed::Fatal => Parsed::Fatal,
        },
        Parsed::Miss => Parsed::Miss,
        Parsed::Fatal => Parsed::Fatal,
    }
}

/// The block at place `pos`.
pub fn parse_block(src: &Source, pos: usize) -> (r: Parsed<Vec<LangItem>>)
    requires
        src.wf(),
        pos <= src@.len(),
    ensures
        items_result_view(r) == block_at(src@, pos as int),
        r matches Parsed::Done(_, p) ==> pos < p <= src@.len(),
    decreases src@.len() - pos, 0nat,
{
    let e1 = match src.tag(pos, "{") {
        Some(p) => p,
        None => {
            return Parsed::Miss;
        },
    };
    proof {
        reveal_strlit("{");
    }
    let e2 = match src.multispace0(e1) {
        Parsed::Done(_, p) => p,
        Parsed::Miss => {
            return Parsed::Miss;
        },
        Parsed::Fatal => {
            return Parsed::Fatal;
        },
    };
    let (items, e3) = match parse_items(src, e2) {
        Parsed::Done(items, p) => (items, p),
        Parsed::Miss => {
            return Parsed::Miss;
        },
        Parsed::Fatal => {
            return Parsed::Fatal;
        },
    };
    let e4 = match src.multispace0(e3) {
        Parsed::Done(_, p) => p,
        Parsed::Miss => {
            return Parsed::Miss;
        },
        Parsed::Fatal => {
            return Parsed::Fatal;
        },
    };
    match src.tag(e4, "}") {
        Some(e5) => Parsed::Done(items, e5),
        None => Parsed::Miss,
    }
}

/// The items at place `pos`.
pub fn parse_items(src: &Source, pos: usize) -> (r: Parsed<Vec<LangItem>>)
    requires
        src.wf(),
        pos <= src@.len(),
    ensures
        items_result_view(r) == items_at(src@, pos as int),
        r matches Parsed::Done(_, p) ==> pos <= p <= src@.len(),
    decreases src@.len() - pos, 3nat,
{
    let mut items: Vec<LangItem> = Vec::new();
    let mut i = match parse_expr(src, pos) {
        Parsed::Done(first, p) => {
            let ghost first_view = item_view(first);
            items.push(first);
            proof {
                assert(items_view(items@) =~= seq![first_view]);
            }
            p
        },
        Parsed::Miss => {
            proof {
                assert(items_view(items@) =~= Seq::<ItemView>::empty());
            }
            return Parsed::Done(items, pos);
        },
        Parsed::Fatal => {
            return Parsed::Fatal;
        },
    };
    let n = src.len();
    loop
        invariant
            src.wf(),
            pos < i <= n,
            n == src@.len(),
            items_at(src@, pos as int) == more_items_at(src@, i as int, items_view(items@)),
        decreases n - i,
    {
        let p = match src.multispace1(i) {
            Parsed::Done(_, p) => p,
            Parsed::Miss => {
                return Parsed::Done(items, i);
            },
            Parsed::Fatal => {
                return Parsed::Fatal;
            },
        };
        match parse_expr(src, p) {
            Parsed::Done(item, q) => {
                let ghost before = items_view(items@);
                let ghost added = item_view(item);
                items.push(item);
                proof {
                    assert(items_view(items@) =~= before.push(added));
                }
                i = q;
            },
            Parsed::Miss => {
                return Parsed::Done(items, i);
            },
            Parsed::Fatal => {
                return Parsed::Fatal;
            },
        }
    }
}

/// The items of a text, and the place up to which the text was read.
pub fn parse_file(src: &Source) -> (r: Parsed<Vec<LangItem>>)
    requires
        src.wf(),
    ensures
        items_result_view(r) == file_at(src@),
        r matches Parsed::Done(_, p) ==> p <= src@.len(),
{
    let e1 = match src.multispace0(0) {
        Parsed::Done(_, p) => p,
        Parsed::Miss => {
            return Parsed::Miss;
        },
        Parsed::Fatal => {
            return Parsed::Fatal;
        },
    };
    let (items, e2) = match parse_items(src, e1) {
        Parsed::Done(items, p) => (items, p),
        Parsed::Miss => {
            return Parsed::Miss;
        },
        Parsed::Fatal => {
            return Parsed::Fatal;
        },
    };
    match src.multispace0(e2) {
        Parsed::Done(_, e3) => Parsed::Done(items, e3),
        Parsed::Miss => Parsed::Miss,
        Parsed::Fatal => Parsed::Fatal,
    }
}

/// Whether a song was read that says what `expected` says.
pub open spec fn same_song(
    got: Result<Vec<LangItem>, SongParseError>,
    expected: Result<Seq<ItemView>, SongParseError>,
) -> bool {
    match got {
        Ok(items) => expected == Ok::<Seq<ItemView>, SongParseError>(items_view(items@)),
        Err(e) => expected == Err::<Seq<ItemView>, SongParseError>(e),
    }
}

/// Reads a text as a song.
pub fn parse_song(text: &str) -> (r: Result<Vec<LangItem>, SongParseError>)
    ensures
        same_song(r, song_of(text@)),
{
    let src = Source::new(text);
    match parse_file(&src) {
        Parsed::Done(items, p) => {
            let n = src.len();
            let mut i: usize = p;
            while i < n && is_whitespace(src.at(i))
                invariant
                    src.wf(),
                    p <= i <= n,
                    n == src@.len(),
                    first_mark(src@, p as int) == first_mark(src@, i as int),
                decreases n - i,
            {
                i = i + 1;
            }
            if i >= n {
                Ok(items)
            } else {
                Err(SongParseError::Unparsed { position: p })
            }
        },
        Parsed::Miss => Err(SongParseError::Unparsed { position: 0 }),
        Parsed::Fatal => Err(SongParseError::OpenComment),
    }
}

} // verus!
