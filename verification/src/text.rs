//! Text rules shared by the parsers: white space, lines, delimiters,
//! substrings and decimal numbers, stated over sequences of characters.

use vstd::prelude::*;

verus! {

/// Whether `c` is white space: a character with the Unicode property
/// `White_Space`.
pub open spec fn is_space(c: char) -> bool {
    let u = c as u32;
    ||| 0x09 <= u <= 0x0D
    ||| u == 0x20
    ||| u == 0x85
    ||| u == 0xA0
    ||| u == 0x1680
    ||| 0x2000 <= u <= 0x200A
    ||| u == 0x2028
    ||| u == 0x2029
    ||| u == 0x202F
    ||| u == 0x205F
    ||| u == 0x3000
}

/// `s` without its leading white space.
pub open spec fn trim_start(s: Seq<char>) -> Seq<char>
    decreases s.len(),
{
    if s.len() > 0 && is_space(s[0]) {
        trim_start(s.drop_first())
    } else {
        s
    }
}

/// `s` without its trailing white space.
pub open spec fn trim_end(s: Seq<char>) -> Seq<char>
    decreases s.len(),
{
    if s.len() > 0 && is_space(s.last()) {
        trim_end(s.drop_last())
    } else {
        s
    }
}

/// `s` without its leading and trailing white space.
pub open spec fn trim(s: Seq<char>) -> Seq<char> {
    trim_end(trim_start(s))
}

/// The position of the first `c` in `s`, or the length of `s` if it holds
/// none.
pub open spec fn first_index(s: Seq<char>, c: char) -> int
    decreases s.len(),
{
    if s.len() == 0 || s[0] == c {
        0
    } else {
        1 + first_index(s.drop_first(), c)
    }
}

/// Whether `s` holds the delimiter `c`.
pub open spec fn has_char(s: Seq<char>, c: char) -> bool {
    first_index(s, c) < s.len()
}

/// The part of `s` before its first `c`; all of `s` if it holds none.
pub open spec fn before_first(s: Seq<char>, c: char) -> Seq<char> {
    s.take(first_index(s, c))
}

/// The part of `s` after its first `c`; empty if it holds none.
pub open spec fn after_first(s: Seq<char>, c: char) -> Seq<char> {
    if has_char(s, c) {
        s.skip(first_index(s, c) + 1)
    } else {
        Seq::empty()
    }
}

/// Whether `needle` stands in `s` at position `i`.
pub open spec fn occurs_at(s: Seq<char>, needle: Seq<char>, i: int) -> bool {
    0 <= i && i + needle.len() <= s.len() && s.subrange(i, i + needle.len()) == needle
}

/// Whether `needle` stands somewhere in `s`.
pub open spec fn contains(s: Seq<char>, needle: Seq<char>) -> bool {
    exists|i: int| occurs_at(s, needle, i)
}

/// Whether `s` begins with `prefix`.
pub open spec fn starts_with(s: Seq<char>, prefix: Seq<char>) -> bool {
    occurs_at(s, prefix, 0)
}

/// A line without the carriage return that preceded its line feed.
pub open spec fn strip_cr(line: Seq<char>) -> Seq<char> {
    if line.len() > 0 && line.last() == '\r' {
        line.drop_last()
    } else {
        line
    }
}

/// The lines of `s`. A line ends at a line feed, or at a carriage return
/// directly followed by one; neither belongs to the line. The last line needs
/// no line ending, and a carriage return at its very end stays.
pub open spec fn lines(s: Seq<char>) -> Seq<Seq<char>>
    decreases s.len(),
{
    if s.len() == 0 {
        Seq::empty()
    } else if has_char(s, '\n') {
        proof {
            lemma_first_index(s, '\n');
        }
        seq![strip_cr(before_first(s, '\n'))] + lines(after_first(s, '\n'))
    } else {
        seq![s]
    }
}

/// Whether `c` is a decimal digit.
pub open spec fn is_digit(c: char) -> bool {
    '0' as u32 <= c as u32 <= '9' as u32
}

/// Whether `s` is made of decimal digits alone.
pub open spec fn all_digits(s: Seq<char>) -> bool {
    forall|i: int| 0 <= i < s.len() ==> is_digit(#[trigger] s[i])
}

/// The number that the decimal digits `s` write; zero for no digits.
pub open spec fn digits_value(s: Seq<char>) -> nat
    decreases s.len(),
{
    if s.len() == 0 {
        0
    } else {
        (digits_value(s.drop_last()) * 10 + (s.last() as u32 - '0' as u32)) as nat
    }
}

/// The digits of a decimal number: `s` without one leading plus sign.
pub open spec fn unsigned_digits(s: Seq<char>) -> Seq<char> {
    if s.len() > 0 && s[0] == '+' {
        s.drop_first()
    } else {
        s
    }
}

/// The number below 256 that `s` writes: one or more decimal digits, after
/// at most one plus sign, with nothing before or after them.
pub open spec fn parse_u8(s: Seq<char>) -> Option<u8> {
    let digits = unsigned_digits(s);
    if digits.len() > 0 && all_digits(digits) && digits_value(digits) <= u8::MAX {
        Some(digits_value(digits) as u8)
    } else {
        None
    }
}

/// The percentage that `s` writes: a number from 0 to 100.
pub open spec fn parse_percent(s: Seq<char>) -> Option<u8> {
    match parse_u8(s) {
        Some(n) if n <= 100 => Some(n),
        _ => None,
    }
}

/// `first_index` gives a position in or at the end of `s`, nothing before it
/// is `c`, and what stands at it is.
pub proof fn lemma_first_index(s: Seq<char>, c: char)
    ensures
        0 <= first_index(s, c) <= s.len(),
        forall|j: int| 0 <= j < first_index(s, c) ==> s[j] != c,
        first_index(s, c) < s.len() ==> s[first_index(s, c)] == c,
    decreases s.len(),
{
    if s.len() > 0 && s[0] != c {
        let rest = s.drop_first();
        lemma_first_index(rest, c);
        assert forall|j: int| 0 <= j < first_index(s, c) implies s[j] != c by {
            if j > 0 {
                assert(s[j] == rest[j - 1]);
            }
        }
    }
}

/// The converse: a position at which `c` stands, or the end, with no `c`
/// before it, is the first index.
pub proof fn lemma_first_index_is(s: Seq<char>, c: char, i: int)
    requires
        0 <= i <= s.len(),
        forall|j: int| 0 <= j < i ==> s[j] != c,
        i < s.len() ==> s[i] == c,
    ensures
        first_index(s, c) == i,
{
    lemma_first_index(s, c);
    let k = first_index(s, c);
    if k < i {
        assert(s[k] != c);
    } else if i < k {
        assert(s[i] == c);
    }
}

/// Where the first `c` of a range of `s` stands at `i`, or `i` is the end of
/// a range without `c`: what lies before and after it in the range.
pub proof fn lemma_split_range(s: Seq<char>, from: int, to: int, c: char, i: int)
    requires
        0 <= from <= i <= to <= s.len(),
        i - from == first_index(s.subrange(from, to), c),
    ensures
        has_char(s.subrange(from, to), c) == (i < to),
        before_first(s.subrange(from, to), c) == s.subrange(from, i),
        i < to ==> after_first(s.subrange(from, to), c) == s.subrange(i + 1, to),
{
    let range = s.subrange(from, to);
    assert(range.take(i - from) =~= s.subrange(from, i));
    if i < to {
        assert(range.skip(i - from + 1) =~= s.subrange(i + 1, to));
    }
}

/// The whole of `s` is its range from the start to the end.
pub proof fn lemma_whole_range(s: Seq<char>)
    ensures
        s.subrange(0, s.len() as int) == s,
{
    assert(s.subrange(0, s.len() as int) =~= s);
}

/// The value of a run of digits is at least the value of any of its
/// beginnings.
pub proof fn lemma_digits_value_grows(s: Seq<char>, k: int)
    requires
        all_digits(s),
        0 <= k <= s.len(),
    ensures
        digits_value(s.take(k)) <= digits_value(s),
    decreases s.len() - k,
{
    if k < s.len() {
        let longer = s.take(k + 1);
        assert(longer.drop_last() =~= s.take(k));
        assert(is_digit(s[k]));
        assert(longer.last() == s[k]);
        lemma_digits_value_grows(s, k + 1);
    } else {
        assert(s.take(k) =~= s);
    }
}

/// The characters of `s`, in order.
pub fn chars_of(s: &str) -> (v: Vec<char>)
    ensures
        v@ == s@,
{
    let mut v: Vec<char> = Vec::new();
    for c in it: s.chars()
        invariant
            v@ == it.seq().take(it.index()),
            it.seq() == s@,
    {
        v.push(c);
    }
    v
}

/// Whether `c` is white space.
pub fn is_space_char(c: char) -> (r: bool)
    ensures
        r == is_space(c),
{
    let u: u32 = c as u32;
    (0x09 <= u && u <= 0x0D) || u == 0x20 || u == 0x85 || u == 0xA0 || u == 0x1680 || (0x2000
        <= u && u <= 0x200A) || u == 0x2028 || u == 0x2029 || u == 0x202F || u == 0x205F || u
        == 0x3000
}

/// A string held together with its characters, so that it can be read by
/// position. Positions count characters, not bytes.
pub struct Text<'a> {
    source: &'a str,
    chars: Vec<char>,
}

impl<'a> View for Text<'a> {
    type V = Seq<char>;

    closed spec fn view(&self) -> Seq<char> {
        self.chars@
    }
}

impl<'a> Text<'a> {
    #[verifier::type_invariant]
    spec fn agrees(self) -> bool {
        self.chars@ == self.source@
    }

    /// The text of `source`.
    pub fn new(source: &'a str) -> (t: Text<'a>)
        ensures
            t@ == source@,
    {
        Text { source, chars: chars_of(source) }
    }

    /// The number of characters.
    pub fn len(&self) -> (n: usize)
        ensures
            n == self@.len(),
    {
        self.chars.len()
    }

    /// The character at position `i`.
    pub fn char_at(&self, i: usize) -> (c: char)
        requires
            i < self@.len(),
        ensures
            c == self@[i as int],
    {
        self.chars[i]
    }

    /// The characters from position `from` up to `to`, as a string.
    pub fn substring(&self, from: usize, to: usize) -> (r: String)
        requires
            from <= to <= self@.len(),
        ensures
            r@ == self@.subrange(from as int, to as int),
    {
        proof {
            use_type_invariant(self);
        }
        self.source.substring_char(from, to).to_owned()
    }

    /// The position of the first `c` between `from` and `to`, or `to` if
    /// there is none.
    pub fn find(&self, from: usize, to: usize, c: char) -> (i: usize)
        requires
            from <= to <= self@.len(),
        ensures
            from <= i <= to,
            i - from == first_index(self@.subrange(from as int, to as int), c),
    {
        let mut i: usize = from;
        while i < to && self.chars[i] != c
            invariant
                from <= i <= to <= self.chars@.len(),
                forall|j: int| from <= j < i ==> self.chars@[j] != c,
            decreases to - i,
        {
            i += 1;
        }
        proof {
            lemma_first_index_is(self@.subrange(from as int, to as int), c, i - from);
        }
        i
    }

    /// The bounds of what is left of the range from `from` to `to` once its
    /// leading and trailing white space is taken away.
    pub fn trim_range(&self, from: usize, to: usize) -> (r: (usize, usize))
        requires
            from <= to <= self@.len(),
        ensures
            from <= r.0 <= r.1 <= to,
            self@.subrange(r.0 as int, r.1 as int) == trim(
                self@.subrange(from as int, to as int),
            ),
    {
        let mut a: usize = from;
        while a < to && is_space_char(self.chars[a])
            invariant
                from <= a <= to <= self.chars@.len(),
                trim_start(self.chars@.subrange(from as int, to as int)) == trim_start(
                    self.chars@.subrange(a as int, to as int),
                ),
            decreases to - a,
        {
            proof {
                let cur = self.chars@.subrange(a as int, to as int);
                assert(cur[0] == self.chars@[a as int]);
                assert(cur.drop_first() =~= self.chars@.subrange(a + 1, to as int));
            }
            a += 1;
        }
        proof {
            let cur = self.chars@.subrange(a as int, to as int);
            if a < to {
                assert(cur[0] == self.chars@[a as int]);
            }
            assert(trim_start(cur) == cur);
        }
        let mut b: usize = to;
        while b > a && is_space_char(self.chars[b - 1])
            invariant
                a <= b <= to <= self.chars@.len(),
                trim_end(self.chars@.subrange(a as int, to as int)) == trim_end(
                    self.chars@.subrange(a as int, b as int),
                ),
            decreases b - a,
        {
            proof {
                let cur = self.chars@.subrange(a as int, b as int);
                assert(cur.last() == self.chars@[b - 1]);
                assert(cur.drop_last() =~= self.chars@.subrange(a as int, b - 1));
            }
            b -= 1;
        }
        proof {
            let cur = self.chars@.subrange(a as int, b as int);
            if b > a {
                assert(cur.last() == self.chars@[b - 1]);
            }
            assert(trim_end(cur) == cur);
        }
        (a, b)
    }

    /// Whether `word` stands at position `i`.
    pub fn matches_at(&self, i: usize, word: &Vec<char>) -> (r: bool)
        ensures
            r == occurs_at(self@, word@, i as int),
    {
        let n = word.len();
        if n > self.chars.len() || i > self.chars.len() - n {
            return false;
        }
        let mut k: usize = 0;
        while k < n
            invariant
                n == word@.len(),
                i + n <= self.chars@.len() <= usize::MAX,
                0 <= k <= n,
                forall|j: int| 0 <= j < k ==> self.chars@[i + j] == word@[j],
            decreases n - k,
        {
            if self.chars[i + k] != word[k] {
                proof {
                    assert(self.chars@.subrange(i as int, i + n)[k as int] != word@[k as int]);
                }
                return false;
            }
            k += 1;
        }
        proof {
            assert(self.chars@.subrange(i as int, i + n) =~= word@);
        }
        true
    }

    /// Whether the text begins with `prefix`.
    pub fn starts_with(&self, prefix: &str) -> (r: bool)
        ensures
            r == starts_with(self@, prefix@),
    {
        let word = chars_of(prefix);
        self.matches_at(0, &word)
    }

    /// Whether `needle` stands somewhere in the text.
    pub fn contains(&self, needle: &str) -> (r: bool)
        ensures
            r == contains(self@, needle@),
    {
        let word = chars_of(needle);
        if word.len() > self.chars.len() {
            return false;
        }
        let last = self.chars.len() - word.len();
        let mut i: usize = 0;
        while i < last
            invariant
                word@ == needle@,
                last == self.chars@.len() - word@.len(),
                0 <= i <= last,
                forall|j: int| 0 <= j < i ==> !occurs_at(self@, word@, j),
            decreases last - i,
        {
            if self.matches_at(i, &word) {
                return true;
            }
            i += 1;
        }
        self.matches_at(last, &word)
    }

    /// Whether the characters from `from` up to `to` are exactly `word`.
    pub fn range_is(&self, from: usize, to: usize, word: &str) -> (r: bool)
        requires
            from <= to <= self@.len(),
        ensures
            r == (self@.subrange(from as int, to as int) == word@),
    {
        let w = chars_of(word);
        if w.len() != to - from {
            return false;
        }
        self.matches_at(from, &w)
    }

    /// The number below 256 that the characters from `from` up to `to`
    /// write, if they write one.
    pub fn parse_u8(&self, from: usize, to: usize) -> (r: Option<u8>)
        requires
            from <= to <= self@.len(),
        ensures
            r == parse_u8(self@.subrange(from as int, to as int)),
    {
        let start: usize = if from < to && self.chars[from] == '+' {
            from + 1
        } else {
            from
        };
        let ghost whole = self@.subrange(from as int, to as int);
        let ghost digits = self@.subrange(start as int, to as int);
        proof {
            if from < to {
                assert(whole[0] == self@[from as int]);
            }
            assert(unsigned_digits(whole) =~= digits);
        }
        if start == to {
            return None;
        }
        let mut acc: u32 = 0;
        let mut i: usize = start;
        while i < to
            invariant
                start <= i <= to <= self.chars@.len(),
                start < to,
                digits == self.chars@.subrange(start as int, to as int),
                unsigned_digits(self@.subrange(from as int, to as int)) == digits,
                all_digits(digits.take(i - start)),
                acc == digits_value(digits.take(i - start)),
                acc <= u8::MAX,
            decreases to - i,
        {
            let u: u32 = self.chars[i] as u32;
            proof {
                assert(digits[i - start] == self.chars@[i as int]);
            }
            if u < 48 || u > 57 {
                proof {
                    assert(!is_digit(digits[i - start]));
                }
                return None;
            }
            acc = acc * 10 + (u - 48);
            proof {
                let longer = digits.take(i + 1 - start);
                assert(longer.drop_last() =~= digits.take(i - start));
                assert(longer.last() == digits[i - start]);
                assert(acc == digits_value(longer));
                assert forall|j: int| 0 <= j < longer.len() implies is_digit(
                    #[trigger] longer[j],
                ) by {
                    if j < i - start {
                        assert(longer[j] == digits.take(i - start)[j]);
                    }
                }
            }
            if acc > 255 {
                proof {
                    if all_digits(digits) {
                        lemma_digits_value_grows(digits, i + 1 - start);
                    }
                }
                return None;
            }
            i += 1;
        }
        proof {
            assert(digits.take(to - start) =~= digits);
        }
        Some(acc as u8)
    }

    /// The percentage that the characters from `from` up to `to` write, if
    /// they write one.
    pub fn parse_percent(&self, from: usize, to: usize) -> (r: Option<u8>)
        requires
            from <= to <= self@.len(),
        ensures
            r == parse_percent(self@.subrange(from as int, to as int)),
    {
        match self.parse_u8(from, to) {
            Some(n) => if n <= 100 {
                Some(n)
            } else {
                None
            },
            None => None,
        }
    }

    /// The bounds of the line that begins at `pos`, and the position at
    /// which the next line begins.
    pub fn next_line(&self, pos: usize) -> (r: (usize, usize))
        requires
            pos < self@.len(),
        ensures
            pos <= r.0 <= r.1 <= self@.len(),
            pos < r.1,
            lines(self@.skip(pos as int)) == seq![self@.subrange(pos as int, r.0 as int)] + lines(
                self@.skip(r.1 as int),
            ),
    {
        let len = self.chars.len();
        let feed = self.find(pos, len, '\n');
        let ghost rest = self@.skip(pos as int);
        proof {
            assert(rest =~= self@.subrange(pos as int, len as int));
            lemma_first_index(rest, '\n');
        }
        if feed == len {
            proof {
                assert(rest =~= self@.subrange(pos as int, len as int));
                assert(self@.skip(len as int) =~= Seq::<char>::empty());
                assert(lines(self@.skip(len as int)) =~= Seq::<Seq<char>>::empty());
                assert(lines(rest) =~= seq![rest] + lines(self@.skip(len as int)));
            }
            (len, len)
        } else {
            let end: usize = if feed > pos && self.chars[feed - 1] == '\r' {
                feed - 1
            } else {
                feed
            };
            proof {
                let line = before_first(rest, '\n');
                assert(line =~= self@.subrange(pos as int, feed as int));
                if feed > pos {
                    assert(line.last() == self@[feed - 1]);
                }
                assert(strip_cr(line) =~= self@.subrange(pos as int, end as int));
                assert(after_first(rest, '\n') =~= self@.skip(feed + 1));
            }
            (end, feed + 1)
        }
    }
}

} // verus!
