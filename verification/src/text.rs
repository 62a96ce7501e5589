//! Searching, splitting and trimming of text.
//!
//! Text is modelled as `Seq<char>`, the view of `str` and `String`. The
//! executable functions scan a `Vec<char>` copy of the text, so that a position
//! is a character index, and cut the results out of the `str` itself.

use vstd::prelude::*;
use vstd::std_specs::iter::IteratorSpec;

verus! {

/// Position of the first occurrence of `pat` in `s`, or `s.len()` where there
/// is none. An empty `pat` occurs at position 0.
pub open spec fn find(s: Seq<char>, pat: Seq<char>) -> int
    decreases s.len(),
{
    if pat.is_prefix_of(s) || s.len() == 0 {
        0
    } else {
        1 + find(s.drop_first(), pat)
    }
}

/// `pat` occurs in `s` at position `i`.
pub open spec fn occurs_at(s: Seq<char>, pat: Seq<char>, i: int) -> bool {
    0 <= i <= s.len() && pat.is_prefix_of(s.skip(i))
}

/// `find` returns a position within `s`; `pat` occurs there unless the
/// position is `s.len()`, and nowhere before it.
pub proof fn lemma_find(s: Seq<char>, pat: Seq<char>)
    requires
        pat.len() > 0,
    ensures
        0 <= find(s, pat) <= s.len(),
        find(s, pat) < s.len() ==> occurs_at(s, pat, find(s, pat)),
        forall|j: int| 0 <= j < find(s, pat) ==> !occurs_at(s, pat, j),
    decreases s.len(),
{
    if pat.is_prefix_of(s) {
        assert(s.skip(0) =~= s);
    } else if s.len() == 0 {
    } else {
        let t = s.drop_first();
        lemma_find(t, pat);
        assert(s.skip(0) =~= s);
        assert forall|j: int| 0 <= j <= t.len() implies t.skip(j) == #[trigger] s.skip(j + 1) by {
            assert(t.skip(j) =~= s.skip(j + 1));
        }
        assert forall|j: int| 0 <= j < find(s, pat) implies !occurs_at(s, pat, j) by {
            if j > 0 {
                assert(!occurs_at(t, pat, j - 1));
                assert(t.skip(j - 1) == s.skip(j - 1 + 1));
            }
        }
        if find(s, pat) < s.len() {
            assert(occurs_at(t, pat, find(t, pat)));
            assert(t.skip(find(t, pat)) == s.skip(find(t, pat) + 1));
        }
    }
}

/// No other position is as `lemma_find` describes.
pub proof fn lemma_find_unique(s: Seq<char>, pat: Seq<char>, i: int)
    requires
        pat.len() > 0,
        0 <= i <= s.len(),
        i < s.len() ==> occurs_at(s, pat, i),
        forall|j: int| 0 <= j < i ==> !occurs_at(s, pat, j),
    ensures
        find(s, pat) == i,
{
    lemma_find(s, pat);
    let f = find(s, pat);
    if f < i {
        assert(!occurs_at(s, pat, f));
    } else if i < f {
        assert(!occurs_at(s, pat, i));
    }
}

/// `s` cut at the first occurrence of `pat`: what stands before it and what
/// stands after it. `None` where `pat` does not occur.
pub open spec fn split_once(s: Seq<char>, pat: Seq<char>) -> Option<(Seq<char>, Seq<char>)> {
    let i = find(s, pat);
    if i < s.len() {
        Some((s.take(i), s.skip(i + pat.len())))
    } else {
        None
    }
}

/// The pieces of `s` between the occurrences of `sep`, taken from the left
/// without overlap. There is always at least one piece.
pub open spec fn split(s: Seq<char>, sep: Seq<char>) -> Seq<Seq<char>>
    decreases s.len(),
{
    let i = find(s, sep);
    if sep.len() > 0 && 0 <= i && i + sep.len() <= s.len() {
        seq![s.take(i)] + split(s.skip(i + sep.len()), sep)
    } else {
        seq![s]
    }
}

/// `s` without the prefix `prefix`, where it has that prefix; else `s`.
pub open spec fn strip_prefix(s: Seq<char>, prefix: Seq<char>) -> Seq<char> {
    if prefix.is_prefix_of(s) {
        s.skip(prefix.len() as int)
    } else {
        s
    }
}

/// `s` with every `from` replaced by `to`.
pub open spec fn replace_char(s: Seq<char>, from: char, to: char) -> Seq<char> {
    s.map_values(
        |c: char|
            if c == from {
                to
            } else {
                c
            },
    )
}

/// Copies the characters of `s` into a vector.
pub(crate) fn to_chars(s: &str) -> (v: Vec<char>)
    ensures
        v@ == s@,
{
    let mut v: Vec<char> = Vec::new();
    for c in it: s.chars()
        invariant
            it.seq() == s@,
            v@ == s@.take(it.index() as int),
    {
        v.push(c);
    }
    v
}

/// Whether `pat` stands in `hay` at position `at`.
pub(crate) fn matches_at(hay: &Vec<char>, at: usize, pat: &Vec<char>) -> (r: bool)
    requires
        at <= hay.len(),
    ensures
        r == occurs_at(hay@, pat@, at as int),
{
    if pat.len() > hay.len() - at {
        return false;
    }
    let mut k: usize = 0;
    while k < pat.len()
        invariant
            at + pat.len() <= hay.len(),
            k <= pat.len(),
            forall|j: int| 0 <= j < k ==> pat@[j] == hay@[at + j],
        decreases pat.len() - k,
    {
        if pat[k] != hay[at + k] {
            assert(hay@.skip(at as int).subrange(0, pat@.len() as int)[k as int] != pat@[k as int]);
            return false;
        }
        k += 1;
    }
    assert(hay@.skip(at as int).subrange(0, pat@.len() as int) =~= pat@);
    true
}

/// Searches `hay` from position `start` for `pat`.
pub(crate) fn find_from(hay: &Vec<char>, start: usize, pat: &Vec<char>) -> (i: usize)
    requires
        start <= hay.len(),
        pat.len() > 0,
    ensures
        start <= i <= hay.len(),
        i == start + find(hay@.skip(start as int), pat@),
        i < hay.len() ==> i + pat.len() <= hay.len(),
{
    let ghost rest = hay@.skip(start as int);
    let mut i: usize = start;
    while i < hay.len() && !matches_at(hay, i, pat)
        invariant
            start <= i <= hay.len(),
            rest == hay@.skip(start as int),
            forall|j: int| start <= j < i ==> !occurs_at(hay@, pat@, j),
        decreases hay.len() - i,
    {
        i += 1;
    }
    proof {
        assert forall|j: int| 0 <= j <= rest.len() implies #[trigger] rest.skip(j) == hay@.skip(
            start + j,
        ) by {
            assert(rest.skip(j) =~= hay@.skip(start + j));
        }
        assert forall|j: int| 0 <= j < i - start implies !occurs_at(rest, pat@, j) by {
            assert(!occurs_at(hay@, pat@, start + j));
        }
        if i < hay.len() {
            assert(occurs_at(hay@, pat@, i as int));
            assert(rest.skip(i - start) == hay@.skip(start + (i - start)));
        }
        lemma_find_unique(rest, pat@, i - start);
    }
    i
}

/// Whether `v` holds exactly the characters of `s`.
pub(crate) fn chars_eq(v: &Vec<char>, s: &str) -> (r: bool)
    ensures
        r == (v@ == s@),
{
    let w = to_chars(s);
    if w.len() != v.len() {
        return false;
    }
    let mut k: usize = 0;
    while k < v.len()
        invariant
            w@ == s@,
            w.len() == v.len(),
            k <= v.len(),
            forall|j: int| 0 <= j < k ==> v@[j] == w@[j],
        decreases v.len() - k,
    {
        if v[k] != w[k] {
            assert(v@[k as int] != w@[k as int]);
            return false;
        }
        k += 1;
    }
    assert(v@ =~= w@);
    true
}

/// Replacing a character in two texts and joining them is replacing it in the
/// joined text.
pub proof fn lemma_replace_char_concat(a: Seq<char>, b: Seq<char>, from: char, to: char)
    ensures
        replace_char(a + b, from, to) == replace_char(a, from, to) + replace_char(b, from, to),
{
    assert(replace_char(a + b, from, to) =~= replace_char(a, from, to) + replace_char(
        b,
        from,
        to,
    ));
}

/// A text without `from` is left as it is.
pub proof fn lemma_replace_char_absent(a: Seq<char>, from: char, to: char)
    requires
        forall|j: int| 0 <= j < a.len() ==> a[j] != from,
    ensures
        replace_char(a, from, to) == a,
{
    assert(replace_char(a, from, to) =~= a);
}

/// The text of `s` from position `start` on, with every `from` replaced by the
/// one character of `to`. `chars` holds the characters of `s`.
pub(crate) fn replace_char_from(s: &str, chars: &Vec<char>, start: usize, from: char, to: &str) -> (r:
    String)
    requires
        chars@ == s@,
        start <= chars.len(),
        to@.len() == 1,
    ensures
        r@ == replace_char(s@.skip(start as int), from, to@[0]),
{
    let mut out = String::new();
    let mut seg: usize = start;
    let mut i: usize = start;
    while i < chars.len()
        invariant
            chars@ == s@,
            to@.len() == 1,
            start <= seg <= i <= chars.len(),
            out@ == replace_char(s@.subrange(start as int, seg as int), from, to@[0]),
            forall|j: int| seg <= j < i ==> s@[j] != from,
        decreases chars.len() - i,
    {
        if chars[i] == from {
            out.append(s.substring_char(seg, i));
            out.append(to);
            proof {
                let done = s@.subrange(start as int, seg as int);
                let kept = s@.subrange(seg as int, i as int);
                let hit = s@.subrange(i as int, i + 1);
                lemma_replace_char_absent(kept, from, to@[0]);
                assert(replace_char(hit, from, to@[0]) =~= to@);
                lemma_replace_char_concat(done, kept, from, to@[0]);
                lemma_replace_char_concat(done + kept, hit, from, to@[0]);
                assert(done + kept + hit =~= s@.subrange(start as int, i + 1));
            }
            seg = i + 1;
        }
        i += 1;
    }
    out.append(s.substring_char(seg, i));
    proof {
        let done = s@.subrange(start as int, seg as int);
        let kept = s@.subrange(seg as int, i as int);
        lemma_replace_char_absent(kept, from, to@[0]);
        lemma_replace_char_concat(done, kept, from, to@[0]);
        assert(done + kept =~= s@.skip(start as int));
    }
    out
}

/// A set of characters that text is trimmed of or tested for.
#[derive(Clone, Copy, Debug, PartialEq, Eq, Structural)]
pub enum CharClass {
    /// The backslash.
    Backslash,
    /// The characters with the Unicode property `White_Space`.
    Whitespace,
    /// `0` to `9`.
    AsciiDigit,
    /// `A` to `Z`.
    AsciiUppercase,
}

impl CharClass {
    /// `c` belongs to the class.
    pub open spec fn has(self, c: char) -> bool {
        match self {
            CharClass::Backslash => c == '\\',
            CharClass::Whitespace => {
                ||| '\u{9}' <= c <= '\u{d}'
                ||| c == ' '
                ||| c == '\u{85}'
                ||| c == '\u{a0}'
                ||| c == '\u{1680}'
                ||| '\u{2000}' <= c <= '\u{200a}'
                ||| c == '\u{2028}'
                ||| c == '\u{2029}'
                ||| c == '\u{202f}'
                ||| c == '\u{205f}'
                ||| c == '\u{3000}'
            },
            CharClass::AsciiDigit => '0' <= c <= '9',
            CharClass::AsciiUppercase => 'A' <= c <= 'Z',
        }
    }

    /// Whether `c` belongs to the class.
    pub fn contains(self, c: char) -> (r: bool)
        ensures
            r == self.has(c),
    {
        match self {
            CharClass::Backslash => c == '\\',
            CharClass::Whitespace => ('\u{9}' <= c && c <= '\u{d}') || c == ' ' || c == '\u{85}'
                || c == '\u{a0}' || c == '\u{1680}' || ('\u{2000}' <= c && c <= '\u{200a}') || c
                == '\u{2028}' || c == '\u{2029}' || c == '\u{202f}' || c == '\u{205f}' || c
                == '\u{3000}',
            CharClass::AsciiDigit => '0' <= c && c <= '9',
            CharClass::AsciiUppercase => 'A' <= c && c <= 'Z',
        }
    }
}

/// Every character of `s` belongs to `class`.
pub open spec fn all_in(s: Seq<char>, class: CharClass) -> bool {
    forall|i: int| 0 <= i < s.len() ==> class.has(#[trigger] s[i])
}

/// The number of characters at the start of `s` that belong to `class`, up to
/// the first that does not.
pub open spec fn leading(s: Seq<char>, class: CharClass) -> int
    decreases s.len(),
{
    if s.len() > 0 && class.has(s[0]) {
        1 + leading(s.drop_first(), class)
    } else {
        0
    }
}

/// The number of characters at the end of `s` that belong to `class`, back
/// to the last that does not.
pub open spec fn trailing(s: Seq<char>, class: CharClass) -> int
    decreases s.len(),
{
    if s.len() > 0 && class.has(s.last()) {
        1 + trailing(s.drop_last(), class)
    } else {
        0
    }
}

/// `s` without the characters of `class` at its start and at its end.
pub open spec fn trim(s: Seq<char>, class: CharClass) -> Seq<char> {
    let rest = s.skip(leading(s, class));
    rest.take(rest.len() - trailing(rest, class))
}

/// `leading` is `k` where the first `k` characters belong to the class and
/// the one after them, if any, does not.
pub proof fn lemma_leading(s: Seq<char>, class: CharClass, k: int)
    requires
        0 <= k <= s.len(),
        forall|j: int| 0 <= j < k ==> class.has(#[trigger] s[j]),
        k < s.len() ==> !class.has(s[k]),
    ensures
        leading(s, class) == k,
    decreases s.len(),
{
    if k > 0 {
        let t = s.drop_first();
        assert forall|j: int| 0 <= j < k - 1 implies class.has(#[trigger] t[j]) by {
            assert(t[j] == s[j + 1]);
        }
        lemma_leading(t, class, k - 1);
    }
}

/// `trailing` is `k` where the last `k` characters belong to the class and
/// the one before them, if any, does not.
pub proof fn lemma_trailing(s: Seq<char>, class: CharClass, k: int)
    requires
        0 <= k <= s.len(),
        forall|j: int| s.len() - k <= j < s.len() ==> class.has(#[trigger] s[j]),
        k < s.len() ==> !class.has(s[s.len() - k - 1]),
    ensures
        trailing(s, class) == k,
    decreases s.len(),
{
    if k > 0 {
        let t = s.drop_last();
        assert forall|j: int| t.len() - (k - 1) <= j < t.len() implies class.has(
            #[trigger] t[j],
        ) by {
            assert(t[j] == s[j]);
        }
        lemma_trailing(t, class, k - 1);
    }
}

/// The position in `chars` of the first character from `from` on that does
/// not belong to `class`, or `to` where all up to `to` belong to it.
pub(crate) fn first_outside(chars: &Vec<char>, from: usize, to: usize, class: CharClass) -> (r:
    usize)
    requires
        from <= to <= chars.len(),
    ensures
        from <= r <= to,
        r == from + leading(chars@.subrange(from as int, to as int), class),
        (r == to) == all_in(chars@.subrange(from as int, to as int), class),
        r < to ==> !class.has(chars@[r as int]),
{
    let ghost part = chars@.subrange(from as int, to as int);
    let mut i: usize = from;
    while i < to && class.contains(chars[i])
        invariant
            from <= i <= to <= chars.len(),
            part == chars@.subrange(from as int, to as int),
            forall|j: int| 0 <= j < i - from ==> class.has(#[trigger] part[j]),
        decreases to - i,
    {
        assert(part[i - from] == chars@[i as int]);
        i += 1;
    }
    proof {
        if i < to {
            assert(part[i - from] == chars@[i as int]);
        }
        lemma_leading(part, class, i - from);
    }
    i
}

/// Whether every character of `chars` from `from` up to `to` belongs to
/// `class`.
pub(crate) fn all_in_range(chars: &Vec<char>, from: usize, to: usize, class: CharClass) -> (r: bool)
    requires
        from <= to <= chars.len(),
    ensures
        r == all_in(chars@.subrange(from as int, to as int), class),
{
    let ghost part = chars@.subrange(from as int, to as int);
    let mut i: usize = from;
    while i < to
        invariant
            from <= i <= to <= chars.len(),
            part == chars@.subrange(from as int, to as int),
            forall|j: int| 0 <= j < i - from ==> class.has(#[trigger] part[j]),
        decreases to - i,
    {
        if !class.contains(chars[i]) {
            assert(part[i - from] == chars@[i as int]);
            return false;
        }
        assert(part[i - from] == chars@[i as int]);
        i += 1;
    }
    true
}

/// The bounds of what is left of `chars` from `from` up to `to` when the
/// characters of `class` are taken off both ends.
pub(crate) fn trim_range(chars: &Vec<char>, from: usize, to: usize, class: CharClass) -> (r: (
    usize,
    usize,
))
    requires
        from <= to <= chars.len(),
    ensures
        from <= r.0 <= r.1 <= to,
        chars@.subrange(r.0 as int, r.1 as int) == trim(
            chars@.subrange(from as int, to as int),
            class,
        ),
{
    let ghost part = chars@.subrange(from as int, to as int);
    let mut a: usize = from;
    while a < to && class.contains(chars[a])
        invariant
            from <= a <= to <= chars.len(),
            part == chars@.subrange(from as int, to as int),
            forall|j: int| 0 <= j < a - from ==> class.has(#[trigger] part[j]),
        decreases to - a,
    {
        assert(part[a - from] == chars@[a as int]);
        a += 1;
    }
    proof {
        if a < to {
            assert(part[a - from] == chars@[a as int]);
        }
        lemma_leading(part, class, a - from);
    }
    let ghost rest = part.skip(a - from);
    assert(rest =~= chars@.subrange(a as int, to as int));
    let mut b: usize = to;
    while a < b && class.contains(chars[b - 1])
        invariant
            a <= b <= to <= chars.len(),
            rest == chars@.subrange(a as int, to as int),
            forall|j: int| b - a <= j < rest.len() ==> class.has(#[trigger] rest[j]),
        decreases b - a,
    {
        assert(rest[b - 1 - a] == chars@[b - 1]);
        b -= 1;
    }
    proof {
        if a < b {
            assert(rest[b - 1 - a] == chars@[b - 1]);
        }
        lemma_trailing(rest, class, to - b);
        assert(rest.take(rest.len() - (to - b)) =~= chars@.subrange(a as int, b as int));
    }
    (a, b)
}

/// The pieces that `bounds` cut out of `s`.
pub open spec fn pieces(s: Seq<char>, bounds: Seq<(usize, usize)>) -> Seq<Seq<char>> {
    bounds.map_values(|b: (usize, usize)| s.subrange(b.0 as int, b.1 as int))
}

/// The bounds in `chars` of the pieces between the occurrences of `sep`.
pub(crate) fn split_ranges(chars: &Vec<char>, sep: &Vec<char>) -> (r: Vec<(usize, usize)>)
    requires
        sep.len() > 0,
    ensures
        pieces(chars@, r@) == split(chars@, sep@),
        forall|k: int| 0 <= k < r.len() ==> (#[trigger] r[k]).0 <= r[k].1 <= chars.len(),
        r.len() >= 1,
{
    let mut out: Vec<(usize, usize)> = Vec::new();
    let mut pos: usize = 0;
    proof {
        assert(chars@.skip(0) =~= chars@);
        assert(pieces(chars@, out@) + split(chars@.skip(0), sep@) =~= split(chars@, sep@));
    }
    loop
        invariant_except_break
            pieces(chars@, out@) + split(chars@.skip(pos as int), sep@) == split(chars@, sep@),
        invariant
            sep.len() > 0,
            pos <= chars.len(),
            forall|k: int| 0 <= k < out.len() ==> (#[trigger] out[k]).0 <= out[k].1 <= chars.len(),
        ensures
            pieces(chars@, out@) == split(chars@, sep@),
            forall|k: int| 0 <= k < out.len() ==> (#[trigger] out[k]).0 <= out[k].1 <= chars.len(),
            out.len() >= 1,
        decreases chars.len() - pos,
    {
        let i = find_from(chars, pos, sep);
        let ghost rest = chars@.skip(pos as int);
        let ghost before = pieces(chars@, out@);
        if i < chars.len() {
            out.push((pos, i));
            proof {
                assert(rest.take(i - pos) =~= chars@.subrange(pos as int, i as int));
                assert(rest.skip(i - pos + sep.len()) =~= chars@.skip(i + sep.len()));
                assert(pieces(chars@, out@) =~= before + seq![
                    chars@.subrange(pos as int, i as int),
                ]);
                assert(before + seq![chars@.subrange(pos as int, i as int)] + split(
                    chars@.skip(i + sep.len()),
                    sep@,
                ) =~= before + (seq![rest.take(i - pos)] + split(
                    rest.skip(i - pos + sep.len()),
                    sep@,
                )));
            }
            pos = i + sep.len();
        } else {
            out.push((pos, chars.len()));
            proof {
                assert(rest =~= chars@.subrange(pos as int, chars.len() as int));
                assert(split(rest, sep@) == seq![rest]);
                assert(pieces(chars@, out@) =~= before + seq![rest]);
            }
            break;
        }
    }
    out
}

/// The digit that stands for `d`.
pub open spec fn digit_char(d: int) -> char {
    if d == 0 {
        '0'
    } else if d == 1 {
        '1'
    } else if d == 2 {
        '2'
    } else if d == 3 {
        '3'
    } else if d == 4 {
        '4'
    } else if d == 5 {
        '5'
    } else if d == 6 {
        '6'
    } else if d == 7 {
        '7'
    } else if d == 8 {
        '8'
    } else {
        '9'
    }
}

/// `n` written in decimal digits, without leading zeros.
pub open spec fn decimal(n: nat) -> Seq<char>
    decreases n,
{
    if n < 10 {
        seq![digit_char(n as int)]
    } else {
        decimal(n / 10).push(digit_char((n % 10) as int))
    }
}

/// `i` written in decimal digits, with a minus sign where it is negative.
pub open spec fn signed_decimal(i: int) -> Seq<char> {
    if i < 0 {
        seq!['-'] + decimal((-i) as nat)
    } else {
        decimal(i as nat)
    }
}

/// `s` with as many zeros in front of it as it takes to reach `width`
/// characters.
pub open spec fn zero_padded(s: Seq<char>, width: nat) -> Seq<char> {
    if s.len() >= width {
        s
    } else {
        Seq::new((width - s.len()) as nat, |i: int| '0') + s
    }
}

/// The digit that stands for `d`, as a text.
pub(crate) fn digit_str(d: u64) -> (r: &'static str)
    requires
        d < 10,
    ensures
        r@ == seq![digit_char(d as int)],
{
    let r = match d {
        0 => {
            proof {
                reveal_strlit("0");
            }
            "0"
        },
        1 => {
            proof {
                reveal_strlit("1");
            }
            "1"
        },
        2 => {
            proof {
                reveal_strlit("2");
            }
            "2"
        },
        3 => {
            proof {
                reveal_strlit("3");
            }
            "3"
        },
        4 => {
            proof {
                reveal_strlit("4");
            }
            "4"
        },
        5 => {
            proof {
                reveal_strlit("5");
            }
            "5"
        },
        6 => {
            proof {
                reveal_strlit("6");
            }
            "6"
        },
        7 => {
            proof {
                reveal_strlit("7");
            }
            "7"
        },
        8 => {
            proof {
                reveal_strlit("8");
            }
            "8"
        },
        _ => {
            proof {
                reveal_strlit("9");
            }
            "9"
        },
    };
    assert(r@ =~= seq![digit_char(d as int)]);
    r
}

/// Writes `n` in decimal digits at the end of `out`.
pub(crate) fn append_decimal(out: &mut String, n: u64)
    ensures
        final(out)@ == old(out)@ + decimal(n as nat),
    decreases n,
{
    if n >= 10 {
        append_decimal(out, n / 10);
    }
    out.append(digit_str(n % 10));
    proof {
        if n >= 10 {
            assert(old(out)@ + decimal((n / 10) as nat) + seq![digit_char((n % 10) as int)]
                =~= old(out)@ + decimal(n as nat));
        }
    }
}

/// `i` in decimal digits, with a minus sign where it is negative.
pub(crate) fn signed_decimal_string(i: i64) -> (r: String)
    ensures
        r@ == signed_decimal(i as int),
{
    let mut out = String::new();
    if i < 0 {
        proof {
            reveal_strlit("-");
        }
        out.append("-");
        assert(out@ =~= seq!['-']);
        let magnitude: u64 = if i == i64::MIN {
            9_223_372_036_854_775_808u64
        } else {
            (-i) as u64
        };
        append_decimal(&mut out, magnitude);
    } else {
        append_decimal(&mut out, i as u64);
        assert(out@ =~= decimal(i as nat));
    }
    out
}

/// `s` with zeros in front of it, up to `width` characters.
pub(crate) fn zero_padded_string(s: &str, width: usize) -> (r: String)
    ensures
        r@ == zero_padded(s@, width as nat),
{
    let len = s.unicode_len();
    let mut out = String::new();
    if len < width {
        proof {
            reveal_strlit("0");
        }
        let mut k: usize = 0;
        while k < width - len
            invariant
                len < width,
                k <= width - len,
                "0"@ == seq!['0'],
                out@ == Seq::new(k as nat, |i: int| '0'),
            decreases width - len - k,
        {
            out.append("0");
            k += 1;
            assert(out@ =~= Seq::new(k as nat, |i: int| '0'));
        }
        assert("0"@ =~= seq!['0']);
    }
    out.append(s);
    assert(out@ =~= zero_padded(s@, width as nat));
    out
}

/// `token` is not empty and `s` starts with it.
pub open spec fn starts_with_token(s: Seq<char>, token: Seq<char>) -> bool {
    token.len() > 0 && token.is_prefix_of(s)
}

/// The position in `tokens` of the first token that `s` starts with, or
/// `tokens.len()` where it starts with none of them.
pub open spec fn token_here(s: Seq<char>, tokens: Seq<Seq<char>>) -> int
    decreases tokens.len(),
{
    if tokens.len() == 0 || starts_with_token(s, tokens[0]) {
        0
    } else {
        1 + token_here(s, tokens.drop_first())
    }
}

/// `s` with its tokens replaced by their values, in one walk from the left:
/// where a token starts, the value at the position of the token takes its
/// place and the walk goes on behind the token; any other character is
/// copied. The values themselves are not looked at.
pub open spec fn substitute(s: Seq<char>, tokens: Seq<Seq<char>>, values: Seq<Seq<char>>) -> Seq<
    char,
>
    decreases s.len(),
{
    let k = token_here(s, tokens);
    if s.len() == 0 {
        s
    } else if 0 <= k < tokens.len() && 0 < tokens[k].len() <= s.len() {
        values[k] + substitute(s.skip(tokens[k].len() as int), tokens, values)
    } else {
        seq![s[0]] + substitute(s.drop_first(), tokens, values)
    }
}

/// No token is the start of another one. Then no text starts with two of
/// them.
pub open spec fn exclusive(tokens: Seq<Seq<char>>) -> bool {
    forall|i: int, j: int|
        0 <= i < tokens.len() && 0 <= j < tokens.len() && i != j ==> !(#[trigger] tokens[i]).is_prefix_of(
            #[trigger] tokens[j],
        )
}

/// Each token of the first list stands with its value in the second list
/// too.
pub open spec fn pairs_among(
    tokens: Seq<Seq<char>>,
    values: Seq<Seq<char>>,
    others: Seq<Seq<char>>,
    other_values: Seq<Seq<char>>,
) -> bool {
    forall|i: int|
        #![trigger tokens[i]]
        0 <= i < tokens.len() ==> exists|j: int|
            #![trigger others[j]]
            0 <= j < others.len() && others[j] == tokens[i] && other_values[j] == values[i]
}

/// `token_here` is a position in `tokens` or their number; `s` starts with
/// the token there and with none before it.
pub proof fn lemma_token_here(s: Seq<char>, tokens: Seq<Seq<char>>)
    ensures
        0 <= token_here(s, tokens) <= tokens.len(),
        token_here(s, tokens) < tokens.len() ==> starts_with_token(
            s,
            tokens[token_here(s, tokens)],
        ),
        forall|j: int| 0 <= j < token_here(s, tokens) ==> !starts_with_token(s, #[trigger] tokens[j]),
    decreases tokens.len(),
{
    if tokens.len() == 0 || starts_with_token(s, tokens[0]) {
    } else {
        let rest = tokens.drop_first();
        lemma_token_here(s, rest);
        assert forall|j: int| 0 <= j < token_here(s, tokens) implies !starts_with_token(
            s,
            #[trigger] tokens[j],
        ) by {
            if j > 0 {
                assert(rest[j - 1] == tokens[j]);
            }
        }
        if token_here(s, tokens) < tokens.len() {
            assert(rest[token_here(s, rest)] == tokens[token_here(s, rest) + 1]);
        }
    }
}

/// No other position is as `lemma_token_here` describes.
pub proof fn lemma_token_here_unique(s: Seq<char>, tokens: Seq<Seq<char>>, k: int)
    requires
        0 <= k <= tokens.len(),
        k < tokens.len() ==> starts_with_token(s, tokens[k]),
        forall|j: int| 0 <= j < k ==> !starts_with_token(s, #[trigger] tokens[j]),
    ensures
        token_here(s, tokens) == k,
{
    lemma_token_here(s, tokens);
    let h = token_here(s, tokens);
    if h < k {
        assert(!starts_with_token(s, tokens[h]));
    } else if k < h {
        assert(!starts_with_token(s, tokens[k]));
    }
}

/// Of two texts that `s` starts with, the shorter is the start of the
/// longer.
pub proof fn lemma_two_prefixes(s: Seq<char>, a: Seq<char>, b: Seq<char>)
    requires
        a.is_prefix_of(s),
        b.is_prefix_of(s),
        a.len() <= b.len(),
    ensures
        a.is_prefix_of(b),
{
    assert(a =~= b.subrange(0, a.len() as int)) by {
        assert forall|i: int| 0 <= i < a.len() implies a[i] == b.subrange(0, a.len() as int)[i] by {
            assert(a[i] == s.subrange(0, a.len() as int)[i]);
            assert(b[i] == s.subrange(0, b.len() as int)[i]);
        }
    }
}

/// Among exclusive tokens the one that `s` starts with is the one that is
/// found.
pub proof fn lemma_token_found(s: Seq<char>, tokens: Seq<Seq<char>>, k: int)
    requires
        exclusive(tokens),
        0 <= k < tokens.len(),
        starts_with_token(s, tokens[k]),
    ensures
        token_here(s, tokens) == k,
{
    lemma_token_here(s, tokens);
    let h = token_here(s, tokens);
    if h != k {
        if tokens[h].len() <= tokens[k].len() {
            lemma_two_prefixes(s, tokens[h], tokens[k]);
        } else {
            lemma_two_prefixes(s, tokens[k], tokens[h]);
        }
    }
}

/// Where `s` starts with one of the exclusive tokens, the result starts with
/// the value of that token, as it is, and goes on with what comes of the rest
/// of `s`.
pub proof fn lemma_substitute_token(
    s: Seq<char>,
    tokens: Seq<Seq<char>>,
    values: Seq<Seq<char>>,
    k: int,
)
    requires
        exclusive(tokens),
        0 <= k < tokens.len(),
        starts_with_token(s, tokens[k]),
    ensures
        substitute(s, tokens, values) == values[k] + substitute(
            s.skip(tokens[k].len() as int),
            tokens,
            values,
        ),
{
    lemma_token_found(s, tokens, k);
}

/// The order of the tokens does not count: two lists that hold the same
/// exclusive tokens with the same values give the same result.
pub proof fn lemma_substitute_any_order(
    s: Seq<char>,
    tokens: Seq<Seq<char>>,
    values: Seq<Seq<char>>,
    others: Seq<Seq<char>>,
    other_values: Seq<Seq<char>>,
)
    requires
        exclusive(tokens),
        pairs_among(tokens, values, others, other_values),
        pairs_among(others, other_values, tokens, values),
    ensures
        substitute(s, tokens, values) == substitute(s, others, other_values),
    decreases s.len(),
{
    lemma_token_here(s, tokens);
    lemma_token_here(s, others);
    let k = token_here(s, tokens);
    let h = token_here(s, others);
    if s.len() > 0 {
        if k < tokens.len() {
            let j = choose|j: int|
                #![trigger others[j]]
                0 <= j < others.len() && others[j] == tokens[k] && other_values[j] == values[k];
            assert(starts_with_token(s, others[j]));
            assert(h < others.len());
        }
        if h < others.len() {
            let m = choose|m: int|
                #![trigger tokens[m]]
                0 <= m < tokens.len() && tokens[m] == others[h] && values[m] == other_values[h];
            assert(starts_with_token(s, tokens[m]));
            lemma_token_found(s, tokens, m);
            assert(m == k);
            lemma_substitute_any_order(
                s.skip(tokens[k].len() as int),
                tokens,
                values,
                others,
                other_values,
            );
        } else {
            lemma_substitute_any_order(s.drop_first(), tokens, values, others, other_values);
        }
    }
}

/// The characters of each text of `texts`.
pub open spec fn texts_of(texts: Seq<&str>) -> Seq<Seq<char>> {
    texts.map_values(|t: &str| t@)
}

/// The position in `tokens` of the first token that stands in `chars` at
/// position `at`.
fn token_at(chars: &Vec<char>, at: usize, tokens: &Vec<Vec<char>>) -> (k: usize)
    requires
        at <= chars.len(),
    ensures
        k == token_here(chars@.skip(at as int), tokens@.map_values(|t: Vec<char>| t@)),
        k <= tokens.len(),
        k < tokens.len() ==> 0 < tokens[k as int].len() && at + tokens[k as int].len()
            <= chars.len(),
{
    let ghost rest = chars@.skip(at as int);
    let ghost views = tokens@.map_values(|t: Vec<char>| t@);
    let mut k: usize = 0;
    while k < tokens.len() && !(tokens[k].len() > 0 && matches_at(chars, at, &tokens[k]))
        invariant
            at <= chars.len(),
            k <= tokens.len(),
            rest == chars@.skip(at as int),
            views == tokens@.map_values(|t: Vec<char>| t@),
            forall|j: int| 0 <= j < k ==> !starts_with_token(rest, #[trigger] views[j]),
        decreases tokens.len() - k,
    {
        assert(views[k as int] == tokens@[k as int]@);
        k += 1;
    }
    proof {
        if k < tokens.len() {
            assert(views[k as int] == tokens@[k as int]@);
        }
        lemma_token_here_unique(rest, views, k as int);
    }
    k
}

/// `s` with its tokens replaced by their values.
pub(crate) fn substitute_str(s: &str, tokens: &Vec<&str>, values: &Vec<&str>) -> (r: String)
    requires
        tokens.len() == values.len(),
    ensures
        r@ == substitute(s@, texts_of(tokens@), texts_of(values@)),
{
    let chars = to_chars(s);
    let ghost t = texts_of(tokens@);
    let ghost v = texts_of(values@);
    let mut wanted: Vec<Vec<char>> = Vec::new();
    let mut n: usize = 0;
    while n < tokens.len()
        invariant
            n <= tokens.len(),
            wanted.len() == n,
            forall|j: int| 0 <= j < n ==> (#[trigger] wanted[j])@ == tokens[j]@,
        decreases tokens.len() - n,
    {
        wanted.push(to_chars(tokens[n]));
        n += 1;
    }
    assert(wanted@.map_values(|w: Vec<char>| w@) =~= t);
    let mut out = String::new();
    let mut seg: usize = 0;
    let mut i: usize = 0;
    proof {
        assert(s@.skip(0) =~= s@);
        assert(out@ + s@.subrange(0, 0) + substitute(s@.skip(0), t, v) =~= substitute(s@, t, v));
    }
    while i < chars.len()
        invariant
            chars@ == s@,
            t == texts_of(tokens@),
            v == texts_of(values@),
            tokens.len() == values.len(),
            wanted@.map_values(|w: Vec<char>| w@) == t,
            seg <= i <= chars.len(),
            out@ + s@.subrange(seg as int, i as int) + substitute(s@.skip(i as int), t, v)
                == substitute(s@, t, v),
        decreases chars.len() - i,
    {
        let ghost rest = s@.skip(i as int);
        let ghost before = out@;
        let k = token_at(&chars, i, &wanted);
        if k < wanted.len() {
            assert(t[k as int] == wanted@[k as int]@);
            out.append(s.substring_char(seg, i));
            out.append(values[k]);
            proof {
                assert(v[k as int] == values@[k as int]@);
                assert(rest.skip(t[k as int].len() as int) =~= s@.skip(i + wanted[k as int].len()));
                assert(out@ + s@.subrange(
                    i + wanted[k as int].len(),
                    i + wanted[k as int].len(),
                ) + substitute(s@.skip(i + wanted[k as int].len()), t, v) =~= before + s@.subrange(
                    seg as int,
                    i as int,
                ) + (v[k as int] + substitute(rest.skip(t[k as int].len() as int), t, v)));
            }
            i = i + wanted[k].len();
            seg = i;
        } else {
            proof {
                assert(rest.drop_first() =~= s@.skip(i + 1));
                assert(before + s@.subrange(seg as int, i + 1) + substitute(s@.skip(i + 1), t, v)
                    =~= before + s@.subrange(seg as int, i as int) + (seq![rest[0]] + substitute(
                    rest.drop_first(),
                    t,
                    v,
                )));
            }
            i += 1;
        }
    }
    out.append(s.substring_char(seg, i));
    proof {
        assert(s@.skip(i as int) =~= Seq::<char>::empty());
        assert(out@ =~= out@ + substitute(s@.skip(i as int), t, v));
    }
    out
}

} // verus!
