//! Scanning text: trimming, searching, prefixes, and numbers.

use vstd::prelude::*;
use vstd::string::*;

use crate::text::same;

verus! {

/// The characters that Unicode calls white space.
pub open spec fn is_space(c: char) -> bool {
    ||| '\u{0009}' <= c <= '\u{000D}'
    ||| c == '\u{0020}'
    ||| c == '\u{0085}'
    ||| c == '\u{00A0}'
    ||| c == '\u{1680}'
    ||| '\u{2000}' <= c <= '\u{200A}'
    ||| c == '\u{2028}'
    ||| c == '\u{2029}'
    ||| c == '\u{202F}'
    ||| c == '\u{205F}'
    ||| c == '\u{3000}'
}

/// Whether a character is white space.
pub fn is_whitespace(c: char) -> (space: bool)
    ensures
        space == is_space(c),
{
    ('\u{0009}' <= c && c <= '\u{000D}') || c == '\u{0020}' || c == '\u{0085}' || c == '\u{00A0}'
        || c == '\u{1680}' || ('\u{2000}' <= c && c <= '\u{200A}') || c == '\u{2028}' || c
        == '\u{2029}' || c == '\u{202F}' || c == '\u{205F}' || c == '\u{3000}'
}

/// A text without the white space it starts with.
pub open spec fn trim_start(s: Seq<char>) -> Seq<char>
    decreases s.len(),
{
    if s.len() > 0 && is_space(s[0]) {
        trim_start(s.drop_first())
    } else {
        s
    }
}

/// A text without the white space it ends with.
pub open spec fn trim_end(s: Seq<char>) -> Seq<char>
    decreases s.len(),
{
    if s.len() > 0 && is_space(s.last()) {
        trim_end(s.drop_last())
    } else {
        s
    }
}

/// A text without the white space around it.
pub open spec fn trimmed_text(s: Seq<char>) -> Seq<char> {
    trim_end(trim_start(s))
}

/// White space at the start goes, up to the first character that is not.
proof fn lemma_trim_start(s: Seq<char>, n: int)
    requires
        0 <= n <= s.len(),
        forall|i: int| 0 <= i < n ==> is_space(#[trigger] s[i]),
        n < s.len() ==> !is_space(s[n]),
    ensures
        trim_start(s) == s.skip(n),
    decreases s.len(),
{
    if n > 0 {
        assert(is_space(s[0]));
        let rest = s.drop_first();
        assert forall|i: int| 0 <= i < n - 1 implies is_space(#[trigger] rest[i]) by {
            assert(rest[i] == s[i + 1]);
        }
        lemma_trim_start(rest, n - 1);
        assert(rest.skip(n - 1) =~= s.skip(n));
    } else {
        assert(s.skip(0) =~= s);
    }
}

/// White space at the end goes, down to the last character that is not.
proof fn lemma_trim_end(s: Seq<char>, n: int)
    requires
        0 <= n <= s.len(),
        forall|i: int| n <= i < s.len() ==> is_space(#[trigger] s[i]),
        n > 0 ==> !is_space(s[n - 1]),
    ensures
        trim_end(s) == s.take(n),
    decreases s.len(),
{
    if n < s.len() {
        assert(is_space(s.last()));
        lemma_trim_end(s.drop_last(), n);
        assert(s.drop_last().take(n) =~= s.take(n));
    } else {
        assert(s.take(n) =~= s);
    }
}

/// A text with no white space around it is trimmed already.
pub proof fn lemma_nothing_to_trim(s: Seq<char>)
    requires
        s.len() > 0 ==> !is_space(s[0]) && !is_space(s.last()),
    ensures
        trimmed_text(s) == s,
{
}

/// A text without the white space around it.
pub fn trimmed(s: &str) -> (text: &str)
    ensures
        text@ == trimmed_text(s@),
{
    let mut from: usize = 0;
    let mut to: usize = 0;
    let mut at: usize = 0;
    let total: usize = s.unicode_len();
    for c in it: s.chars()
        invariant
            it.seq() == s@,
            at == it.index(),
            total == s@.len(),
            from <= to <= at,
            from == to ==> from == 0,
            from == to ==> forall|i: int| 0 <= i < at ==> is_space(#[trigger] s@[i]),
            from < to ==> {
                &&& forall|i: int| 0 <= i < from ==> is_space(#[trigger] s@[i])
                &&& !is_space(s@[from as int])
                &&& !is_space(s@[to - 1])
                &&& forall|i: int| to <= i < at ==> is_space(#[trigger] s@[i])
            },
    {
        if !is_whitespace(c) {
            if from == to {
                from = at;
            }
            to = at + 1;
        }
        at += 1;
    }
    proof {
        if from == to {
            lemma_trim_start(s@, s@.len() as int);
            assert(s@.skip(s@.len() as int) =~= s@.subrange(from as int, to as int));
        } else {
            lemma_trim_start(s@, from as int);
            let rest = s@.skip(from as int);
            assert forall|i: int| to - from <= i < rest.len() implies is_space(
                #[trigger] rest[i],
            ) by {
                assert(rest[i] == s@[i + from]);
            }
            lemma_trim_end(rest, to - from);
            assert(rest.take(to - from) =~= s@.subrange(from as int, to as int));
        }
    }
    s.substring_char(from, to)
}

/// Whether there is nothing but white space in a text.
pub fn is_blank(s: &str) -> (blank: bool)
    ensures
        blank == (trimmed_text(s@).len() == 0),
{
    trimmed(s).is_empty()
}

/// Where a character first stands in a text, or its length where it does not.
pub open spec fn find_in(s: Seq<char>, c: char) -> nat
    decreases s.len(),
{
    if s.len() == 0 || s[0] == c {
        0
    } else {
        1 + find_in(s.drop_first(), c)
    }
}

/// The first place of a character is where it stands and has not stood before.
pub proof fn lemma_find_in(s: Seq<char>, c: char, n: nat)
    requires
        n <= s.len(),
        forall|i: int| 0 <= i < n ==> #[trigger] s[i] != c,
        n < s.len() ==> s[n as int] == c,
    ensures
        find_in(s, c) == n,
    decreases s.len(),
{
    if n > 0 {
        let rest = s.drop_first();
        assert(s[0] != c);
        assert forall|i: int| 0 <= i < n - 1 implies #[trigger] rest[i] != c by {
            assert(rest[i] == s[i + 1]);
        }
        lemma_find_in(rest, c, (n - 1) as nat);
    }
}

/// Where a character first stands in a text, or its length where it does not.
pub fn find(s: &str, target: char) -> (at: usize)
    ensures
        at == find_in(s@, target),
        at <= s@.len(),
{
    let mut at: usize = 0;
    let total: usize = s.unicode_len();
    for c in it: s.chars()
        invariant
            it.seq() == s@,
            at == it.index(),
            total == s@.len(),
            forall|i: int| 0 <= i < at ==> #[trigger] s@[i] != target,
    {
        if c == target {
            proof {
                lemma_find_in(s@, target, at as nat);
            }
            return at;
        }
        at += 1;
    }
    proof {
        lemma_find_in(s@, target, at as nat);
    }
    at
}

/// What follows a prefix of a text, if the text starts with it.
pub open spec fn after_prefix(s: Seq<char>, prefix: Seq<char>) -> Option<Seq<char>> {
    if prefix.is_prefix_of(s) {
        Some(s.skip(prefix.len() as int))
    } else {
        None
    }
}

/// What follows a prefix of a text, if the text starts with it.
pub fn strip_prefix<'a>(s: &'a str, prefix: &str) -> (rest: Option<&'a str>)
    ensures
        match rest {
            Some(r) => after_prefix(s@, prefix@) == Some(r@),
            None => after_prefix(s@, prefix@) is None,
        },
{
    let n: usize = prefix.unicode_len();
    let total: usize = s.unicode_len();
    if n <= total && same(s.substring_char(0, n), prefix) {
        assert(s@.subrange(0, n as int) =~= s@.take(n as int));
        assert(s@.subrange(n as int, total as int) =~= s@.skip(n as int));
        Some(s.substring_char(n, total))
    } else {
        None
    }
}

/// Whether a character is a decimal digit.
pub open spec fn is_digit(c: char) -> bool {
    '0' <= c <= '9'
}

/// The number that decimal digits stand for; none where a character is no digit.
pub open spec fn digits_value(s: Seq<char>) -> Option<nat>
    decreases s.len(),
{
    if s.len() == 0 {
        Some(0)
    } else if !is_digit(s.last()) {
        None
    } else {
        match digits_value(s.drop_last()) {
            Some(v) => Some(10 * v + (s.last() as u32 - '0' as u32) as nat),
            None => None,
        }
    }
}

/// The port number that a text stands for: an optional plus sign and decimal digits, of
/// a number that fits.
pub open spec fn port_number(s: Seq<char>) -> Option<u16> {
    let digits = if s.len() > 0 && s[0] == '+' {
        s.drop_first()
    } else {
        s
    };
    match digits_value(digits) {
        Some(v) => if digits.len() > 0 && v <= u16::MAX {
            Some(v as u16)
        } else {
            None
        },
        None => None,
    }
}

/// Digits that stand for no number, or for one too large, do so whatever follows.
proof fn lemma_too_large_stays_too_large(s: Seq<char>, n: int, bound: nat)
    requires
        0 <= n <= s.len(),
        digits_value(s.take(n)) matches Some(v) ==> v > bound,
    ensures
        digits_value(s) matches Some(v) ==> v > bound,
    decreases s.len() - n,
{
    if n < s.len() {
        assert(s.take(n + 1).drop_last() =~= s.take(n));
        lemma_too_large_stays_too_large(s, n + 1, bound);
    } else {
        assert(s.take(n) =~= s);
    }
}

/// The port number that a text stands for.
pub fn parse_port(s: &str) -> (port: Option<u16>)
    ensures
        port == port_number(s@),
{
    let total: usize = s.unicode_len();
    let signed = total > 0 && s.get_char(0) == '+';
    let digits = if signed {
        s.substring_char(1, total)
    } else {
        s
    };
    assert(signed ==> digits@ =~= s@.drop_first());
    if digits.is_empty() {
        return None;
    }
    let mut value: u32 = 0;
    assert(digits@.take(0) =~= Seq::empty());
    for c in it: digits.chars()
        invariant
            it.seq() == digits@,
            digits@.len() > 0,
            port_number(s@) == (match digits_value(digits@) {
                Some(v) => if v <= u16::MAX {
                    Some(v as u16)
                } else {
                    None
                },
                None => None::<u16>,
            }),
            value <= u16::MAX,
            digits_value(digits@.take(it.index())) == Some(value as nat),
    {
        let ghost n = it.index();
        assert(digits@.take(n + 1).drop_last() =~= digits@.take(n));
        assert(digits@.take(n + 1).last() == c);
        if c < '0' || '9' < c {
            proof {
                lemma_too_large_stays_too_large(digits@, n + 1, u16::MAX as nat);
            }
            return None;
        }
        value = 10 * value + (c as u32 - '0' as u32);
        if value > u16::MAX as u32 {
            proof {
                lemma_too_large_stays_too_large(digits@, n + 1, u16::MAX as nat);
            }
            return None;
        }
    }
    assert(digits@.take(digits@.len() as int) =~= digits@);
    Some(value as u16)
}

} // verus!
