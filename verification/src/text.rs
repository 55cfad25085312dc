//! Text helpers stated over the characters of a string.

use vstd::prelude::*;

verus! {

/// The decimal digit `d` as a character.
pub open spec fn digit(d: nat) -> char {
    (48 + d) as char
}

/// `n` in decimal, without leading zeros.
pub open spec fn decimal(n: nat) -> Seq<char>
    decreases n,
{
    if n < 10 {
        seq![digit(n)]
    } else {
        decimal(n / 10).push(digit(n % 10))
    }
}

/// Whether `c` has the Unicode `White_Space` property.
pub open spec fn white_space(c: char) -> bool {
    ||| '\u{9}' <= c <= '\u{d}'
    ||| c == '\u{20}'
    ||| c == '\u{85}'
    ||| c == '\u{a0}'
    ||| c == '\u{1680}'
    ||| '\u{2000}' <= c <= '\u{200a}'
    ||| c == '\u{2028}'
    ||| c == '\u{2029}'
    ||| c == '\u{202f}'
    ||| c == '\u{205f}'
    ||| c == '\u{3000}'
}

/// `s` without the longest suffix whose characters all satisfy `drop`.
pub open spec fn trim_end(s: Seq<char>, drop: spec_fn(char) -> bool) -> Seq<char>
    decreases s.len(),
{
    if s.len() > 0 && drop(s.last()) {
        trim_end(s.drop_last(), drop)
    } else {
        s
    }
}

/// `s` without the longest prefix whose characters all satisfy `drop`.
pub open spec fn trim_start(s: Seq<char>, drop: spec_fn(char) -> bool) -> Seq<char>
    decreases s.len(),
{
    if s.len() > 0 && drop(s.first()) {
        trim_start(s.drop_first(), drop)
    } else {
        s
    }
}

/// The characters of `s`, in order.
pub(crate) fn chars_of(s: &str) -> (chars: Vec<char>)
    ensures
        chars@ == s@,
{
    let mut chars: Vec<char> = Vec::new();
    for c in it: s.chars()
        invariant
            it.seq() == s@,
            chars@ == s@.take(it.index() as int),
    {
        chars.push(c);
    }
    chars
}

fn digit_text(d: u64) -> (s: &'static str)
    requires
        d < 10,
    ensures
        s@ == seq![digit(d as nat)],
{
    proof {
        reveal_strlit("0");
        reveal_strlit("1");
        reveal_strlit("2");
        reveal_strlit("3");
        reveal_strlit("4");
        reveal_strlit("5");
        reveal_strlit("6");
        reveal_strlit("7");
        reveal_strlit("8");
        reveal_strlit("9");
    }
    match d {
        0 => "0",
        1 => "1",
        2 => "2",
        3 => "3",
        4 => "4",
        5 => "5",
        6 => "6",
        7 => "7",
        8 => "8",
        _ => "9",
    }
}

/// `n` in decimal.
pub(crate) fn decimal_text(n: u64) -> (s: String)
    ensures
        s@ == decimal(n as nat),
    decreases n,
{
    if n < 10 {
        digit_text(n).to_owned()
    } else {
        let mut s = decimal_text(n / 10);
        s.append(digit_text(n % 10));
        s
    }
}

/// Whether the two strings hold the same characters.
pub(crate) fn same_text(a: &str, b: &str) -> (same: bool)
    ensures
        same == (a@ == b@),
{
    let x = chars_of(a);
    let y = chars_of(b);
    if x.len() != y.len() {
        return false;
    }
    let mut i: usize = 0;
    while i < x.len()
        invariant
            i <= x@.len(),
            x@.len() == y@.len(),
            x@ == a@,
            y@ == b@,
            forall|j: int| 0 <= j < i ==> x@[j] == y@[j],
        decreases x@.len() - i,
    {
        if x[i] != y[i] {
            return false;
        }
        i = i + 1;
    }
    proof {
        assert(a@ =~= b@);
    }
    true
}

/// Whether `s` begins with the characters of `prefix`.
pub(crate) fn starts_with(s: &str, prefix: &str) -> (yes: bool)
    ensures
        yes == prefix@.is_prefix_of(s@),
{
    let x = chars_of(s);
    let y = chars_of(prefix);
    if x.len() < y.len() {
        return false;
    }
    let mut i: usize = 0;
    while i < y.len()
        invariant
            i <= y@.len() <= x@.len(),
            x@ == s@,
            y@ == prefix@,
            forall|j: int| 0 <= j < i ==> x@[j] == y@[j],
        decreases y@.len() - i,
    {
        if x[i] != y[i] {
            return false;
        }
        i = i + 1;
    }
    true
}

/// Whether `c` occurs in `s`.
pub(crate) fn contains_char(s: &str, c: char) -> (yes: bool)
    ensures
        yes == s@.contains(c),
{
    let x = chars_of(s);
    let mut i: usize = 0;
    while i < x.len()
        invariant
            i <= x@.len(),
            x@ == s@,
            forall|j: int| 0 <= j < i ==> x@[j] != c,
        decreases x@.len() - i,
    {
        if x[i] == c {
            return true;
        }
        i = i + 1;
    }
    false
}

/// Whether `c` has the Unicode `White_Space` property.
pub(crate) fn is_white_space(c: char) -> (yes: bool)
    ensures
        yes == white_space(c),
{
    ('\u{9}' <= c && c <= '\u{d}') || c == '\u{20}' || c == '\u{85}' || c == '\u{a0}' || c
        == '\u{1680}' || ('\u{2000}' <= c && c <= '\u{200a}') || c == '\u{2028}' || c == '\u{2029}'
        || c == '\u{202f}' || c == '\u{205f}' || c == '\u{3000}'
}

/// `s` without its leading and trailing white space.
pub(crate) fn trim(s: &str) -> (t: &str)
    ensures
        t@ == trim_start(
            trim_end(s@, |c: char| white_space(c)),
            |c: char| white_space(c),
        ),
{
    let x = chars_of(s);
    let ghost drop = |c: char| white_space(c);
    let mut end: usize = x.len();
    proof {
        assert(s@.take(end as int) =~= s@);
    }
    while end > 0 && is_white_space(x[end - 1])
        invariant
            end <= x@.len(),
            x@ == s@,
            drop == (|c: char| white_space(c)),
            trim_end(s@.take(end as int), drop) == trim_end(s@, drop),
        decreases end,
    {
        proof {
            assert(s@.take(end as int).drop_last() =~= s@.take(end - 1));
        }
        end = end - 1;
    }
    let ghost kept = s@.take(end as int);
    let mut start: usize = 0;
    proof {
        assert(kept.skip(0) =~= kept);
    }
    while start < end && is_white_space(x[start])
        invariant
            start <= end <= x@.len(),
            x@ == s@,
            kept == s@.take(end as int),
            drop == (|c: char| white_space(c)),
            trim_start(kept.skip(start as int), drop) == trim_start(kept, drop),
        decreases end - start,
    {
        proof {
            assert(kept.skip(start as int).drop_first() =~= kept.skip(start + 1));
        }
        start = start + 1;
    }
    proof {
        assert(s@.subrange(start as int, end as int) =~= kept.skip(start as int));
    }
    s.substring_char(start, end)
}

/// `s` without the occurrences of `c` at its end.
pub(crate) fn trim_end_char(s: &str, c: char) -> (t: &str)
    ensures
        t@ == trim_end(s@, |x: char| x == c),
{
    let x = chars_of(s);
    let ghost drop = |x: char| x == c;
    let mut end: usize = x.len();
    proof {
        assert(s@.take(end as int) =~= s@);
    }
    while end > 0 && x[end - 1] == c
        invariant
            end <= x@.len(),
            x@ == s@,
            drop == (|x: char| x == c),
            trim_end(s@.take(end as int), drop) == trim_end(s@, drop),
        decreases end,
    {
        proof {
            assert(s@.take(end as int).drop_last() =~= s@.take(end - 1));
        }
        end = end - 1;
    }
    proof {
        assert(s@.subrange(0, end as int) =~= s@.take(end as int));
    }
    s.substring_char(0, end)
}

/// Trimming leaves a sequence alone when nothing in it is to be dropped.
pub(crate) proof fn lemma_trim_keeps(s: Seq<char>, drop: spec_fn(char) -> bool)
    requires
        forall|i: int| 0 <= i < s.len() ==> !drop(#[trigger] s[i]),
    ensures
        trim_end(s, drop) == s,
        trim_start(s, drop) == s,
{
}

/// Trimming at the end takes away whatever is to be dropped there first.
pub(crate) proof fn lemma_trim_back(s: Seq<char>, after: Seq<char>, drop: spec_fn(char) -> bool)
    requires
        forall|i: int| 0 <= i < after.len() ==> drop(#[trigger] after[i]),
    ensures
        trim_end(s + after, drop) == trim_end(s, drop),
    decreases after.len(),
{
    let all = s + after;
    if after.len() > 0 {
        assert(all.last() == after.last());
        assert(all.drop_last() =~= s + after.drop_last());
        lemma_trim_back(s, after.drop_last(), drop);
    } else {
        assert(all =~= s);
    }
}

/// Trimming at the start takes away whatever is to be dropped there first.
pub(crate) proof fn lemma_trim_front(before: Seq<char>, s: Seq<char>, drop: spec_fn(char) -> bool)
    requires
        forall|i: int| 0 <= i < before.len() ==> drop(#[trigger] before[i]),
    ensures
        trim_start(before + s, drop) == trim_start(s, drop),
    decreases before.len(),
{
    let all = before + s;
    if before.len() > 0 {
        assert(all.first() == before.first());
        assert(all.drop_first() =~= before.drop_first() + s);
        lemma_trim_front(before.drop_first(), s, drop);
    } else {
        assert(all =~= s);
    }
}

/// Trimming at both ends takes away whatever is to be dropped at the start, even
/// where nothing else is left.
pub(crate) proof fn lemma_trim_both(before: Seq<char>, s: Seq<char>, drop: spec_fn(char) -> bool)
    requires
        forall|i: int| 0 <= i < before.len() ==> drop(#[trigger] before[i]),
    ensures
        trim_start(trim_end(before + s, drop), drop) == trim_start(trim_end(s, drop), drop),
    decreases s.len(),
{
    let all = before + s;
    if s.len() == 0 {
        assert(all =~= s + before);
        lemma_trim_back(s, before, drop);
    } else if drop(s.last()) {
        assert(all.drop_last() =~= before + s.drop_last());
        lemma_trim_both(before, s.drop_last(), drop);
    } else {
        lemma_trim_front(before, s, drop);
    }
}

/// Trimming at the start leaves alone what stands behind a character that is
/// kept.
pub(crate) proof fn lemma_trim_start_stops(
    s: Seq<char>,
    rest: Seq<char>,
    drop: spec_fn(char) -> bool,
)
    requires
        s.len() > 0,
        !drop(s.last()),
    ensures
        trim_start(s + rest, drop) == trim_start(s, drop) + rest,
    decreases s.len(),
{
    if drop(s.first()) {
        assert((s + rest).drop_first() =~= s.drop_first() + rest);
        assert(s.drop_first().last() == s.last());
        lemma_trim_start_stops(s.drop_first(), rest, drop);
    }
}

/// The number that `digits` writes in decimal.
pub open spec fn decimal_value(digits: Seq<char>) -> int
    decreases digits.len(),
{
    if digits.len() == 0 {
        0
    } else {
        10 * decimal_value(digits.drop_last()) + (digits.last() as int - 48)
    }
}

/// A number in decimal is made of digits, has no zero in front but where it is
/// zero, and reads back as the number.
pub proof fn law_decimal_reads_back(n: nat)
    ensures
        decimal_value(decimal(n)) == n,
        decimal(n).len() > 0,
        forall|i: int| 0 <= i < decimal(n).len() ==> '0' <= #[trigger] decimal(n)[i] <= '9',
        n > 0 ==> decimal(n)[0] != '0',
        n == 0 ==> decimal(n).len() == 1,
    decreases n,
{
    let text = decimal(n);
    if n < 10 {
        assert(text.drop_last() =~= Seq::empty());
        assert(decimal_value(text.drop_last()) == 0);
    } else {
        law_decimal_reads_back(n / 10);
        assert(text.drop_last() =~= decimal(n / 10));
        assert(text[0] == decimal(n / 10)[0]);
    }
}

/// The characters with the Unicode `White_Space` property, by their codes.
pub proof fn law_white_space_characters(c: char)
    ensures
        white_space(c) <==> {
            let code = c as int;
            ||| 9 <= code <= 13
            ||| code == 32 || code == 133 || code == 160 || code == 5760
            ||| 8192 <= code <= 8202
            ||| code == 8232 || code == 8233 || code == 8239 || code == 8287 || code == 12288
        },
{
}

} // verus!
