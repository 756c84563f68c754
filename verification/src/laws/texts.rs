//! What holds of the functions on texts that the decisions rest on.
use crate::string_map::map_of;
use crate::text::{
    ascii_lower, decimal, digit_char, equal_ignoring_ascii_case, has_double_dot, has_part, joined,
    lower, stands_at, text_before, trimmed, trimmed_end, trimmed_start, white_space,
    without_leading,
};
use vstd::prelude::*;

verus! {

/// Spaces, tabs and line ends are white space, and no visible ASCII character
/// is. Beyond ASCII the characters are those that Unicode calls white space.
pub proof fn visible_characters_are_not_white_space(c: char)
    ensures
        c as u32 > 127 ==> (white_space(c) <==> {
            ||| c as u32 == 0x85 || c as u32 == 0xa0 || c as u32 == 0x1680
            ||| 0x2000 <= c as u32 && c as u32 <= 0x200a
            ||| c as u32 == 0x2028 || c as u32 == 0x2029 || c as u32 == 0x202f
            ||| c as u32 == 0x205f || c as u32 == 0x3000
        }),
        (c as u32) < 9 || c as u32 == 127 || 13 < c as u32 && (c as u32) < 32 ==> !white_space(c),
        9 <= c as u32 && c as u32 <= 13 ==> white_space(c),
        c == ' ' || c == '\t' || c == '\n' || c == '\r' ==> white_space(c),
        '!' <= c && c <= '~' ==> !white_space(c),
        'a' <= c && c <= 'z' || 'A' <= c && c <= 'Z' || '0' <= c && c <= '9' ==> !white_space(c),
{
}

proof fn start_is_cut(s: Seq<char>) -> (i: int)
    ensures
        0 <= i <= s.len(),
        trimmed_start(s) == s.skip(i),
        forall|k: int| 0 <= k < i ==> white_space(#[trigger] s[k]),
        i < s.len() ==> !white_space(s[i]),
    decreases s.len(),
{
    if s.len() > 0 && white_space(s[0]) {
        let rest = s.skip(1);
        let i = start_is_cut(rest);
        assert(rest.skip(i) =~= s.skip(i + 1));
        assert forall|k: int| 0 <= k < i + 1 implies white_space(#[trigger] s[k]) by {
            if k > 0 {
                assert(rest[k - 1] == s[k]);
            }
        }
        assert(i < rest.len() ==> rest[i] == s[i + 1]);
        i + 1
    } else {
        assert(s.skip(0) =~= s);
        0
    }
}

proof fn end_is_cut(s: Seq<char>) -> (j: int)
    ensures
        0 <= j <= s.len(),
        trimmed_end(s) == s.take(j),
        forall|k: int| j <= k < s.len() ==> white_space(#[trigger] s[k]),
        j > 0 ==> !white_space(s[j - 1]),
    decreases s.len(),
{
    if s.len() > 0 && white_space(s.last()) {
        let rest = s.drop_last();
        let j = end_is_cut(rest);
        assert(rest.take(j) =~= s.take(j));
        assert forall|k: int| j <= k < s.len() implies white_space(#[trigger] s[k]) by {
            if k < rest.len() {
                assert(rest[k] == s[k]);
            }
        }
        assert(j > 0 ==> rest[j - 1] == s[j - 1]);
        j
    } else {
        assert(s.take(s.len() as int) =~= s);
        s.len() as int
    }
}

/// To trim a text is to cut white space from its ends, all of it, and nothing
/// else.
pub proof fn trimming_cuts_white_space_from_the_ends(s: Seq<char>)
    ensures
        exists|i: int, j: int|
            {
                &&& 0 <= i <= j <= s.len()
                &&& trimmed(s) == #[trigger] s.subrange(i, j)
                &&& forall|k: int| 0 <= k < i || j <= k < s.len() ==> white_space(#[trigger] s[k])
                &&& i < j ==> !white_space(s[i]) && !white_space(s[j - 1])
            },
{
    let i = start_is_cut(s);
    let rest = s.skip(i);
    let n = end_is_cut(rest);
    let j = i + n;
    assert(s.subrange(i, j) =~= rest.take(n));
    assert forall|k: int| 0 <= k < i || j <= k < s.len() implies white_space(#[trigger] s[k]) by {
        if k >= j {
            assert(rest[k - i] == s[k]);
        }
    }
    if i < j {
        assert(rest[n - 1] == s[j - 1]);
        assert(rest[0] == s[i]);
    }
    assert(trimmed(s) == s.subrange(i, j));
}

/// Lower case changes the capital letters of ASCII to the small ones, and
/// nothing else; texts are equal but for case exactly when they are equal in
/// lower case.
pub proof fn lower_case_is_of_ascii_letters(a: Seq<char>, b: Seq<char>, i: int)
    ensures
        lower(a).len() == a.len(),
        0 <= i < a.len() && 'A' <= a[i] && a[i] <= 'Z' ==> lower(a)[i] as u32 == a[i] as u32 + 32,
        0 <= i < a.len() && !('A' <= a[i] && a[i] <= 'Z') ==> lower(a)[i] == a[i],
        equal_ignoring_ascii_case(a, b) <==> lower(a) == lower(b),
{
    if equal_ignoring_ascii_case(a, b) {
        assert(lower(a) =~= lower(b));
    }
    if lower(a) == lower(b) {
        assert(lower(a).len() == a.len() && lower(b).len() == b.len());
        assert forall|k: int| 0 <= k < a.len() implies ascii_lower(#[trigger] a[k])
            == ascii_lower(b[k]) by {
            assert(lower(a)[k] == lower(b)[k]);
        }
    }
}

/// The number that decimal digits stand for.
pub open spec fn number_of(digits: Seq<char>) -> nat
    decreases digits.len(),
{
    if digits.len() == 0 {
        0
    } else {
        (10 * number_of(digits.drop_last()) + (digits.last() as u32 - '0' as u32)) as nat
    }
}

/// A number in decimal is digits that stand for it, without a zero in front.
pub proof fn decimals_stand_for_their_number(n: nat)
    ensures
        number_of(decimal(n)) == n,
        decimal(n).len() > 0,
        forall|i: int|
            0 <= i < decimal(n).len() ==> '0' <= #[trigger] decimal(n)[i] && decimal(n)[i] <= '9',
        decimal(n).len() > 1 ==> decimal(n)[0] != '0',
        n < 10 ==> decimal(n).len() == 1,
        n > 0 ==> decimal(n)[0] != '0',
    decreases n,
{
    if n < 10 {
        let digits = decimal(n);
        assert(digits.drop_last() =~= Seq::empty());
        assert(number_of(digits.drop_last()) == 0);
        assert(digits.last() == digit_char(n));
    } else {
        decimals_stand_for_their_number(n / 10);
        let front = decimal(n / 10);
        let digits = decimal(n);
        assert(digits.drop_last() =~= front);
        assert(digits.last() == digit_char(n % 10));
        assert(digits[0] == front[0]);
        assert forall|i: int| 0 <= i < digits.len() implies '0' <= #[trigger] digits[i]
            && digits[i] <= '9' by {
            if i < front.len() {
                assert(digits[i] == front[i]);
            }
        }
    }
}

/// One text is before another where it is a proper start of it, and where the
/// first character in which they differ is smaller.
pub proof fn texts_are_ordered_by_their_first_difference(a: Seq<char>, b: Seq<char>, i: int)
    requires
        0 <= i <= a.len(),
        i <= b.len(),
        a.take(i) == b.take(i),
    ensures
        i == a.len() && i < b.len() ==> text_before(a, b),
        i < a.len() && i < b.len() && a[i] < b[i] ==> text_before(a, b),
        i < a.len() && i < b.len() && a[i] > b[i] ==> !text_before(a, b),
        i == b.len() ==> !text_before(a, b),
    decreases i,
{
    if i > 0 {
        assert(a.take(i)[0] == a[0] && b.take(i)[0] == b[0]);
        let x = a.skip(1);
        let y = b.skip(1);
        assert(x.take(i - 1) =~= a.take(i).skip(1));
        assert(y.take(i - 1) =~= b.take(i).skip(1));
        texts_are_ordered_by_their_first_difference(x, y, i - 1);
        if i < a.len() {
            assert(x[i - 1] == a[i]);
        }
        if i < b.len() {
            assert(y[i - 1] == b[i]);
        }
    }
}

/// A list of texts is joined part by part, with the separator between any two
/// and nowhere else.
pub proof fn joining_puts_the_separator_between(
    a: Seq<Seq<char>>,
    b: Seq<Seq<char>>,
    part: Seq<char>,
    separator: Seq<char>,
)
    ensures
        joined(Seq::empty(), separator) == Seq::<char>::empty(),
        joined(seq![part], separator) == part,
        a.len() > 0 && b.len() > 0 ==> joined(a + b, separator) == joined(a, separator) + separator
            + joined(b, separator),
    decreases b.len(),
{
    if a.len() > 0 && b.len() > 0 {
        assert((a + b).drop_last() =~= a + b.drop_last());
        assert((a + b).last() == b.last());
        if b.len() == 1 {
            assert(a + b.drop_last() =~= a);
        } else {
            joining_puts_the_separator_between(a, b.drop_last(), part, separator);
            assert(joined(a + b, separator) =~= joined(a, separator) + separator + joined(
                b,
                separator,
            ));
        }
    }
}

/// What is left of a text without the leading ones of a character: all of it
/// from the first other character on.
pub proof fn leading_characters_are_cut(s: Seq<char>, c: char)
    ensures
        exists|k: int|
            {
                &&& 0 <= k <= s.len()
                &&& without_leading(s, c) == #[trigger] s.skip(k)
                &&& forall|j: int| 0 <= j < k ==> s[j] == c
                &&& k < s.len() ==> s[k] != c
            },
    decreases s.len(),
{
    if s.len() > 0 && s[0] == c {
        let rest = s.skip(1);
        leading_characters_are_cut(rest, c);
        let k = choose|k: int|
            {
                &&& 0 <= k <= rest.len()
                &&& without_leading(rest, c) == #[trigger] rest.skip(k)
                &&& forall|j: int| 0 <= j < k ==> rest[j] == c
                &&& k < rest.len() ==> rest[k] != c
            };
        assert(rest.skip(k) =~= s.skip(k + 1));
        assert forall|j: int| 0 <= j < k + 1 implies s[j] == c by {
            if j > 0 {
                assert(rest[j - 1] == s[j]);
            }
        }
        if k < rest.len() {
            assert(rest[k] == s[k + 1]);
        }
        assert(without_leading(s, c) == s.skip(k + 1));
    } else {
        assert(s.skip(0) =~= s);
        assert(without_leading(s, c) == s.skip(0));
    }
}

/// A part is in a text exactly where the text is something, the part, and
/// something more.
pub proof fn parts_stand_in_texts(
    s: Seq<char>,
    before: Seq<char>,
    part: Seq<char>,
    after: Seq<char>,
)
    ensures
        has_part(before + part + after, part),
        has_part(s, part) ==> exists|i: int|
            0 <= i && i + part.len() <= s.len() && #[trigger] s.subrange(i, i + part.len())
                == part,
{
    let whole = before + part + after;
    let n = before.len() as int;
    assert(whole.subrange(n, n + part.len()) =~= part);
    assert(stands_at(whole, part, n));
    if has_part(s, part) {
        let i = choose|i: int| stands_at(s, part, i);
        assert(s.subrange(i, i + part.len()) == part);
    }
}

/// Two dots in a row are a part of a text like any other.
pub proof fn double_dots_are_parts(s: Seq<char>)
    ensures
        has_double_dot(s) <==> has_part(s, ".."@),
{
    reveal_strlit("..");
    if has_double_dot(s) {
        let i = choose|i: int|
            0 <= i && i + 1 < s.len() && #[trigger] s[i] == '.' && s[i + 1] == '.';
        assert(s.subrange(i, i + 2) =~= ".."@);
        assert(stands_at(s, ".."@, i));
    }
    if has_part(s, ".."@) {
        let i = choose|i: int| stands_at(s, ".."@, i);
        assert(s.subrange(i, i + 2)[0] == s[i]);
        assert(s.subrange(i, i + 2)[1] == s[i + 1]);
    }
}

/// A map of pairs has the keys of the pairs and no others, and each has the
/// value of the last pair with that key.
pub proof fn the_last_pair_counts<T>(pairs: Seq<(Seq<char>, T)>, key: Seq<char>, i: int)
    ensures
        map_of(pairs).contains_key(key) <==> exists|k: int|
            0 <= k < pairs.len() && (#[trigger] pairs[k]).0 == key,
        0 <= i < pairs.len() && pairs[i].0 == key && (forall|k: int|
            i < k < pairs.len() ==> (#[trigger] pairs[k]).0 != key) ==> map_of(pairs)[key]
            == pairs[i].1,
    decreases pairs.len(),
{
    if pairs.len() > 0 {
        let rest = pairs.drop_last();
        let n = pairs.len() - 1;
        the_last_pair_counts(rest, key, i);
        if map_of(rest).contains_key(key) {
            let k = choose|k: int| 0 <= k < rest.len() && (#[trigger] rest[k]).0 == key;
            assert(pairs[k].0 == key);
        }
        if pairs.last().0 == key {
            assert(pairs[n].0 == key);
        } else if exists|k: int| 0 <= k < pairs.len() && (#[trigger] pairs[k]).0 == key {
            let k = choose|k: int| 0 <= k < pairs.len() && (#[trigger] pairs[k]).0 == key;
            assert(rest[k].0 == key);
        }
        if 0 <= i < n && pairs[i].0 == key && (forall|k: int|
            i < k < pairs.len() ==> (#[trigger] pairs[k]).0 != key) {
            assert(pairs[n].0 != key);
            assert forall|k: int| i < k < rest.len() implies (#[trigger] rest[k]).0 != key by {
                assert(pairs[k].0 != key);
            }
            assert(rest[i] == pairs[i]);
        }
    }
}

} // verus!
