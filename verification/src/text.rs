//! Text as sequences of characters: the comparisons, searches and
//! concatenations that the rest of the library is written with.
use vstd::prelude::*;
use vstd::utf8::encode_utf8;

verus! {

/// The characters that carry Unicode's `White_Space` property.
pub open spec fn white_space(c: char) -> bool {
    let n = c as u32;
    ||| 0x9 <= n <= 0xd
    ||| n == 0x20
    ||| n == 0x85
    ||| n == 0xa0
    ||| n == 0x1680
    ||| 0x2000 <= n <= 0x200a
    ||| n == 0x2028
    ||| n == 0x2029
    ||| n == 0x202f
    ||| n == 0x205f
    ||| n == 0x3000
}

/// `s` without its leading white space.
pub open spec fn trimmed_start(s: Seq<char>) -> Seq<char>
    decreases s.len(),
{
    if s.len() > 0 && white_space(s[0]) {
        trimmed_start(s.skip(1))
    } else {
        s
    }
}

/// `s` without its trailing white space.
pub open spec fn trimmed_end(s: Seq<char>) -> Seq<char>
    decreases s.len(),
{
    if s.len() > 0 && white_space(s.last()) {
        trimmed_end(s.drop_last())
    } else {
        s
    }
}

/// `s` without white space at either end.
pub open spec fn trimmed(s: Seq<char>) -> Seq<char> {
    trimmed_end(trimmed_start(s))
}

/// The lower-case form of an ASCII letter; any other character is itself.
pub open spec fn ascii_lower(c: char) -> char {
    if 'A' <= c && c <= 'Z' {
        ((c as u8) + 32) as u8 as char
    } else {
        c
    }
}

/// Whether two texts agree up to the case of ASCII letters.
pub open spec fn equal_ignoring_ascii_case(a: Seq<char>, b: Seq<char>) -> bool {
    &&& a.len() == b.len()
    &&& forall|i: int| 0 <= i < a.len() ==> ascii_lower(#[trigger] a[i]) == ascii_lower(b[i])
}

/// What stands before and after the first `c` of `s`.
pub open spec fn split_at_first(s: Seq<char>, c: char) -> Option<(Seq<char>, Seq<char>)>
    decreases s.len(),
{
    if s.len() == 0 {
        None
    } else if s[0] == c {
        Some((Seq::empty(), s.skip(1)))
    } else {
        match split_at_first(s.skip(1), c) {
            Some((before, after)) => Some((seq![s[0]] + before, after)),
            None => None,
        }
    }
}

/// The order of texts by their characters' code points, first difference first.
pub open spec fn text_before(a: Seq<char>, b: Seq<char>) -> bool
    decreases a.len(),
{
    if b.len() == 0 {
        false
    } else if a.len() == 0 {
        true
    } else if a[0] == b[0] {
        text_before(a.skip(1), b.skip(1))
    } else {
        a[0] < b[0]
    }
}

/// The parts one after another, `separator` between neighbours.
pub open spec fn joined(parts: Seq<Seq<char>>, separator: Seq<char>) -> Seq<char>
    decreases parts.len(),
{
    if parts.len() == 0 {
        Seq::empty()
    } else if parts.len() == 1 {
        parts[0]
    } else {
        joined(parts.drop_last(), separator) + separator + parts.last()
    }
}

/// The views of a list of strings.
pub open spec fn texts(list: Seq<String>) -> Seq<Seq<char>> {
    list.map_values(|s: String| s@)
}

/// The view of an optional string.
pub open spec fn text_of(value: Option<String>) -> Option<Seq<char>> {
    match value {
        Some(s) => Some(s@),
        None => None,
    }
}

/// The characters of `s`.
pub fn chars_of(s: &str) -> (r: Vec<char>)
    ensures
        r@ == s@,
{
    let mut out: Vec<char> = Vec::new();
    for c in it: s.chars()
        invariant
            it.seq() == s@,
            out@ == s@.take(it.index() as int),
    {
        out.push(c);
    }
    out
}

/// Whether `a` and `b` are the same text.
pub fn same(a: &str, b: &str) -> (r: bool)
    ensures
        r == (a@ == b@),
{
    let x = a.as_bytes();
    let y = b.as_bytes();
    proof {
        vstd::utf8::encode_utf8_decode_utf8(a@);
        vstd::utf8::encode_utf8_decode_utf8(b@);
    }
    if x.len() != y.len() {
        return false;
    }
    let mut i: usize = 0;
    while i < x.len()
        invariant
            i <= x@.len(),
            x@.len() == y@.len(),
            x@ == encode_utf8(a@),
            y@ == encode_utf8(b@),
            forall|j: int| 0 <= j < i ==> x@[j] == y@[j],
        decreases x@.len() - i,
    {
        if x[i] != y[i] {
            return false;
        }
        i = i + 1;
    }
    assert(x@ =~= y@);
    true
}

/// Whether `c` occurs in `s`.
pub fn contains_char(s: &str, c: char) -> (r: bool)
    ensures
        r == s@.contains(c),
{
    let chars = chars_of(s);
    let mut i: usize = 0;
    while i < chars.len()
        invariant
            i <= chars@.len(),
            chars@ == s@,
            forall|j: int| 0 <= j < i ==> s@[j] != c,
        decreases chars@.len() - i,
    {
        if chars[i] == c {
            return true;
        }
        i = i + 1;
    }
    false
}

/// Whether two full stops follow one another somewhere in the text.
pub open spec fn has_double_dot(s: Seq<char>) -> bool {
    exists|i: int| 0 <= i && i + 1 < s.len() && #[trigger] s[i] == '.' && s[i + 1] == '.'
}

/// Whether two full stops follow one another somewhere in `s`.
pub fn contains_double_dot(s: &str) -> (r: bool)
    ensures
        r == has_double_dot(s@),
{
    let chars = chars_of(s);
    let mut i: usize = 1;
    while i < chars.len()
        invariant
            1 <= i,
            i <= chars@.len() || chars@.len() == 0,
            chars@ == s@,
            forall|j: int| 0 <= j && j + 1 < i ==> !(#[trigger] s@[j] == '.' && s@[j + 1] == '.'),
        decreases chars@.len() - i,
    {
        if chars[i - 1] == '.' && chars[i] == '.' {
            assert(s@[i - 1] == '.' && s@[i - 1 + 1] == '.');
            return true;
        }
        i = i + 1;
    }
    false
}

/// Whether some character of `s` is white space.
pub fn has_white_space(s: &str) -> (r: bool)
    ensures
        r == (exists|i: int| 0 <= i < s@.len() && white_space(#[trigger] s@[i])),
{
    let chars = chars_of(s);
    let mut i: usize = 0;
    while i < chars.len()
        invariant
            i <= chars@.len(),
            chars@ == s@,
            forall|j: int| 0 <= j < i ==> !white_space(#[trigger] s@[j]),
        decreases chars@.len() - i,
    {
        if is_white_space(chars[i]) {
            return true;
        }
        i = i + 1;
    }
    false
}

/// Whether `c` is white space.
pub fn is_white_space(c: char) -> (r: bool)
    ensures
        r == white_space(c),
{
    let n: u32 = c as u32;
    (0x9 <= n && n <= 0xd) || n == 0x20 || n == 0x85 || n == 0xa0 || n == 0x1680 || (0x2000 <= n
        && n <= 0x200a) || n == 0x2028 || n == 0x2029 || n == 0x202f || n == 0x205f || n == 0x3000
}

/// Whether `s` begins with `prefix`.
pub fn starts_with(s: &str, prefix: &str) -> (r: bool)
    ensures
        r == prefix@.is_prefix_of(s@),
{
    let chars = chars_of(s);
    let head = chars_of(prefix);
    if head.len() > chars.len() {
        return false;
    }
    let mut i: usize = 0;
    while i < head.len()
        invariant
            i <= head@.len() <= chars@.len(),
            chars@ == s@,
            head@ == prefix@,
            forall|j: int| 0 <= j < i ==> s@[j] == prefix@[j],
        decreases head@.len() - i,
    {
        if head[i] != chars[i] {
            assert(prefix@[i as int] != s@.subrange(0, prefix@.len() as int)[i as int]);
            return false;
        }
        i = i + 1;
    }
    assert(prefix@ =~= s@.subrange(0, prefix@.len() as int));
    true
}

/// Whether `s` ends with `suffix`.
pub fn ends_with(s: &str, suffix: &str) -> (r: bool)
    ensures
        r == suffix@.is_suffix_of(s@),
{
    let chars = chars_of(s);
    let tail = chars_of(suffix);
    if tail.len() > chars.len() {
        return false;
    }
    let from: usize = chars.len() - tail.len();
    let mut i: usize = 0;
    while i < tail.len()
        invariant
            i <= tail@.len() <= chars@.len(),
            from + tail.len() == chars.len(),
            chars@ == s@,
            tail@ == suffix@,
            forall|j: int| 0 <= j < i ==> s@[from + j] == suffix@[j],
        decreases tail@.len() - i,
    {
        if tail[i] != chars[from + i] {
            assert(suffix@[i as int] != s@.subrange(from as int, s@.len() as int)[i as int]);
            return false;
        }
        i = i + 1;
    }
    assert(suffix@ =~= s@.subrange(from as int, s@.len() as int));
    true
}

/// What follows `prefix` in `s`, where `s` begins with it.
pub fn strip_prefix<'a>(s: &'a str, prefix: &str) -> (r: Option<&'a str>)
    ensures
        r is Some <==> prefix@.is_prefix_of(s@),
        r matches Some(rest) ==> rest@ == s@.skip(prefix@.len() as int),
{
    if starts_with(s, prefix) {
        let from: usize = prefix.unicode_len();
        let to: usize = s.unicode_len();
        let rest = s.substring_char(from, to);
        assert(rest@ =~= s@.skip(prefix@.len() as int));
        Some(rest)
    } else {
        None
    }
}

/// `split_at_first` in terms of the index of the first `c`.
pub proof fn split_at_first_index(s: Seq<char>, c: char, i: int)
    requires
        0 <= i < s.len(),
        s[i] == c,
        forall|j: int| 0 <= j < i ==> s[j] != c,
    ensures
        split_at_first(s, c) == Some((s.take(i), s.skip(i + 1))),
    decreases s.len(),
{
    if i == 0 {
        assert(s.take(0) =~= Seq::empty());
    } else {
        let t = s.skip(1);
        split_at_first_index(t, c, i - 1);
        assert(seq![s[0]] + t.take(i - 1) =~= s.take(i));
        assert(t.skip(i) =~= s.skip(i + 1));
    }
}

/// A text without `c` does not split at it.
pub proof fn split_at_first_absent(s: Seq<char>, c: char)
    requires
        !s.contains(c),
    ensures
        split_at_first(s, c) is None,
    decreases s.len(),
{
    if s.len() > 0 {
        assert(s.contains(s[0]));
        let t = s.skip(1);
        assert forall|j: int| 0 <= j < t.len() implies t[j] != c by {
            assert(s.contains(s[j + 1]));
        }
        split_at_first_absent(t, c);
    }
}

/// The two halves of a split, put back round the character, are the text, and
/// the character does not occur in the first half.
pub proof fn split_at_first_parts(s: Seq<char>, c: char)
    ensures
        split_at_first(s, c) is Some <==> s.contains(c),
        split_at_first(s, c) matches Some((before, after)) ==> {
            &&& s == before + seq![c] + after
            &&& !before.contains(c)
        },
    decreases s.len(),
{
    if s.contains(c) {
        let k = choose|k: int| 0 <= k < s.len() && s[k] == c;
        let i = first_index(s, c, 0, k);
        split_at_first_index(s, c, i);
        assert(s =~= s.take(i) + seq![c] + s.skip(i + 1));
    } else {
        split_at_first_absent(s, c);
    }
}

proof fn first_index(s: Seq<char>, c: char, from: int, k: int) -> (i: int)
    requires
        0 <= from <= k < s.len(),
        s[k] == c,
        forall|j: int| 0 <= j < from ==> s[j] != c,
    ensures
        0 <= i < s.len(),
        s[i] == c,
        forall|j: int| 0 <= j < i ==> s[j] != c,
    decreases k - from,
{
    if s[from] == c {
        from
    } else {
        first_index(s, c, from + 1, k)
    }
}

/// The text before and after the first `c`, where `c` occurs.
pub fn split_once<'a>(s: &'a str, c: char) -> (r: Option<(&'a str, &'a str)>)
    ensures
        r is Some <==> split_at_first(s@, c) is Some,
        r matches Some((before, after)) ==> split_at_first(s@, c) == Some((before@, after@)),
{
    let chars = chars_of(s);
    let mut i: usize = 0;
    while i < chars.len()
        invariant
            i <= chars@.len(),
            chars@ == s@,
            forall|j: int| 0 <= j < i ==> s@[j] != c,
        decreases chars@.len() - i,
    {
        if chars[i] == c {
            let before = s.substring_char(0, i);
            let after = s.substring_char(i + 1, chars.len());
            proof {
                split_at_first_index(s@, c, i as int);
                assert(before@ =~= s@.take(i as int));
                assert(after@ =~= s@.skip(i + 1));
            }
            return Some((before, after));
        }
        i = i + 1;
    }
    proof {
        split_at_first_absent(s@, c);
    }
    None
}

/// `s` without white space at either end.
pub fn trim<'a>(s: &'a str) -> (r: &'a str)
    ensures
        r@ == trimmed(s@),
{
    let chars = chars_of(s);
    let n: usize = chars.len();
    let mut i: usize = 0;
    assert(s@.skip(0) =~= s@);
    while i < n && is_white_space(chars[i])
        invariant
            i <= n,
            n == chars@.len(),
            chars@ == s@,
            trimmed_start(s@) == trimmed_start(s@.skip(i as int)),
        decreases n - i,
    {
        assert(s@.skip(i as int).skip(1) =~= s@.skip(i + 1));
        i = i + 1;
        assert(s@.skip(i - 1)[0] == s@[i - 1]);
    }
    assert(i < n ==> s@.skip(i as int)[0] == s@[i as int]);
    let ghost rest = s@.skip(i as int);
    let mut j: usize = n;
    while j > i && is_white_space(chars[j - 1])
        invariant
            i <= j <= n,
            n == chars@.len(),
            chars@ == s@,
            trimmed_end(rest) == trimmed_end(s@.subrange(i as int, j as int)),
        decreases j,
    {
        let ghost piece = s@.subrange(i as int, j as int);
        assert(piece.last() == s@[j - 1]);
        assert(piece.drop_last() =~= s@.subrange(i as int, j - 1));
        j = j - 1;
    }
    let ghost piece = s@.subrange(i as int, j as int);
    assert(j > i ==> piece.last() == s@[j - 1]);
    s.substring_char(i, j)
}

proof fn trimmed_start_is_suffix(s: Seq<char>)
    ensures
        trimmed_start(s).len() > 0 ==> !white_space(trimmed_start(s)[0]),
    decreases s.len(),
{
    if s.len() > 0 && white_space(s[0]) {
        trimmed_start_is_suffix(s.skip(1));
    }
}

proof fn trimmed_end_is_prefix(s: Seq<char>)
    ensures
        trimmed_end(s).len() > 0 ==> !white_space(trimmed_end(s).last()) && trimmed_end(s)[0]
            == s[0],
    decreases s.len(),
{
    if s.len() > 0 && white_space(s.last()) {
        trimmed_end_is_prefix(s.drop_last());
    }
}

/// Trimmed text neither begins nor ends with white space.
pub proof fn trimmed_has_no_white_space_at_its_ends(s: Seq<char>)
    ensures
        trimmed(s).len() > 0 ==> !white_space(trimmed(s)[0]) && !white_space(trimmed(s).last()),
{
    trimmed_start_is_suffix(s);
    trimmed_end_is_prefix(trimmed_start(s));
    if trimmed(s).len() > 0 {
        assert(trimmed_start(s).len() > 0) by {
            if trimmed_start(s).len() == 0 {
                assert(trimmed_end(trimmed_start(s)) == trimmed_start(s));
            }
        }
    }
}

/// The lower-case form of an ASCII letter; any other character is itself.
pub fn to_ascii_lower(c: char) -> (r: char)
    ensures
        r == ascii_lower(c),
{
    if 'A' <= c && c <= 'Z' {
        ((c as u8) + 32) as char
    } else {
        c
    }
}

/// Whether two texts agree up to the case of ASCII letters.
pub fn same_ignoring_ascii_case(a: &str, b: &str) -> (r: bool)
    ensures
        r == equal_ignoring_ascii_case(a@, b@),
{
    let x = chars_of(a);
    let y = chars_of(b);
    if x.len() != y.len() {
        return false;
    }
    let mut i: usize = 0;
    while i < x.len()
        invariant
            i <= x@.len(),
            x@.len() == y@.len(),
            x@ == a@,
            y@ == b@,
            forall|j: int| 0 <= j < i ==> ascii_lower(#[trigger] a@[j]) == ascii_lower(b@[j]),
        decreases x@.len() - i,
    {
        if to_ascii_lower(x[i]) != to_ascii_lower(y[i]) {
            return false;
        }
        i = i + 1;
    }
    true
}

/// `a`, then `b`.
pub fn cat2(a: &str, b: &str) -> (r: String)
    ensures
        r@ == a@ + b@,
{
    let mut out = a.to_owned();
    out.append(b);
    out
}

/// `a`, `b` and `c`, one after another.
pub fn cat3(a: &str, b: &str, c: &str) -> (r: String)
    ensures
        r@ == a@ + b@ + c@,
{
    let mut out = a.to_owned();
    out.append(b);
    out.append(c);
    out
}

/// Four texts, one after another.
pub fn cat4(a: &str, b: &str, c: &str, d: &str) -> (r: String)
    ensures
        r@ == a@ + b@ + c@ + d@,
{
    let mut out = cat3(a, b, c);
    out.append(d);
    out
}

/// Five texts, one after another.
pub fn cat5(a: &str, b: &str, c: &str, d: &str, e: &str) -> (r: String)
    ensures
        r@ == a@ + b@ + c@ + d@ + e@,
{
    let mut out = cat4(a, b, c, d);
    out.append(e);
    out
}

/// Seven texts, one after another.
pub fn cat7(a: &str, b: &str, c: &str, d: &str, e: &str, f: &str, g: &str) -> (r: String)
    ensures
        r@ == a@ + b@ + c@ + d@ + e@ + f@ + g@,
{
    let mut out = cat5(a, b, c, d, e);
    out.append(f);
    out.append(g);
    out
}

/// The parts one after another, `separator` between neighbours.
pub fn join(parts: &Vec<String>, separator: &str) -> (r: String)
    ensures
        r@ == joined(texts(parts@), separator@),
{
    let mut out = String::new();
    let mut i: usize = 0;
    while i < parts.len()
        invariant
            i <= parts@.len(),
            out@ == joined(texts(parts@).take(i as int), separator@),
        decreases parts@.len() - i,
    {
        if i > 0 {
            out.append(separator);
        }
        out.append(parts[i].as_str());
        i = i + 1;
        proof {
            let head = texts(parts@).take(i as int);
            assert(head.drop_last() =~= texts(parts@).take(i - 1));
            assert(head.last() == parts@[i - 1]@);
            if i == 1 {
                assert(out@ =~= head[0]);
            }
        }
    }
    assert(texts(parts@).take(i as int) =~= texts(parts@));
    out
}

/// Whether `value` is one of `list`.
pub fn contains_text(list: &Vec<String>, value: &str) -> (r: bool)
    ensures
        r == texts(list@).contains(value@),
{
    let mut i: usize = 0;
    while i < list.len()
        invariant
            i <= list@.len(),
            forall|j: int| 0 <= j < i ==> texts(list@)[j] != value@,
        decreases list@.len() - i,
    {
        if same(list[i].as_str(), value) {
            assert(texts(list@)[i as int] == value@);
            return true;
        }
        i = i + 1;
    }
    false
}

/// A copy of a list of strings.
pub fn copy_texts(list: &Vec<String>) -> (r: Vec<String>)
    ensures
        r@ == list@,
{
    let mut out: Vec<String> = Vec::new();
    let mut i: usize = 0;
    while i < list.len()
        invariant
            i <= list@.len(),
            out@ == list@.take(i as int),
        decreases list@.len() - i,
    {
        out.push(list[i].clone());
        i = i + 1;
        assert(list@.take(i as int).drop_last() =~= list@.take(i - 1));
    }
    assert(list@.take(i as int) =~= list@);
    out
}

/// A copy of an optional string.
pub fn copy_text(value: &Option<String>) -> (r: Option<String>)
    ensures
        r == *value,
{
    match value {
        Some(s) => Some(s.clone()),
        None => None,
    }
}

/// Whether two optional texts agree.
pub fn same_option(a: &Option<String>, b: &Option<String>) -> (r: bool)
    ensures
        r == (text_of(*a) == text_of(*b)),
{
    match (a, b) {
        (Some(x), Some(y)) => same(x.as_str(), y.as_str()),
        (None, None) => true,
        _ => false,
    }
}

/// No text comes before itself.
pub proof fn text_before_irreflexive(a: Seq<char>)
    ensures
        !text_before(a, a),
    decreases a.len(),
{
    if a.len() > 0 {
        text_before_irreflexive(a.skip(1));
    }
}

/// The order of texts is transitive.
pub proof fn text_before_transitive(a: Seq<char>, b: Seq<char>, c: Seq<char>)
    requires
        text_before(a, b),
        text_before(b, c),
    ensures
        text_before(a, c),
    decreases a.len(),
{
    if a.len() > 0 && b.len() > 0 && c.len() > 0 && a[0] == b[0] && b[0] == c[0] {
        text_before_transitive(a.skip(1), b.skip(1), c.skip(1));
    }
}

/// Of two different texts one comes before the other.
pub proof fn text_before_total(a: Seq<char>, b: Seq<char>)
    ensures
        a == b || text_before(a, b) || text_before(b, a),
    decreases a.len(),
{
    if a.len() == 0 && b.len() == 0 {
        assert(a =~= b);
    } else if a.len() > 0 && b.len() > 0 && a[0] == b[0] {
        text_before_total(a.skip(1), b.skip(1));
        if a.skip(1) == b.skip(1) {
            assert(a =~= seq![a[0]] + a.skip(1));
            assert(b =~= seq![b[0]] + b.skip(1));
        }
    }
}

/// Whether `a` comes before `b`.
pub fn is_before(a: &str, b: &str) -> (r: bool)
    ensures
        r == text_before(a@, b@),
{
    let x = chars_of(a);
    let y = chars_of(b);
    let mut i: usize = 0;
    assert(a@.skip(0) =~= a@);
    assert(b@.skip(0) =~= b@);
    while i < x.len() && i < y.len() && x[i] == y[i]
        invariant
            i <= x@.len(),
            i <= y@.len(),
            x@ == a@,
            y@ == b@,
            text_before(a@, b@) == text_before(a@.skip(i as int), b@.skip(i as int)),
        decreases x@.len() - i,
    {
        assert(a@.skip(i as int).skip(1) =~= a@.skip(i + 1));
        assert(b@.skip(i as int).skip(1) =~= b@.skip(i + 1));
        assert(a@.skip(i as int)[0] == a@[i as int]);
        assert(b@.skip(i as int)[0] == b@[i as int]);
        i = i + 1;
    }
    if i >= y.len() {
        return false;
    }
    if i >= x.len() {
        return true;
    }
    assert(a@.skip(i as int)[0] == a@[i as int]);
    assert(b@.skip(i as int)[0] == b@[i as int]);
    x[i] < y[i]
}

/// The character of a decimal digit.
pub open spec fn digit_char(d: nat) -> char {
    (('0' as u8) + d) as u8 as char
}

/// A number in decimal digits, without leading zeros.
pub open spec fn decimal(n: nat) -> Seq<char>
    decreases n,
{
    if n < 10 {
        seq![digit_char(n)]
    } else {
        decimal(n / 10) + seq![digit_char(n % 10)]
    }
}

fn digit_text(d: u64) -> (r: &'static str)
    requires
        d < 10,
    ensures
        r@ == seq![digit_char(d as nat)],
{
    proof {
        reveal_strlit("0");
        reveal_strlit("1");
        reveal_strlit("2");
        reveal_strlit("3");
        reveal_strlit("4");
        reveal_strlit("5");
        reveal_strlit("6");
        reveal_strlit("7");
        reveal_strlit("8");
        reveal_strlit("9");
    }
    let r = if d == 0 {
        "0"
    } else if d == 1 {
        "1"
    } else if d == 2 {
        "2"
    } else if d == 3 {
        "3"
    } else if d == 4 {
        "4"
    } else if d == 5 {
        "5"
    } else if d == 6 {
        "6"
    } else if d == 7 {
        "7"
    } else if d == 8 {
        "8"
    } else {
        "9"
    };
    assert(r@ =~= seq![digit_char(d as nat)]);
    r
}

/// A number in decimal digits, without leading zeros.
pub fn decimal_text(n: u64) -> (r: String)
    ensures
        r@ == decimal(n as nat),
    decreases n,
{
    if n < 10 {
        digit_text(n).to_owned()
    } else {
        let mut out = decimal_text(n / 10);
        out.append(digit_text(n % 10));
        out
    }
}

/// `s` without the characters `c` that it begins with.
pub open spec fn without_leading(s: Seq<char>, c: char) -> Seq<char>
    decreases s.len(),
{
    if s.len() > 0 && s[0] == c {
        without_leading(s.skip(1), c)
    } else {
        s
    }
}

/// `s` without the characters `c` that it begins with.
pub fn trim_start_char<'a>(s: &'a str, c: char) -> (r: &'a str)
    ensures
        r@ == without_leading(s@, c),
{
    let chars = chars_of(s);
    let n: usize = chars.len();
    let mut i: usize = 0;
    assert(s@.skip(0) =~= s@);
    while i < n && chars[i] == c
        invariant
            i <= n,
            n == chars@.len(),
            chars@ == s@,
            without_leading(s@, c) == without_leading(s@.skip(i as int), c),
        decreases n - i,
    {
        assert(s@.skip(i as int).skip(1) =~= s@.skip(i + 1));
        assert(s@.skip(i as int)[0] == s@[i as int]);
        i = i + 1;
    }
    assert(i < n ==> s@.skip(i as int)[0] == s@[i as int]);
    let rest = s.substring_char(i, n);
    assert(rest@ =~= s@.skip(i as int));
    rest
}

/// A text with its ASCII letters in lower case.
pub open spec fn lower(s: Seq<char>) -> Seq<char> {
    s.map_values(|c: char| ascii_lower(c))
}

/// Whether a text is `wanted` once its ASCII letters are in lower case.
pub fn lower_is(s: &str, wanted: &str) -> (r: bool)
    ensures
        r == (lower(s@) == wanted@),
{
    let x = chars_of(s);
    let y = chars_of(wanted);
    if x.len() != y.len() {
        assert(lower(s@).len() == s@.len());
        return false;
    }
    let mut i: usize = 0;
    while i < x.len()
        invariant
            i <= x@.len(),
            x@.len() == y@.len(),
            x@ == s@,
            y@ == wanted@,
            forall|j: int| 0 <= j < i ==> ascii_lower(#[trigger] s@[j]) == wanted@[j],
        decreases x@.len() - i,
    {
        if to_ascii_lower(x[i]) != y[i] {
            assert(lower(s@)[i as int] != wanted@[i as int]);
            return false;
        }
        i = i + 1;
    }
    assert(lower(s@) =~= wanted@);
    true
}

/// Whether a part stands in a text at a position.
pub open spec fn stands_at(s: Seq<char>, part: Seq<char>, i: int) -> bool {
    0 <= i && i + part.len() <= s.len() && s.subrange(i, i + part.len()) == part
}

/// Whether a part stands somewhere in a text.
pub open spec fn has_part(s: Seq<char>, part: Seq<char>) -> bool {
    exists|i: int| stands_at(s, part, i)
}

/// Whether a part stands somewhere in `s`, once its ASCII letters are in lower
/// case.
pub fn contains_ignoring_case(s: &str, part: &str) -> (r: bool)
    ensures
        r == has_part(lower(s@), part@),
{
    let chars = chars_of(s);
    let wanted = chars_of(part);
    let n: usize = chars.len();
    let m: usize = wanted.len();
    if m > n {
        return false;
    }
    let ghost whole = lower(s@);
    let mut i: usize = 0;
    while i <= n - m
        invariant
            i <= n - m + 1,
            m <= n,
            n == chars.len(),
            m == wanted.len(),
            chars@ == s@,
            wanted@ == part@,
            whole == lower(s@),
            forall|k: int| 0 <= k < i ==> !stands_at(whole, part@, k),
        decreases n - m + 1 - i,
    {
        let mut j: usize = 0;
        while j < m && to_ascii_lower(chars[i + j]) == wanted[j]
            invariant
                j <= m,
                i <= n - m,
                m <= n,
                n == chars.len(),
                m == wanted.len(),
                chars@ == s@,
                wanted@ == part@,
                whole == lower(s@),
                forall|k: int| 0 <= k < j ==> whole[i + k] == part@[k],
            decreases m - j,
        {
            j = j + 1;
        }
        if j == m {
            assert(whole.subrange(i as int, i + m) =~= part@);
            assert(stands_at(whole, part@, i as int));
            return true;
        }
        proof {
            if stands_at(whole, part@, i as int) {
                assert(whole.subrange(i as int, i + m)[j as int] == part@[j as int]);
            }
        }
        i = i + 1;
    }
    false
}

} // verus!
