//! Strings as sequences of characters: trimming, splitting, searching,
//! ordering, padding, and the decimal and hexadecimal notations.

use vstd::prelude::*;
use vstd::string::*;

verus! {

/// `String::push` appends the character to the end of the string.
pub assume_specification[ String::push ](s: &mut String, c: char)
    ensures
        final(s)@ == old(s)@.push(c),
;

// ---------- characters ----------

/// The Unicode `White_Space` property.
pub open spec fn is_white_space(c: char) -> bool {
    let n = c as u32;
    ||| 0x9 <= n <= 0xd
    ||| n == 0x20
    ||| n == 0x85
    ||| n == 0xa0
    ||| n == 0x1680
    ||| 0x2000 <= n <= 0x200a
    ||| n == 0x2028
    ||| n == 0x2029
    ||| n == 0x202f
    ||| n == 0x205f
    ||| n == 0x3000
}

/// Whether the character is white space.
pub fn char_is_white_space(c: char) -> (r: bool)
    ensures
        r == is_white_space(c),
{
    let n: u32 = c as u32;
    (0x9 <= n && n <= 0xd) || n == 0x20 || n == 0x85 || n == 0xa0 || n == 0x1680 || (0x2000 <= n
        && n <= 0x200a) || n == 0x2028 || n == 0x2029 || n == 0x202f || n == 0x205f || n == 0x3000
}

/// The ASCII lower-case form of one character.
pub open spec fn lower(c: char) -> char {
    if 'A' <= c <= 'Z' {
        (c as u32 + 32) as char
    } else {
        c
    }
}

/// Lower-cases an ASCII letter and keeps every other character.
pub fn char_lower(c: char) -> (r: char)
    ensures
        r == lower(c),
{
    if 'A' <= c && c <= 'Z' {
        (c as u8 + 32) as char
    } else {
        c
    }
}

// ---------- conversion ----------

/// The characters of a string.
pub fn to_chars(s: &str) -> (r: Vec<char>)
    ensures
        r@ == s@,
{
    let mut out: Vec<char> = Vec::new();
    for c in it: s.chars()
        invariant
            out@ == s@.take(it.index() as int),
            it.seq() == s@,
    {
        proof {
            assert(s@.take(it.index() + 1) =~= s@.take(it.index() as int).push(c));
        }
        out.push(c);
    }
    assert(s@.take(s@.len() as int) =~= s@);
    out
}

/// The string made of the given characters.
pub fn from_chars(v: &Vec<char>) -> (r: String)
    ensures
        r@ == v@,
{
    let mut out = String::new();
    for i in 0..v.len()
        invariant
            out@ == v@.take(i as int),
    {
        assert(v@.take(i + 1) =~= v@.take(i as int).push(v@[i as int]));
        out.push(v[i]);
    }
    assert(v@.take(v@.len() as int) =~= v@);
    out
}

/// Whether two strings hold the same characters.
pub fn str_eq(a: &str, b: &str) -> (r: bool)
    ensures
        r == (a@ == b@),
{
    a.to_owned() == b.to_owned()
}

/// Two strings, one after the other.
pub fn concat(a: &str, b: &str) -> (r: String)
    ensures
        r@ == a@ + b@,
{
    let mut out = a.to_owned();
    out.append(b);
    out
}

// ---------- trimming ----------

/// The sequence without its leading white space.
pub open spec fn trim_front(s: Seq<char>) -> Seq<char>
    decreases s.len(),
{
    if s.len() > 0 && is_white_space(s[0]) {
        trim_front(s.drop_first())
    } else {
        s
    }
}

/// The sequence without its trailing white space.
pub open spec fn trim_back(s: Seq<char>) -> Seq<char>
    decreases s.len(),
{
    if s.len() > 0 && is_white_space(s.last()) {
        trim_back(s.drop_last())
    } else {
        s
    }
}

/// The sequence without white space at either end.
pub open spec fn trimmed(s: Seq<char>) -> Seq<char> {
    trim_back(trim_front(s))
}

/// The sequence without the leading occurrences of one character.
pub open spec fn without_leading(s: Seq<char>, c: char) -> Seq<char>
    decreases s.len(),
{
    if s.len() > 0 && s[0] == c {
        without_leading(s.drop_first(), c)
    } else {
        s
    }
}

/// The sequence without the trailing occurrences of `suffix`.
pub open spec fn without_trailing(s: Seq<char>, suffix: Seq<char>) -> Seq<char>
    decreases s.len(),
{
    if suffix.len() > 0 && ends_with(s, suffix) {
        without_trailing(s.take(s.len() - suffix.len()), suffix)
    } else {
        s
    }
}

/// The first `n` characters.
pub fn take(s: &Vec<char>, n: usize) -> (r: Vec<char>)
    requires
        n <= s@.len(),
    ensures
        r@ == s@.take(n as int),
{
    slice(s, 0, n)
}

/// The characters from `n` on.
pub fn skip(s: &Vec<char>, n: usize) -> (r: Vec<char>)
    requires
        n <= s@.len(),
    ensures
        r@ == s@.skip(n as int),
{
    slice(s, n, s.len())
}

/// The characters from `from` up to, not including, `to`.
pub fn slice(s: &Vec<char>, from: usize, to: usize) -> (r: Vec<char>)
    requires
        from <= to <= s@.len(),
    ensures
        r@ == s@.subrange(from as int, to as int),
{
    let mut out: Vec<char> = Vec::new();
    let mut i: usize = from;
    while i < to
        invariant
            from <= i <= to <= s@.len(),
            out@ == s@.subrange(from as int, i as int),
        decreases to - i,
    {
        assert(s@.subrange(from as int, i + 1) =~= s@.subrange(from as int, i as int).push(
            s@[i as int],
        ));
        out.push(s[i]);
        i = i + 1;
    }
    out
}

/// Removes leading white space.
pub fn trim_front_chars(s: &Vec<char>) -> (r: Vec<char>)
    ensures
        r@ == trim_front(s@),
{
    let mut i: usize = 0;
    assert(s@.skip(0) =~= s@);
    while i < s.len() && char_is_white_space(s[i])
        invariant
            i <= s@.len(),
            trim_front(s@) == trim_front(s@.skip(i as int)),
        decreases s@.len() - i,
    {
        assert(s@.skip(i as int).drop_first() =~= s@.skip(i + 1));
        i = i + 1;
    }
    skip(s, i)
}

/// Removes trailing white space.
pub fn trim_back_chars(s: &Vec<char>) -> (r: Vec<char>)
    ensures
        r@ == trim_back(s@),
{
    let mut n: usize = s.len();
    assert(s@.take(n as int) =~= s@);
    while n > 0 && char_is_white_space(s[n - 1])
        invariant
            n <= s@.len(),
            trim_back(s@) == trim_back(s@.take(n as int)),
        decreases n,
    {
        assert(s@.take(n as int).drop_last() =~= s@.take(n - 1));
        n = n - 1;
    }
    take(s, n)
}

/// Removes white space at both ends.
pub fn trim_chars(s: &Vec<char>) -> (r: Vec<char>)
    ensures
        r@ == trimmed(s@),
{
    let front = trim_front_chars(s);
    trim_back_chars(&front)
}

/// Removes white space at both ends.
pub fn trim(s: &str) -> (r: String)
    ensures
        r@ == trimmed(s@),
{
    let v = to_chars(s);
    let t = trim_chars(&v);
    from_chars(&t)
}

/// Removes trailing white space.
pub fn trim_end(s: &str) -> (r: String)
    ensures
        r@ == trim_back(s@),
{
    let v = to_chars(s);
    let t = trim_back_chars(&v);
    from_chars(&t)
}

/// Removes the leading occurrences of `c`.
pub fn trim_leading(s: &Vec<char>, c: char) -> (r: Vec<char>)
    ensures
        r@ == without_leading(s@, c),
{
    let mut i: usize = 0;
    assert(s@.skip(0) =~= s@);
    while i < s.len() && s[i] == c
        invariant
            i <= s@.len(),
            without_leading(s@, c) == without_leading(s@.skip(i as int), c),
        decreases s@.len() - i,
    {
        assert(s@.skip(i as int).drop_first() =~= s@.skip(i + 1));
        i = i + 1;
    }
    skip(s, i)
}

/// Removes the trailing occurrences of `suffix`.
pub fn trim_trailing(s: &Vec<char>, suffix: &str) -> (r: Vec<char>)
    ensures
        r@ == without_trailing(s@, suffix@),
{
    let suf = to_chars(suffix);
    let mut cur = take(s, s.len());
    assert(s@.take(s@.len() as int) =~= s@);
    if suf.len() == 0 {
        return cur;
    }
    while chars_end_with(&cur, &suf)
        invariant
            suf@ == suffix@,
            suf@.len() > 0,
            without_trailing(s@, suffix@) == without_trailing(cur@, suffix@),
        decreases cur@.len(),
    {
        let n: usize = cur.len() - suf.len();
        cur = take(&cur, n);
    }
    cur
}

// ---------- searching ----------

/// Whether `s` begins with `p`.
pub open spec fn starts_with(s: Seq<char>, p: Seq<char>) -> bool {
    p.len() <= s.len() && s.take(p.len() as int) == p
}

/// Whether `s` ends with `p`.
pub open spec fn ends_with(s: Seq<char>, p: Seq<char>) -> bool {
    p.len() <= s.len() && s.skip(s.len() - p.len()) == p
}

/// Whether `p` stands in `s` at position `i`.
pub open spec fn occurs_at(s: Seq<char>, p: Seq<char>, i: int) -> bool {
    0 <= i && i + p.len() <= s.len() && s.subrange(i, i + p.len()) == p
}

/// Whether `p` stands somewhere in `s`.
pub open spec fn contains(s: Seq<char>, p: Seq<char>) -> bool {
    exists|i: int| occurs_at(s, p, i)
}

/// What follows `p` at the start of `s`.
pub open spec fn after_prefix(s: Seq<char>, p: Seq<char>) -> Option<Seq<char>> {
    if starts_with(s, p) {
        Some(s.skip(p.len() as int))
    } else {
        None
    }
}

/// Whether `p` stands in `s` at position `i`.
pub fn chars_occur_at(s: &Vec<char>, p: &Vec<char>, i: usize) -> (r: bool)
    ensures
        r == occurs_at(s@, p@, i as int),
{
    if p.len() > s.len() || i > s.len() - p.len() {
        return false;
    }
    let mut k: usize = 0;
    while k < p.len()
        invariant
            k <= p@.len(),
            i + p@.len() <= s.len(),
            forall|j: int| 0 <= j < k ==> s@[i + j] == p@[j],
        decreases p@.len() - k,
    {
        if s[i + k] != p[k] {
            assert(s@.subrange(i as int, i + p@.len())[k as int] != p@[k as int]);
            return false;
        }
        k = k + 1;
    }
    assert(s@.subrange(i as int, i + p@.len()) =~= p@);
    true
}

/// Whether `s` begins with `p`.
pub fn chars_start_with(s: &Vec<char>, p: &Vec<char>) -> (r: bool)
    ensures
        r == starts_with(s@, p@),
{
    chars_occur_at(s, p, 0)
}

/// Whether `s` ends with `p`.
pub fn chars_end_with(s: &Vec<char>, p: &Vec<char>) -> (r: bool)
    ensures
        r == ends_with(s@, p@),
{
    if p.len() > s.len() {
        return false;
    }
    let i: usize = s.len() - p.len();
    assert(s@.skip(i as int) =~= s@.subrange(i as int, i + p@.len()));
    chars_occur_at(s, p, i)
}

/// Whether `s` begins with `p`.
pub fn str_starts_with(s: &str, p: &str) -> (r: bool)
    ensures
        r == starts_with(s@, p@),
{
    let a = to_chars(s);
    let b = to_chars(p);
    chars_start_with(&a, &b)
}

/// Whether `s` ends with `p`.
pub fn str_ends_with(s: &str, p: &str) -> (r: bool)
    ensures
        r == ends_with(s@, p@),
{
    let a = to_chars(s);
    let b = to_chars(p);
    chars_end_with(&a, &b)
}

/// Whether `p` stands somewhere in `s`.
pub fn str_contains(s: &str, p: &str) -> (r: bool)
    ensures
        r == contains(s@, p@),
{
    let a = to_chars(s);
    let b = to_chars(p);
    match find(&a, &b) {
        Some(_) => true,
        None => false,
    }
}

/// The first position at which `p` stands in `s`.
pub fn find(s: &Vec<char>, p: &Vec<char>) -> (r: Option<usize>)
    ensures
        match r {
            Some(i) => occurs_at(s@, p@, i as int) && forall|j: int| j < i ==> !occurs_at(s@, p@, j),
            None => !contains(s@, p@),
        },
{
    let mut i: usize = 0;
    while i < s.len()
        invariant
            i <= s@.len(),
            forall|j: int| j < i ==> !occurs_at(s@, p@, j),
        decreases s@.len() - i,
    {
        if chars_occur_at(s, p, i) {
            return Some(i);
        }
        i = i + 1;
    }
    if chars_occur_at(s, p, i) {
        Some(i)
    } else {
        None
    }
}

/// The remainder of `s` behind the prefix `p`.
pub fn strip_prefix(s: &Vec<char>, p: &str) -> (r: Option<Vec<char>>)
    ensures
        match r {
            Some(t) => after_prefix(s@, p@) == Some(t@),
            None => after_prefix(s@, p@) is None,
        },
{
    let b = to_chars(p);
    if chars_start_with(s, &b) {
        Some(skip(s, b.len()))
    } else {
        None
    }
}

// ---------- splitting ----------

/// The first position of `c` in `s`.
pub open spec fn first_index(s: Seq<char>, c: char) -> Option<int>
    decreases s.len(),
{
    if s.len() == 0 {
        None
    } else if s[0] == c {
        Some(0)
    } else {
        match first_index(s.drop_first(), c) {
            Some(i) => Some(i + 1),
            None => None,
        }
    }
}

/// `s` cut at the first `c`, which belongs to neither part.
pub open spec fn split_once(s: Seq<char>, c: char) -> Option<(Seq<char>, Seq<char>)> {
    match first_index(s, c) {
        Some(i) => Some((s.take(i), s.skip(i + 1))),
        None => None,
    }
}

/// The parts of `s` between the occurrences of `c`.
pub open spec fn split(s: Seq<char>, c: char) -> Seq<Seq<char>>
    decreases s.len(),
    via split_decreases
{
    match split_once(s, c) {
        Some((a, b)) => seq![a] + split(b, c),
        None => seq![s],
    }
}

#[via_fn]
proof fn split_decreases(s: Seq<char>, c: char) {
    lemma_first_index(s, c);
}

/// `first_index` is the least position that holds the character.
pub proof fn lemma_first_index(s: Seq<char>, c: char)
    ensures
        match first_index(s, c) {
            Some(i) => 0 <= i < s.len() && s[i] == c && forall|j: int| 0 <= j < i ==> s[j] != c,
            None => forall|j: int| 0 <= j < s.len() ==> s[j] != c,
        },
    decreases s.len(),
{
    if s.len() > 0 && s[0] != c {
        let t = s.drop_first();
        lemma_first_index(t, c);
        assert forall|j: int| 0 < j < s.len() implies s[j] == t[j - 1] by {}
        match first_index(t, c) {
            Some(i) => {
                assert(s[i + 1] == t[i]);
            },
            None => {},
        }
    }
}

/// A position that holds the character, with none before it, is the first.
pub proof fn lemma_first_index_is(s: Seq<char>, c: char, i: int)
    requires
        0 <= i < s.len(),
        s[i] == c,
        forall|j: int| 0 <= j < i ==> s[j] != c,
    ensures
        first_index(s, c) == Some(i),
{
    lemma_first_index(s, c);
}

/// The first position of `c`.
pub fn find_char(s: &Vec<char>, c: char) -> (r: Option<usize>)
    ensures
        match r {
            Some(i) => first_index(s@, c) == Some(i as int) && i < s.len(),
            None => first_index(s@, c) is None,
        },
{
    let mut i: usize = 0;
    while i < s.len()
        invariant
            i <= s@.len(),
            forall|j: int| 0 <= j < i ==> s@[j] != c,
        decreases s@.len() - i,
    {
        if s[i] == c {
            proof {
                lemma_first_index_is(s@, c, i as int);
            }
            return Some(i);
        }
        i = i + 1;
    }
    proof {
        lemma_first_index(s@, c);
    }
    None
}

/// Cuts at the first `c`.
pub fn cut(s: &Vec<char>, c: char) -> (r: Option<(Vec<char>, Vec<char>)>)
    ensures
        match r {
            Some(p) => split_once(s@, c) == Some((p.0@, p.1@)),
            None => split_once(s@, c) is None,
        },
{
    match find_char(s, c) {
        Some(i) => Some((take(s, i), skip(s, i + 1))),
        None => None,
    }
}

/// The character sequences of a vector of them.
pub open spec fn views(v: Seq<Vec<char>>) -> Seq<Seq<char>> {
    v.map_values(|x: Vec<char>| x@)
}

/// All parts between the occurrences of `c`.
pub fn split_chars(s: &Vec<char>, c: char) -> (r: Vec<Vec<char>>)
    ensures
        views(r@) == split(s@, c),
        r@.len() > 0,
{
    let mut out: Vec<Vec<char>> = Vec::new();
    let mut rest = take(s, s.len());
    assert(rest@ =~= s@);
    let mut looking = true;
    while looking
        invariant
            looking ==> split(s@, c) =~= views(out@) + split(rest@, c),
            !looking ==> views(out@) == split(s@, c) && out@.len() > 0,
        decreases rest@.len() + (if looking {
            1int
        } else {
            0int
        }),
    {
        proof {
            lemma_first_index(rest@, c);
        }
        let ghost before = out@;
        match cut(&rest, c) {
            Some((a, b)) => {
                proof {
                    let whole = rest@;
                    assert(split(whole, c) =~= seq![a@] + split(b@, c));
                    assert(views(before.push(a)) =~= views(before).push(a@));
                }
                out.push(a);
                rest = b;
            },
            None => {
                proof {
                    assert(split(rest@, c) =~= seq![rest@]);
                    assert(views(before.push(rest)) =~= views(before).push(rest@));
                }
                out.push(rest);
                rest = Vec::new();
                looking = false;
            },
        }
    }
    out
}

/// The first position from `i` on at which `p` stands in `s`.
pub open spec fn next_occurrence(s: Seq<char>, p: Seq<char>, i: int) -> Option<int>
    decreases s.len() + 1 - i,
{
    if i > s.len() {
        None
    } else if occurs_at(s, p, i) {
        Some(i)
    } else {
        next_occurrence(s, p, i + 1)
    }
}

/// `s` cut at the first `p`, which belongs to neither part.
pub open spec fn split_at(s: Seq<char>, p: Seq<char>) -> Option<(Seq<char>, Seq<char>)> {
    match next_occurrence(s, p, 0) {
        Some(i) => Some((s.take(i), s.skip(i + p.len()))),
        None => None,
    }
}

/// Cuts at the first `p`.
pub fn cut_at(s: &Vec<char>, p: &str) -> (r: Option<(Vec<char>, Vec<char>)>)
    ensures
        match r {
            Some(x) => split_at(s@, p@) == Some((x.0@, x.1@)),
            None => split_at(s@, p@) is None,
        },
{
    let q = to_chars(p);
    let mut i: usize = 0;
    while i < s.len()
        invariant
            q@ == p@,
            i <= s@.len(),
            next_occurrence(s@, p@, 0) == next_occurrence(s@, p@, i as int),
        decreases s@.len() - i,
    {
        if chars_occur_at(s, &q, i) {
            return Some((take(s, i), skip(s, i + q.len())));
        }
        i = i + 1;
    }
    if chars_occur_at(s, &q, i) {
        Some((take(s, i), skip(s, i + q.len())))
    } else {
        assert(next_occurrence(s@, p@, (s@.len() + 1) as int) is None);
        None
    }
}

// ---------- order ----------

/// Lexicographic order by code point.
pub open spec fn str_less(a: Seq<char>, b: Seq<char>) -> bool
    decreases a.len(),
{
    if b.len() == 0 {
        false
    } else if a.len() == 0 {
        true
    } else if a[0] == b[0] {
        str_less(a.drop_first(), b.drop_first())
    } else {
        (a[0] as int) < (b[0] as int)
    }
}

/// Whether one code point is smaller than another.
fn char_less(a: char, b: char) -> (r: bool)
    ensures
        r == ((a as int) < (b as int)),
{
    (a as u32) < (b as u32)
}

/// Whether `a` comes before `b`.
pub fn less(a: &str, b: &str) -> (r: bool)
    ensures
        r == str_less(a@, b@),
{
    let x = to_chars(a);
    let y = to_chars(b);
    let mut i: usize = 0;
    assert(x@.skip(0) =~= x@);
    assert(y@.skip(0) =~= y@);
    while i < x.len() && i < y.len()
        invariant
            x@ == a@,
            y@ == b@,
            i <= x@.len(),
            i <= y@.len(),
            str_less(x@, y@) == str_less(x@.skip(i as int), y@.skip(i as int)),
        decreases x@.len() - i,
    {
        assert(x@.skip(i as int)[0] == x@[i as int]);
        assert(y@.skip(i as int)[0] == y@[i as int]);
        if x[i] != y[i] {
            return char_less(x[i], y[i]);
        }
        assert(x@.skip(i as int).drop_first() =~= x@.skip(i + 1));
        assert(y@.skip(i as int).drop_first() =~= y@.skip(i + 1));
        i = i + 1;
    }
    i < y.len()
}

/// No string comes before itself, and two different strings are ordered one
/// way or the other.
pub proof fn law_order_is_total(a: Seq<char>, b: Seq<char>)
    ensures
        !str_less(a, a),
        str_less(a, b) ==> !str_less(b, a),
        a != b ==> str_less(a, b) || str_less(b, a),
    decreases a.len(),
{
    if a.len() > 0 {
        law_order_is_total(a.drop_first(), a.drop_first());
    }
    if a.len() > 0 && b.len() > 0 {
        law_order_is_total(a.drop_first(), b.drop_first());
        if a[0] == b[0] && a.drop_first() == b.drop_first() {
            assert(a =~= seq![a[0]] + a.drop_first());
            assert(b =~= seq![b[0]] + b.drop_first());
        }
    } else if a.len() == 0 && b.len() == 0 {
        assert(a =~= b);
    }
}

/// The order of strings is transitive.
pub proof fn law_order_is_transitive(a: Seq<char>, b: Seq<char>, c: Seq<char>)
    requires
        str_less(a, b),
        str_less(b, c),
    ensures
        str_less(a, c),
    decreases a.len(),
{
    if a.len() > 0 && a[0] == b[0] && b[0] == c[0] {
        law_order_is_transitive(a.drop_first(), b.drop_first(), c.drop_first());
    }
}

// ---------- building ----------

/// `c`, `n` times.
pub open spec fn repeated(c: char, n: nat) -> Seq<char> {
    Seq::new(n, |i: int| c)
}

/// `s`, `n` times.
pub open spec fn times(s: Seq<char>, n: nat) -> Seq<char>
    decreases n,
{
    if n == 0 {
        Seq::empty()
    } else {
        times(s, (n - 1) as nat) + s
    }
}

/// The parts with `sep` between them.
pub open spec fn joined(parts: Seq<Seq<char>>, sep: Seq<char>) -> Seq<char>
    decreases parts.len(),
{
    if parts.len() == 0 {
        Seq::empty()
    } else if parts.len() == 1 {
        parts[0]
    } else {
        joined(parts.drop_last(), sep) + sep + parts.last()
    }
}

/// The character sequences of a vector of strings.
pub open spec fn texts(v: Seq<String>) -> Seq<Seq<char>> {
    v.map_values(|x: String| x@)
}

/// `s`, `n` times.
pub fn repeat(s: &str, n: usize) -> (r: String)
    ensures
        r@ == times(s@, n as nat),
{
    let mut out = String::new();
    for i in 0..n
        invariant
            out@ == times(s@, i as nat),
    {
        out.append(s);
    }
    out
}

/// Repeating one character.
pub proof fn lemma_times_char(c: char, n: nat)
    ensures
        times(seq![c], n) == repeated(c, n),
    decreases n,
{
    if n > 0 {
        lemma_times_char(c, (n - 1) as nat);
        assert(repeated(c, n) =~= repeated(c, (n - 1) as nat) + seq![c]);
    } else {
        assert(repeated(c, 0) =~= Seq::empty());
    }
}

/// The strings with `sep` between them.
pub fn join(parts: &Vec<String>, sep: &str) -> (r: String)
    ensures
        r@ == joined(texts(parts@), sep@),
{
    let mut out = String::new();
    for i in 0..parts.len()
        invariant
            out@ == joined(texts(parts@).take(i as int), sep@),
    {
        let ghost all = texts(parts@);
        assert(all.take(i + 1).drop_last() =~= all.take(i as int));
        if i > 0 {
            out.append(sep);
        } else {
            assert(all.take(0) =~= Seq::empty());
            assert(Seq::<char>::empty() + all[0] =~= all[0]);
        }
        out.append(parts[i].as_str());
    }
    assert(texts(parts@).take(parts@.len() as int) =~= texts(parts@));
    out
}

/// At most `max` characters: a longer text keeps the first `max - 1` and ends
/// in an ellipsis.
pub open spec fn truncated(s: Seq<char>, max: nat) -> Seq<char> {
    if s.len() <= max {
        s
    } else {
        s.take(if max == 0 {
            0
        } else {
            max - 1
        }).push('\u{2026}')
    }
}

/// Shortens a text to at most `max` characters, with an ellipsis.
pub fn truncate(s: &str, max_chars: usize) -> (r: String)
    ensures
        r@ == truncated(s@, max_chars as nat),
{
    let v = to_chars(s);
    if v.len() <= max_chars {
        return s.to_owned();
    }
    let n: usize = if max_chars == 0 {
        0
    } else {
        max_chars - 1
    };
    let kept = take(&v, n);
    let mut out = from_chars(&kept);
    out.push('\u{2026}');
    out
}

/// A shortened text is never longer than allowed, unless nothing is allowed.
pub proof fn law_truncated_fits(s: Seq<char>, max: nat)
    requires
        max > 0,
    ensures
        truncated(s, max).len() <= max,
{
}

/// Spaces in front, up to `width` characters.
pub open spec fn padded_left(s: Seq<char>, width: nat) -> Seq<char> {
    if s.len() >= width {
        s
    } else {
        repeated(' ', (width - s.len()) as nat) + s
    }
}

/// Spaces behind, up to `width` characters.
pub open spec fn padded_right(s: Seq<char>, width: nat) -> Seq<char> {
    if s.len() >= width {
        s
    } else {
        s + repeated(' ', (width - s.len()) as nat)
    }
}

/// `n` spaces.
pub fn spaces(n: usize) -> (r: String)
    ensures
        r@ == repeated(' ', n as nat),
{
    let mut out = String::new();
    for i in 0..n
        invariant
            out@ == repeated(' ', i as nat),
    {
        out.push(' ');
        assert(out@ =~= repeated(' ', (i + 1) as nat));
    }
    assert(out@ =~= repeated(' ', n as nat));
    out
}

/// Pads with spaces in front.
pub fn pad_left(s: &str, width: usize) -> (r: String)
    ensures
        r@ == padded_left(s@, width as nat),
{
    let n: usize = s.unicode_len();
    if n >= width {
        s.to_owned()
    } else {
        concat(spaces(width - n).as_str(), s)
    }
}

/// Pads with spaces behind.
pub fn pad_right(s: &str, width: usize) -> (r: String)
    ensures
        r@ == padded_right(s@, width as nat),
{
    let n: usize = s.unicode_len();
    if n >= width {
        s.to_owned()
    } else {
        concat(s, spaces(width - n).as_str())
    }
}

// ---------- numbers ----------

/// The digit character of a number below ten.
pub open spec fn digit(n: nat) -> char {
    (n + 48) as char
}

/// The decimal notation of a number.
pub open spec fn decimal(n: nat) -> Seq<char>
    decreases n,
{
    if n < 10 {
        seq![digit(n)]
    } else {
        decimal(n / 10).push(digit(n % 10))
    }
}

/// The decimal notation of a number.
pub fn number(n: u64) -> (r: String)
    ensures
        r@ == decimal(n as nat),
    decreases n,
{
    let d: u8 = (n % 10) as u8;
    let c: char = (48 + d) as char;
    let mut out = if n < 10 {
        String::new()
    } else {
        number(n / 10)
    };
    out.push(c);
    assert(n < 10 ==> out@ =~= seq![digit(n as nat)]);
    out
}

/// Whether a character is a decimal digit.
pub open spec fn is_digit(c: char) -> bool {
    '0' <= c && c <= '9'
}

/// The value of a run of decimal digits.
pub open spec fn digits_value(s: Seq<char>) -> nat
    decreases s.len(),
{
    if s.len() == 0 {
        0
    } else {
        (digits_value(s.drop_last()) * 10 + (s.last() as int - 48)) as nat
    }
}

/// The text without one leading plus sign.
pub open spec fn unsigned_part(s: Seq<char>) -> Seq<char> {
    if s.len() > 0 && s[0] == '+' {
        s.skip(1)
    } else {
        s
    }
}

/// The number that a text denotes: an optional plus sign and at least one
/// decimal digit, no larger than `max`.
pub open spec fn parsed(s: Seq<char>, max: nat) -> Option<nat> {
    let t = unsigned_part(s);
    if t.len() > 0 && (forall|i: int| 0 <= i < t.len() ==> is_digit(t[i])) && digits_value(t) <= max {
        Some(digits_value(t))
    } else {
        None
    }
}

/// A longer run of digits denotes no smaller number.
proof fn lemma_digits_value_grows(s: Seq<char>, n: int)
    requires
        0 <= n <= s.len(),
        forall|i: int| 0 <= i < s.len() ==> is_digit(s[i]),
    ensures
        digits_value(s.take(n)) <= digits_value(s),
    decreases s.len() - n,
{
    if n < s.len() {
        lemma_digits_value_grows(s, n + 1);
        assert(s.take(n + 1).drop_last() =~= s.take(n));
        assert(is_digit(s.take(n + 1).last()));
    } else {
        assert(s.take(n) =~= s);
    }
}

/// Reads an unsigned number.
pub fn parse_usize(s: &str) -> (r: Option<usize>)
    ensures
        match r {
            Some(n) => parsed(s@, usize::MAX as nat) == Some(n as nat),
            None => parsed(s@, usize::MAX as nat) is None,
        },
{
    let v = to_chars(s);
    let start: usize = if v.len() > 0 && v[0] == '+' {
        1
    } else {
        0
    };
    let t = skip(&v, start);
    assert(start == 0 ==> t@ =~= v@);
    assert(t@ == unsigned_part(s@));
    if t.len() == 0 {
        return None;
    }
    let mut i: usize = 0;
    while i < t.len()
        invariant
            i <= t@.len(),
            t@ == unsigned_part(s@),
            forall|j: int| 0 <= j < i ==> is_digit(t@[j]),
        decreases t@.len() - i,
    {
        if !('0' <= t[i] && t[i] <= '9') {
            return None;
        }
        i = i + 1;
    }
    let mut n: usize = 0;
    let mut k: usize = 0;
    assert(t@.take(0) =~= Seq::empty());
    while k < t.len()
        invariant
            k <= t@.len(),
            t@ == unsigned_part(s@),
            t@.len() > 0,
            forall|j: int| 0 <= j < t@.len() ==> is_digit(t@[j]),
            n == digits_value(t@.take(k as int)),
        decreases t@.len() - k,
    {
        let d: usize = digit_of(t[k]);
        assert(t@.take(k + 1).drop_last() =~= t@.take(k as int));
        proof {
            lemma_digits_value_grows(t@, k + 1);
        }
        if n > (usize::MAX - d) / 10 {
            assert(n * 10 + d > usize::MAX);
            return None;
        }
        n = n * 10 + d;
        k = k + 1;
    }
    assert(t@.take(t@.len() as int) =~= t@);
    Some(n)
}

/// Reads an unsigned number of sixteen bits.
pub fn parse_u16(s: &str) -> (r: Option<u16>)
    ensures
        match r {
            Some(n) => parsed(s@, u16::MAX as nat) == Some(n as nat),
            None => parsed(s@, u16::MAX as nat) is None,
        },
{
    match parse_usize(s) {
        Some(n) => {
            if n <= 65535 {
                Some(n as u16)
            } else {
                None
            }
        },
        None => None,
    }
}

/// Reads an unsigned number of thirty-two bits.
pub fn parse_u32(s: &str) -> (r: Option<u32>)
    ensures
        match r {
            Some(n) => parsed(s@, u32::MAX as nat) == Some(n as nat),
            None => parsed(s@, u32::MAX as nat) is None,
        },
{
    match parse_usize(s) {
        Some(n) => {
            if n <= 4294967295 {
                Some(n as u32)
            } else {
                None
            }
        },
        None => None,
    }
}

/// The value of a digit character.
fn digit_of(c: char) -> (r: usize)
    requires
        is_digit(c),
    ensures
        r == c as int - 48,
        r < 10,
{
    (c as u32 - 48) as usize
}

/// Where the run of digits that starts at `i` ends.
pub open spec fn digits_end(s: Seq<char>, i: int) -> int
    decreases s.len() - i,
{
    if 0 <= i < s.len() && is_digit(s[i]) {
        digits_end(s, i + 1)
    } else {
        i
    }
}

/// Whether the exponent of a number, if any, fills the text from `i` on.
pub open spec fn exponent_fills(s: Seq<char>, i: int) -> bool {
    if i >= s.len() {
        i == s.len()
    } else {
        let from = if i + 1 < s.len() && (s[i + 1] == '+' || s[i + 1] == '-') {
            i + 2
        } else {
            i + 1
        };
        let end = digits_end(s, from);
        (s[i] == 'e' || s[i] == 'E') && end > from && end == s.len()
    }
}

/// Whether a text is a decimal number from `i` on: digits with an optional
/// point among or beside them, and an optional exponent.
pub open spec fn decimal_from(s: Seq<char>, i: int) -> bool {
    let a = digits_end(s, i);
    let has_point = 0 <= a < s.len() && s[a] == '.';
    let b = if has_point {
        digits_end(s, a + 1)
    } else {
        a
    };
    let digits = (a - i) + (if has_point {
        b - a - 1
    } else {
        0
    });
    digits > 0 && exponent_fills(s, b)
}

/// Whether a text denotes a number: a sign, and then a decimal number or one
/// of the words for an infinity and for no number, in letters of either case.
pub open spec fn is_numeric(s: Seq<char>) -> bool {
    let i = if s.len() > 0 && (s[0] == '+' || s[0] == '-') {
        1int
    } else {
        0int
    };
    let rest = ascii_lower(s.skip(i));
    rest == "inf"@ || rest == "infinity"@ || rest == "nan"@ || decimal_from(s, i)
}

/// ASCII letters in lower case, all else unchanged.
pub open spec fn ascii_lower(s: Seq<char>) -> Seq<char> {
    s.map_values(|c: char| lower(c))
}

/// ASCII letters in lower case.
pub fn lower_chars(s: &Vec<char>) -> (r: Vec<char>)
    ensures
        r@ == ascii_lower(s@),
{
    let mut out: Vec<char> = Vec::new();
    for i in 0..s.len()
        invariant
            out@ =~= ascii_lower(s@.take(i as int)),
    {
        out.push(char_lower(s[i]));
        assert(s@.take(i + 1) =~= s@.take(i as int).push(s@[i as int]));
    }
    assert(s@.take(s@.len() as int) =~= s@);
    out
}


fn skip_digits(s: &Vec<char>, from: usize) -> (r: usize)
    requires
        from <= s.len(),
    ensures
        r == digits_end(s@, from as int),
        from <= r <= s.len(),
{
    let mut i: usize = from;
    while i < s.len() && '0' <= s[i] && s[i] <= '9'
        invariant
            from <= i <= s.len(),
            digits_end(s@, from as int) == digits_end(s@, i as int),
        decreases s@.len() - i,
    {
        i = i + 1;
    }
    i
}

fn exponent_from(s: &Vec<char>, i: usize) -> (r: bool)
    requires
        i <= s.len(),
    ensures
        r == exponent_fills(s@, i as int),
{
    if i >= s.len() {
        return true;
    }
    let from: usize = if i + 1 < s.len() && (s[i + 1] == '+' || s[i + 1] == '-') {
        i + 2
    } else {
        i + 1
    };
    let end: usize = skip_digits(s, from);
    (s[i] == 'e' || s[i] == 'E') && end > from && end == s.len()
}

fn decimal_at(s: &Vec<char>, i: usize) -> (r: bool)
    requires
        i <= s.len(),
    ensures
        r == decimal_from(s@, i as int),
{
    let a: usize = skip_digits(s, i);
    if a < s.len() && s[a] == '.' {
        let b: usize = skip_digits(s, a + 1);
        let any = a > i || b > a + 1;
        any && exponent_from(s, b)
    } else {
        a > i && exponent_from(s, a)
    }
}

/// Whether a text denotes a number.
pub fn numeric(s: &str) -> (r: bool)
    ensures
        r == is_numeric(s@),
{
    let v = to_chars(s);
    let i: usize = if v.len() > 0 && (v[0] == '+' || v[0] == '-') {
        1
    } else {
        0
    };
    let rest = skip(&v, i);
    let low = lower_chars(&rest);
    let word = from_chars(&low);
    str_eq(word.as_str(), "inf") || str_eq(word.as_str(), "infinity") || str_eq(
        word.as_str(),
        "nan",
    ) || decimal_at(&v, i)
}

// ---------- letter case ----------

/// A text in lower case, by the rules of Unicode.
pub uninterp spec fn lowercase(s: Seq<char>) -> Seq<char>;

/// Calls `str::to_lowercase`. Its result depends on the text alone and is
/// named by `lowercase`; what the mapping is for each letter is not stated.
#[verifier::external_body]
pub(crate) fn to_lower(s: &str) -> (r: String)
    ensures
        r@ == lowercase(s@),
{
    s.to_lowercase()
}

// ---------- optional text ----------

/// The characters of an optional string.
pub open spec fn opt(s: Option<String>) -> Option<Seq<char>> {
    match s {
        Some(t) => Some(t@),
        None => None,
    }
}

/// The characters of an optional string, or none.
pub open spec fn opt_or_empty(s: Option<String>) -> Seq<char> {
    match s {
        Some(t) => t@,
        None => Seq::empty(),
    }
}

/// Whether an optional string holds exactly this text.
pub fn opt_is(s: &Option<String>, t: &str) -> (r: bool)
    ensures
        r == (opt(*s) == Some(t@)),
{
    match s {
        Some(x) => str_eq(x.as_str(), t),
        None => false,
    }
}

/// Whether two optional strings hold the same text.
pub fn opt_eq(a: &Option<String>, b: &Option<String>) -> (r: bool)
    ensures
        r == (opt(*a) == opt(*b)),
{
    match (a, b) {
        (Some(x), Some(y)) => str_eq(x.as_str(), y.as_str()),
        (None, None) => true,
        _ => false,
    }
}

/// A copy of an optional string.
pub fn opt_clone(a: &Option<String>) -> (r: Option<String>)
    ensures
        r == *a,
{
    match a {
        Some(x) => Some(x.clone()),
        None => None,
    }
}

/// A copy of the text, or the empty text.
pub fn opt_text(a: &Option<String>) -> (r: String)
    ensures
        r@ == opt_or_empty(*a),
{
    match a {
        Some(x) => x.clone(),
        None => String::new(),
    }
}

// ---------- laws ----------

/// Whether a text is made of white space alone.
pub open spec fn is_blank(s: Seq<char>) -> bool {
    forall|i: int| 0 <= i < s.len() ==> is_white_space(#[trigger] s[i])
}

proof fn lemma_trim_front_skips(l: Seq<char>, m: Seq<char>)
    requires
        is_blank(l),
    ensures
        trim_front(l + m) == trim_front(m),
    decreases l.len(),
{
    if l.len() > 0 {
        assert((l + m).drop_first() =~= l.drop_first() + m);
        assert(is_white_space(l[0]));
        assert forall|i: int| 0 <= i < l.drop_first().len() implies is_white_space(
            #[trigger] l.drop_first()[i],
        ) by {
            assert(is_white_space(l[i + 1]));
        }
        lemma_trim_front_skips(l.drop_first(), m);
    } else {
        assert(l + m =~= m);
    }
}

proof fn lemma_trim_back_skips(m: Seq<char>, r: Seq<char>)
    requires
        is_blank(r),
    ensures
        trim_back(m + r) == trim_back(m),
    decreases r.len(),
{
    if r.len() > 0 {
        assert((m + r).drop_last() =~= m + r.drop_last());
        assert(is_white_space(r[r.len() - 1]));
        assert forall|i: int| 0 <= i < r.drop_last().len() implies is_white_space(
            #[trigger] r.drop_last()[i],
        ) by {
            assert(is_white_space(r[i]));
        }
        lemma_trim_back_skips(m, r.drop_last());
    } else {
        assert(m + r =~= m);
    }
}

/// Trimming takes the white space off both ends and nothing else.
pub proof fn law_trimming_cuts_blanks_at_both_ends(l: Seq<char>, m: Seq<char>, r: Seq<char>)
    requires
        is_blank(l),
        is_blank(r),
        m.len() > 0 ==> !is_white_space(m[0]) && !is_white_space(m.last()),
    ensures
        trimmed(l + m + r) == m,
{
    assert(l + m + r =~= l + (m + r));
    lemma_trim_front_skips(l, m + r);
    if m.len() > 0 {
        assert(trim_front(m + r) == m + r);
        lemma_trim_back_skips(m, r);
    } else {
        assert(m + r =~= r + m);
        lemma_trim_front_skips(r, m);
        assert(m =~= Seq::empty());
    }
}

/// The space, the tab and the line breaks are white space; what can be seen in ASCII is
/// not.
pub proof fn law_blanks_are_white_space(c: char)
    ensures
        c == ' ' || c == '\t' || c == '\n' || c == '\r' ==> is_white_space(c),
        '!' <= c <= '~' ==> !is_white_space(c),
{
}

/// Leading characters are cut off one and all, and nothing else is.
pub proof fn law_leading_characters_are_cut(n: nat, s: Seq<char>, c: char)
    requires
        s.len() > 0 ==> s[0] != c,
    ensures
        without_leading(repeated(c, n) + s, c) == s,
    decreases n,
{
    let t = repeated(c, n) + s;
    if n > 0 {
        assert(t.drop_first() =~= repeated(c, (n - 1) as nat) + s);
        law_leading_characters_are_cut((n - 1) as nat, s, c);
    } else {
        assert(t =~= s);
    }
}

/// A text is what its parts give when they are put together again, and no part holds the
/// separator.
pub proof fn law_splitting_is_undone_by_joining(s: Seq<char>, c: char)
    ensures
        joined(split(s, c), seq![c]) == s,
        split(s, c).len() > 0,
        forall|i: int, j: int|
            0 <= i < split(s, c).len() && 0 <= j < (#[trigger] split(s, c)[i]).len() ==> (
            #[trigger] split(s, c)[i][j]) != c,
    decreases s.len(),
{
    lemma_first_index(s, c);
    match split_once(s, c) {
        Some((a, b)) => {
            law_splitting_is_undone_by_joining(b, c);
            law_joining_adds_up(seq![a], split(b, c), seq![c]);
            assert(split(s, c) == seq![a] + split(b, c));
            assert(a + seq![c] + b =~= s);
            assert forall|i: int, j: int|
                0 <= i < split(s, c).len() && 0 <= j < (#[trigger] split(s, c)[i]).len() implies (
            #[trigger] split(s, c)[i][j]) != c by {
                if i > 0 {
                    assert(split(s, c)[i] == split(b, c)[i - 1]);
                }
            }
        },
        None => {},
    }
}

/// Lists that are put together one after the other have one separator between them; one
/// part stands for itself, and no parts give nothing.
pub proof fn law_joining_adds_up(a: Seq<Seq<char>>, b: Seq<Seq<char>>, sep: Seq<char>)
    ensures
        a.len() > 0 && b.len() > 0 ==> joined(a + b, sep) == joined(a, sep) + sep + joined(b, sep),
        a.len() == 1 ==> joined(a, sep) == a[0],
        a.len() == 0 ==> joined(a, sep).len() == 0,
    decreases b.len(),
{
    if a.len() > 0 && b.len() > 0 {
        assert((a + b).drop_last() =~= a + b.drop_last());
        if b.len() > 1 {
            law_joining_adds_up(a, b.drop_last(), sep);
            assert(joined(a + b, sep) =~= joined(a, sep) + sep + joined(b, sep));
        } else {
            assert(a + b.drop_last() =~= a);
        }
    }
}

/// Texts are compared from the front: the first difference decides, and a text comes
/// before what continues it.
pub proof fn law_the_first_difference_decides(
    p: Seq<char>,
    x: char,
    y: char,
    s: Seq<char>,
    t: Seq<char>,
)
    ensures
        (x as int) < (y as int) ==> str_less(p + seq![x] + s, p + seq![y] + t),
        str_less(p, p + seq![x] + s),
    decreases p.len(),
{
    let a = p + seq![x] + s;
    let b = p + seq![y] + t;
    if p.len() > 0 {
        assert(a.drop_first() =~= p.drop_first() + seq![x] + s);
        assert(b.drop_first() =~= p.drop_first() + seq![y] + t);
        law_the_first_difference_decides(p.drop_first(), x, y, s, t);
    }
}

/// A cut at a text happens at its first occurrence.
pub proof fn law_cuts_are_made_at_the_first_occurrence(s: Seq<char>, p: Seq<char>, i: int)
    requires
        0 <= i <= s.len(),
    ensures
        match next_occurrence(s, p, i) {
            Some(k) => i <= k && k + p.len() <= s.len() && s.subrange(k, k + p.len()) == p && forall|
                j: int,
            |
                i <= j < k ==> !(#[trigger] occurs_at(s, p, j)),
            None => forall|j: int| i <= j <= s.len() ==> !(#[trigger] occurs_at(s, p, j)),
        },
    decreases s.len() - i,
{
    if !occurs_at(s, p, i) {
        if i < s.len() {
            law_cuts_are_made_at_the_first_occurrence(s, p, i + 1);
        } else {
            assert(next_occurrence(s, p, i + 1) is None);
        }
    }
}

/// A text holds, begins with and ends in what it is put together from.
pub proof fn law_a_text_holds_its_parts(a: Seq<char>, p: Seq<char>, b: Seq<char>)
    ensures
        contains(a + p + b, p),
        starts_with(p + b, p),
        ends_with(a + p, p),
        after_prefix(p + b, p) == Some(b),
        p.len() > 0 ==> match next_occurrence(a + p + b, p, 0) {
            Some(i) => i <= a.len(),
            None => false,
        },
{
    let s = a + p + b;
    assert(s.subrange(a.len() as int, (a.len() + p.len()) as int) =~= p);
    assert(occurs_at(s, p, a.len() as int));
    assert((p + b).take(p.len() as int) =~= p);
    assert((p + b).skip(p.len() as int) =~= b);
    assert((a + p).skip(a.len() as int) =~= p);
    law_cuts_are_made_at_the_first_occurrence(s, p, 0);
}

/// What a text holds, begins with or ends in is a part of it.
pub proof fn law_parts_are_in_the_text(s: Seq<char>, p: Seq<char>)
    ensures
        contains(s, p) ==> exists|a: Seq<char>, b: Seq<char>| s == #[trigger] (a + p + b),
        starts_with(s, p) ==> exists|b: Seq<char>| s == #[trigger] (p + b),
        ends_with(s, p) ==> exists|a: Seq<char>| s == #[trigger] (a + p),
        after_prefix(s, p) is Some ==> s == p + after_prefix(s, p)->0,
{
    if contains(s, p) {
        let i = choose|i: int| occurs_at(s, p, i);
        assert(s =~= s.take(i) + p + s.skip(i + p.len()));
    }
    if starts_with(s, p) {
        assert(s =~= p + s.skip(p.len() as int));
    }
    if ends_with(s, p) {
        assert(s =~= s.take(s.len() - p.len()) + p);
    }
}

/// A text that is too long keeps its beginning, and an ellipsis stands for the rest; any
/// other is left as it is.
pub proof fn law_truncation_keeps_the_beginning(s: Seq<char>, max: nat)
    ensures
        s.len() <= max ==> truncated(s, max) == s,
        s.len() > max > 0 ==> truncated(s, max).len() == max && truncated(s, max).last() == '…'
            && forall|i: int| 0 <= i < max - 1 ==> truncated(s, max)[i] == #[trigger] s[i],
{
}

/// Padding fills a text up to a width with spaces on one side, and cuts nothing.
pub proof fn law_padding_fills_up(s: Seq<char>, width: nat)
    ensures
        padded_left(s, width).len() == if s.len() >= width {
            s.len()
        } else {
            width
        },
        padded_right(s, width).len() == padded_left(s, width).len(),
        padded_left(s, width).skip(padded_left(s, width).len() - s.len()) == s,
        padded_right(s, width).take(s.len() as int) == s,
        forall|i: int|
            0 <= i < padded_left(s, width).len() - s.len() ==> (#[trigger] padded_left(s, width)[i])
                == ' ',
        forall|i: int|
            s.len() <= i < padded_right(s, width).len() ==> (#[trigger] padded_right(s, width)[i])
                == ' ',
{
    assert(padded_left(s, width).skip(padded_left(s, width).len() - s.len()) =~= s);
    assert(padded_right(s, width).take(s.len() as int) =~= s);
}

proof fn lemma_decimal_value(n: nat)
    ensures
        decimal(n).len() > 0,
        forall|i: int| 0 <= i < decimal(n).len() ==> is_digit(#[trigger] decimal(n)[i]),
        digits_value(decimal(n)) == n,
    decreases n,
{
    if n < 10 {
        assert(decimal(n).drop_last() =~= Seq::empty());
        assert(digits_value(Seq::<char>::empty()) == 0);
        assert(decimal(n).last() as int == n + 48);
    } else {
        lemma_decimal_value(n / 10);
        let d = decimal(n);
        assert(d.drop_last() =~= decimal(n / 10));
        assert(d.last() == digit(n % 10));
        assert(d.last() as int == n % 10 + 48);
    }
}

/// A number is read back from its decimal notation, which holds digits alone; with a
/// plus sign in front as well. What is larger than allowed is not read.
pub proof fn law_numbers_are_read_back(n: nat, max: nat)
    ensures
        parsed(decimal(n), max) == if n <= max {
            Some(n)
        } else {
            None
        },
        parsed(seq!['+'] + decimal(n), max) == parsed(decimal(n), max),
        forall|i: int| 0 <= i < decimal(n).len() ==> '0' <= #[trigger] decimal(n)[i] <= '9',
        n < 10 ==> decimal(n).len() == 1 && decimal(n)[0] as int == '0' as int + n,
{
    lemma_decimal_value(n);
    let d = decimal(n);
    assert(is_digit(d[0]));
    assert(forall|i: int| 0 <= i < d.len() ==> is_digit(d[i]));
    assert(unsigned_part(d) == d);
    assert((seq!['+'] + d).skip(1) =~= d);
}

/// What holds a character that is no digit, behind a sign, is no number.
pub proof fn law_only_digits_make_a_number(s: Seq<char>, max: nat, i: int)
    requires
        0 <= i < s.len(),
        !('0' <= s[i] <= '9'),
        i > 0 || s[0] != '+',
    ensures
        parsed(s, max) is None,
        parsed(Seq::empty(), max) is None,
{
    let t = unsigned_part(s);
    if t.len() < s.len() {
        assert(t[i - 1] == s[i]);
    }
}

/// Lower case changes the capital letters of ASCII, each to its small letter, and nothing
/// else.
pub proof fn law_lower_case_is_letter_by_letter(s: Seq<char>, i: int)
    requires
        0 <= i < s.len(),
    ensures
        ascii_lower(s).len() == s.len(),
        'A' <= s[i] <= 'Z' ==> ascii_lower(s)[i] as int == s[i] as int + ('a' as int - 'A' as int),
        !('A' <= s[i] <= 'Z') ==> ascii_lower(s)[i] == s[i],
{
}

proof fn lemma_digits_run(s: Seq<char>, i: int, k: int)
    requires
        0 <= i <= k <= s.len(),
        forall|j: int| i <= j < k ==> is_digit(#[trigger] s[j]),
        k < s.len() ==> !is_digit(s[k]),
    ensures
        digits_end(s, i) == k,
    decreases k - i,
{
    if i < k {
        lemma_digits_run(s, i + 1, k);
    }
}

/// Whole numbers, also with a sign, and numbers with a point denote numbers.
pub proof fn law_decimals_are_numbers(n: nat, m: nat)
    ensures
        is_numeric(decimal(n)),
        is_numeric(seq!['-'] + decimal(n)),
        is_numeric(decimal(n) + seq!['.'] + decimal(m)),
{
    lemma_decimal_value(n);
    lemma_decimal_value(m);
    let d = decimal(n);
    let k = d.len() as int;
    assert(is_digit(d[0]));
    lemma_digits_run(d, 0, k);
    assert(decimal_from(d, 0));
    let t = seq!['-'] + d;
    assert forall|j: int| 1 <= j < t.len() implies is_digit(#[trigger] t[j]) by {
        assert(is_digit(d[j - 1]));
    }
    lemma_digits_run(t, 1, k + 1);
    assert(decimal_from(t, 1));
    let u = d + seq!['.'] + decimal(m);
    assert forall|j: int| 0 <= j < k implies is_digit(#[trigger] u[j]) by {
        assert(is_digit(d[j]));
    }
    lemma_digits_run(u, 0, k);
    assert forall|j: int| k + 1 <= j < u.len() implies is_digit(#[trigger] u[j]) by {
        assert(is_digit(decimal(m)[j - k - 1]));
    }
    lemma_digits_run(u, k + 1, u.len() as int);
    assert(u[0] == d[0]);
    assert(decimal_from(u, 0));
}

/// A text without a digit denotes no number, but for the words for an infinity and for no
/// number; neither does an empty one.
pub proof fn law_words_are_no_numbers(s: Seq<char>)
    requires
        forall|i: int| 0 <= i < s.len() ==> !('0' <= #[trigger] s[i] <= '9'),
        forall|i: int|
            0 <= i <= 1 && i <= s.len() ==> {
                let w = #[trigger] ascii_lower(s.skip(i));
                w != "inf"@ && w != "infinity"@ && w != "nan"@
            },
    ensures
        !is_numeric(s),
{
    let i = if s.len() > 0 && (s[0] == '+' || s[0] == '-') {
        1int
    } else {
        0int
    };
    let w = ascii_lower(s.skip(i));
    assert(digits_end(s, i) == i);
    assert(digits_end(s, i + 1) == i + 1);
    assert(!decimal_from(s, i));
}

} // verus!
