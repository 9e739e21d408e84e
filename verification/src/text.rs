//! Character-level helpers over `str`/`String`, specified on their `Seq<char>` views.
use vstd::prelude::*;
use vstd::string::*;

verus! {

/// `needle` occurs in `hay` starting at index `i`.
pub open spec fn occurs_at(hay: Seq<char>, needle: Seq<char>, i: int) -> bool {
    &&& 0 <= i
    &&& i + needle.len() <= hay.len()
    &&& hay.subrange(i, i + needle.len()) == needle
}

/// `needle` occurs somewhere in `hay` (what `str::contains` answers).
pub open spec fn has_infix(hay: Seq<char>, needle: Seq<char>) -> bool {
    exists|i: int| occurs_at(hay, needle, i)
}

/// `s` ends with `p` (what `str::ends_with` answers).
pub open spec fn has_suffix(s: Seq<char>, p: Seq<char>) -> bool {
    &&& p.len() <= s.len()
    &&& s.subrange(s.len() - p.len(), s.len() as int) == p
}

/// The Unicode lowercase mapping of `s`, as `str::to_lowercase` computes it.
pub uninterp spec fn lowercase(s: Seq<char>) -> Seq<char>;

/// Calls `str::to_lowercase`. The contract only names the result: it is the
/// lowercase mapping of the argument and depends on nothing else.
#[verifier::external_body]
pub(crate) fn to_lowercase(s: &str) -> (r: String)
    ensures
        r@ == lowercase(s@),
{
    s.to_lowercase()
}

/// Calls `String::push`, which appends one character.
#[verifier::external_body]
pub(crate) fn push_char(s: &mut String, c: char)
    ensures
        final(s)@ == old(s)@.push(c),
{
    s.push(c)
}

/// The text of an optional string.
pub open spec fn opt_text(o: Option<String>) -> Option<Seq<char>> {
    match o {
        Some(s) => Some(s@),
        None => None,
    }
}

/// The characters of `s`, in order.
pub fn chars_of(s: &str) -> (v: Vec<char>)
    ensures
        v@ == s@,
{
    let n = s.unicode_len();
    let mut v: Vec<char> = Vec::new();
    let mut i: usize = 0;
    while i < n
        invariant
            i <= n,
            n == s@.len(),
            v@ == s@.subrange(0, i as int),
        decreases n - i,
    {
        v.push(s.get_char(i));
        i += 1;
    }
    assert(v@ == s@);
    v
}

/// A `String` holding exactly the characters of `v`.
pub fn string_of(v: &Vec<char>) -> (s: String)
    ensures
        s@ == v@,
{
    let mut s = String::new();
    let mut i: usize = 0;
    while i < v.len()
        invariant
            i <= v.len(),
            s@ == v@.subrange(0, i as int),
        decreases v.len() - i,
    {
        push_char(&mut s, v[i]);
        i += 1;
        assert(s@ == v@.subrange(0, i as int));
    }
    s
}

/// Whether `needle` occurs in `hay` at index `at`.
pub fn occurs_at_exec(hay: &Vec<char>, needle: &Vec<char>, at: usize) -> (b: bool)
    ensures
        b == occurs_at(hay@, needle@, at as int),
{
    if at > hay.len() || needle.len() > hay.len() - at {
        return false;
    }
    let mut j: usize = 0;
    while j < needle.len()
        invariant
            at + needle.len() <= hay.len(),
            j <= needle.len(),
            forall|k: int| 0 <= k < j ==> hay@[at + k] == needle@[k],
        decreases needle.len() - j,
    {
        if hay[at + j] != needle[j] {
            assert(hay@.subrange(at as int, at + needle.len())[j as int] != needle@[j as int]);
            return false;
        }
        j += 1;
    }
    assert(hay@.subrange(at as int, at + needle.len()) =~= needle@);
    true
}

/// Whether `needle` occurs anywhere in `hay`.
pub fn contains_chars(hay: &Vec<char>, needle: &Vec<char>) -> (b: bool)
    ensures
        b == has_infix(hay@, needle@),
{
    if needle.len() > hay.len() {
        return false;
    }
    if needle.len() == 0 {
        assert(occurs_at(hay@, needle@, 0)) by {
            assert(hay@.subrange(0, 0) =~= needle@);
        }
        return true;
    }
    let last = hay.len() - needle.len();
    let mut i: usize = 0;
    while i <= last
        invariant
            last + needle.len() == hay.len(),
            needle.len() > 0,
            i <= last + 1,
            forall|k: int| 0 <= k < i ==> !occurs_at(hay@, needle@, k),
        decreases last + 1 - i,
    {
        if occurs_at_exec(hay, needle, i) {
            return true;
        }
        i += 1;
    }
    false
}

/// Whether `needle` (given as text) occurs in `hay`.
pub fn contains_str(hay: &Vec<char>, needle: &str) -> (b: bool)
    ensures
        b == has_infix(hay@, needle@),
{
    let n = chars_of(needle);
    contains_chars(hay, &n)
}

/// Whether `hay` ends with `suffix`.
pub fn ends_with_str(hay: &Vec<char>, suffix: &str) -> (b: bool)
    ensures
        b == has_suffix(hay@, suffix@),
{
    let n = chars_of(suffix);
    if n.len() > hay.len() {
        return false;
    }
    let b = occurs_at_exec(hay, &n, hay.len() - n.len());
    b
}

/// Whether two character sequences are equal.
pub fn chars_equal(a: &Vec<char>, b: &Vec<char>) -> (r: bool)
    ensures
        r == (a@ == b@),
{
    if a.len() != b.len() {
        return false;
    }
    let r = occurs_at_exec(a, b, 0);
    proof {
        if r {
            assert(a@ =~= a@.subrange(0, b@.len() as int));
        } else if a@ == b@ {
            assert(a@.subrange(0, b@.len() as int) =~= b@);
        }
    }
    r
}

/// Whether the characters `a` spell out the text `b`.
pub fn chars_equal_str(a: &Vec<char>, b: &str) -> (r: bool)
    ensures
        r == (a@ == b@),
{
    let bv = chars_of(b);
    chars_equal(a, &bv)
}

/// The decimal digit character for `d < 10`.
pub open spec fn digit_char(d: nat) -> char {
    (d + 48) as char
}

/// The decimal numeral of `n`, without leading zeros (what `format!("{n}")` prints).
pub open spec fn decimal(n: nat) -> Seq<char>
    decreases n,
{
    if n < 10 {
        seq![digit_char(n)]
    } else {
        decimal(n / 10).push(digit_char(n % 10))
    }
}

/// Appends the decimal numeral of `n` to `s`.
pub fn push_decimal(s: &mut String, n: u64)
    ensures
        final(s)@ == old(s)@ + decimal(n as nat),
    decreases n,
{
    if n >= 10 {
        push_decimal(s, n / 10);
    }
    let d: u8 = (n % 10) as u8;
    let c: char = (d + 48) as char;
    push_char(s, c);
    assert(final(s)@ =~= old(s)@ + decimal(n as nat));
}

/// The decimal numeral of `n`.
pub fn decimal_string(n: u64) -> (s: String)
    ensures
        s@ == decimal(n as nat),
{
    let mut s = String::new();
    push_decimal(&mut s, n);
    assert(s@ =~= decimal(n as nat));
    s
}

/// The text after the last occurrence of `c` in `s` (all of `s` when `c` does
/// not occur), the first item that `str::rsplit(c)` yields.
pub open spec fn after_last(s: Seq<char>, c: char) -> Seq<char>
    decreases s.len(),
{
    if s.len() == 0 {
        s
    } else if s.last() == c {
        Seq::empty()
    } else {
        after_last(s.drop_last(), c).push(s.last())
    }
}

proof fn lemma_after_last(s: Seq<char>, c: char, i: int)
    requires
        0 <= i <= s.len(),
        i == 0 || s[i - 1] == c,
        forall|k: int| i <= k < s.len() ==> s[k] != c,
    ensures
        after_last(s, c) == s.subrange(i, s.len() as int),
    decreases s.len() - i,
{
    if s.len() == i {
        if i == 0 {
            assert(s.subrange(0, 0) =~= s);
        } else {
            assert(s.subrange(i, s.len() as int) =~= Seq::<char>::empty());
        }
    } else {
        lemma_after_last(s.drop_last(), c, i);
        assert(s.subrange(i, s.len() as int) =~= s.drop_last().subrange(i, s.len() - 1).push(s.last()));
    }
}

/// Index of the first character after the last `c` in `s`.
pub fn after_last_start(s: &str, c: char) -> (i: usize)
    ensures
        i <= s@.len(),
        after_last(s@, c) == s@.subrange(i as int, s@.len() as int),
{
    let n = s.unicode_len();
    let mut i: usize = n;
    while i > 0 && s.get_char(i - 1) != c
        invariant
            i <= n,
            n == s@.len(),
            forall|k: int| i <= k < n ==> s@[k] != c,
        decreases i,
    {
        i -= 1;
    }
    proof {
        lemma_after_last(s@, c, i as int);
    }
    i
}

/// The first index `k >= from` at which `needle` occurs in `hay`.
pub open spec fn first_occurrence(hay: Seq<char>, needle: Seq<char>, from: int) -> Option<int>
    decreases hay.len() - from,
{
    if from < 0 || from >= hay.len() {
        None
    } else if occurs_at(hay, needle, from) {
        Some(from)
    } else {
        first_occurrence(hay, needle, from + 1)
    }
}

/// `hay` with its first occurrence of `needle` replaced by `rep`
/// (what `str::replacen(needle, rep, 1)` returns for a non-empty `needle`).
pub open spec fn replace_first(hay: Seq<char>, needle: Seq<char>, rep: Seq<char>) -> Seq<char> {
    match first_occurrence(hay, needle, 0) {
        Some(k) => hay.subrange(0, k) + rep + hay.subrange(k + needle.len(), hay.len() as int),
        None => hay,
    }
}

/// The first index at which `needle` occurs in `hay`.
pub fn find_first(hay: &Vec<char>, needle: &Vec<char>) -> (r: Option<usize>)
    ensures
        r matches Some(k) ==> first_occurrence(hay@, needle@, 0) == Some(k as int) && occurs_at(hay@, needle@, k as int),
        r is None ==> first_occurrence(hay@, needle@, 0) is None,
{
    let mut i: usize = 0;
    while i < hay.len()
        invariant
            i <= hay.len(),
            first_occurrence(hay@, needle@, 0) == first_occurrence(hay@, needle@, i as int),
        decreases hay.len() - i,
    {
        if occurs_at_exec(hay, needle, i) {
            return Some(i);
        }
        i += 1;
    }
    None
}

/// The characters `v[from..to]`.
pub fn slice_chars(v: &Vec<char>, from: usize, to: usize) -> (r: Vec<char>)
    requires
        from <= to <= v.len(),
    ensures
        r@ == v@.subrange(from as int, to as int),
{
    let mut r: Vec<char> = Vec::new();
    let mut i: usize = from;
    while i < to
        invariant
            from <= i <= to <= v.len(),
            r@ == v@.subrange(from as int, i as int),
        decreases to - i,
    {
        r.push(v[i]);
        i += 1;
        assert(r@ =~= v@.subrange(from as int, i as int));
    }
    r
}

/// `hay` with its first occurrence of `needle` replaced by `rep`.
pub fn replace_first_exec(hay: &Vec<char>, needle: &Vec<char>, rep: &Vec<char>) -> (r: Vec<char>)
    ensures
        r@ == replace_first(hay@, needle@, rep@),
{
    match find_first(hay, needle) {
        Some(k) => {
            let mut r = slice_chars(hay, 0, k);
            let mut j: usize = 0;
            while j < rep.len()
                invariant
                    k + needle.len() <= hay.len(),
                    j <= rep.len(),
                    r@ == hay@.subrange(0, k as int) + rep@.subrange(0, j as int),
                decreases rep.len() - j,
            {
                r.push(rep[j]);
                j += 1;
                assert(r@ =~= hay@.subrange(0, k as int) + rep@.subrange(0, j as int));
            }
            let tail = slice_chars(hay, k + needle.len(), hay.len());
            let mut t: usize = 0;
            while t < tail.len()
                invariant
                    t <= tail.len(),
                    r@ == hay@.subrange(0, k as int) + rep@ + tail@.subrange(0, t as int),
                decreases tail.len() - t,
            {
                r.push(tail[t]);
                t += 1;
                assert(r@ =~= hay@.subrange(0, k as int) + rep@ + tail@.subrange(0, t as int));
            }
            assert(rep@.subrange(0, rep@.len() as int) =~= rep@);
            assert(tail@.subrange(0, tail@.len() as int) =~= tail@);
            r
        },
        None => {
            let mut r: Vec<char> = Vec::new();
            let mut j: usize = 0;
            while j < hay.len()
                invariant
                    j <= hay.len(),
                    r@ == hay@.subrange(0, j as int),
                decreases hay.len() - j,
            {
                r.push(hay[j]);
                j += 1;
                assert(r@ =~= hay@.subrange(0, j as int));
            }
            assert(hay@.subrange(0, hay@.len() as int) =~= hay@);
            r
        },
    }
}

/// Unicode `White_Space` (what `char::is_whitespace` answers).
pub open spec fn is_white_space(c: char) -> bool {
    let v = c as int;
    ||| 9 <= v <= 13
    ||| v == 32
    ||| v == 0x85
    ||| v == 0xa0
    ||| v == 0x1680
    ||| 0x2000 <= v <= 0x200a
    ||| v == 0x2028
    ||| v == 0x2029
    ||| v == 0x202f
    ||| v == 0x205f
    ||| v == 0x3000
}

/// Whether `c` is white space.
pub fn is_white_space_exec(c: char) -> (r: bool)
    ensures
        r == is_white_space(c),
{
    let v: u32 = c as u32;
    (9 <= v && v <= 13) || v == 32 || v == 0x85 || v == 0xa0 || v == 0x1680 || (0x2000 <= v && v
        <= 0x200a) || v == 0x2028 || v == 0x2029 || v == 0x202f || v == 0x205f || v == 0x3000
}

/// `s` without leading white space.
pub open spec fn trim_start(s: Seq<char>) -> Seq<char>
    decreases s.len(),
{
    if s.len() > 0 && is_white_space(s[0]) {
        trim_start(s.drop_first())
    } else {
        s
    }
}

/// `s` without trailing white space.
pub open spec fn trim_end(s: Seq<char>) -> Seq<char>
    decreases s.len(),
{
    if s.len() > 0 && is_white_space(s.last()) {
        trim_end(s.drop_last())
    } else {
        s
    }
}

/// `s` without leading and trailing white space (what `str::trim` returns).
pub open spec fn trim(s: Seq<char>) -> Seq<char> {
    trim_end(trim_start(s))
}

/// The characters of `v` without leading and trailing white space.
pub fn trim_chars(v: &Vec<char>) -> (r: Vec<char>)
    ensures
        r@ == trim(v@),
{
    let mut a: usize = 0;
    assert(v@.skip(0) =~= v@);
    while a < v.len() && is_white_space_exec(v[a])
        invariant
            a <= v.len(),
            trim_start(v@) == trim_start(v@.skip(a as int)),
        decreases v.len() - a,
    {
        assert(v@.skip(a as int).drop_first() =~= v@.skip(a + 1));
        a += 1;
    }
    let ghost st = v@.skip(a as int);
    assert(trim_start(v@) == st);
    let mut b: usize = v.len();
    assert(st.take(st.len() as int) =~= st);
    while b > a && is_white_space_exec(v[b - 1])
        invariant
            a <= b <= v.len(),
            st == v@.skip(a as int),
            trim_end(st) == trim_end(st.take(b - a)),
        decreases b,
    {
        assert(st.take(b - a).drop_last() =~= st.take(b - a - 1));
        b -= 1;
    }
    let r = slice_chars(v, a, b);
    assert(r@ =~= st.take(b - a));
    r
}

/// The number of white-space separated words in `s` (what
/// `str::split_whitespace().count()` answers).
pub open spec fn word_count(s: Seq<char>) -> nat
    decreases s.len(),
{
    if s.len() == 0 {
        0
    } else {
        word_count(s.drop_last()) + if !is_white_space(s.last()) && (s.len() == 1 || is_white_space(
            s[s.len() - 2],
        )) {
            1nat
        } else {
            0nat
        }
    }
}

/// The number of white-space separated words in `s`.
pub fn count_words(s: &str) -> (n: usize)
    ensures
        n == word_count(s@),
{
    let v = chars_of(s);
    let mut n: usize = 0;
    let mut i: usize = 0;
    while i < v.len()
        invariant
            i <= v.len(),
            n <= i,
            n == word_count(v@.take(i as int)),
        decreases v.len() - i,
    {
        assert(v@.take(i + 1).drop_last() =~= v@.take(i as int));
        if !is_white_space_exec(v[i]) && (i == 0 || is_white_space_exec(v[i - 1])) {
            n += 1;
        }
        i += 1;
    }
    assert(v@.take(i as int) =~= v@);
    n
}

} // verus!
