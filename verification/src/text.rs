//! Character-level helpers on strings, stated over `Seq<char>`.

use vstd::prelude::*;

verus! {

/// The Unicode `White_Space` property, which `char::is_whitespace` tests.
pub open spec fn is_white_space(c: char) -> bool {
    let n = c as u32;
    ||| 0x9 <= n <= 0xd
    ||| n == 0x20
    ||| n == 0x85
    ||| n == 0xa0
    ||| n == 0x1680
    ||| 0x2000 <= n <= 0x200a
    ||| n == 0x2028
    ||| n == 0x2029
    ||| n == 0x202f
    ||| n == 0x205f
    ||| n == 0x3000
}

/// Whether `c` has the Unicode `White_Space` property.
pub fn white_space(c: char) -> (r: bool)
    ensures
        r == is_white_space(c),
{
    let n = c as u32;
    (0x9 <= n && n <= 0xd) || n == 0x20 || n == 0x85 || n == 0xa0 || n == 0x1680 || (0x2000
        <= n && n <= 0x200a) || n == 0x2028 || n == 0x2029 || n == 0x202f || n == 0x205f || n
        == 0x3000
}

/// `s` without its leading white space.
pub open spec fn trim_start(s: Seq<char>) -> Seq<char>
    decreases s.len(),
{
    if s.len() > 0 && is_white_space(s[0]) {
        trim_start(s.drop_first())
    } else {
        s
    }
}

/// `s` without its trailing white space.
pub open spec fn trim_end(s: Seq<char>) -> Seq<char>
    decreases s.len(),
{
    if s.len() > 0 && is_white_space(s.last()) {
        trim_end(s.drop_last())
    } else {
        s
    }
}

/// `s` without leading and trailing white space (what `str::trim` gives).
pub open spec fn trimmed(s: Seq<char>) -> Seq<char> {
    trim_end(trim_start(s))
}

/// `s` without its trailing occurrences of `c` (what `str::trim_end_matches(c)` gives).
pub open spec fn strip_trailing(s: Seq<char>, c: char) -> Seq<char>
    decreases s.len(),
{
    if s.len() > 0 && s.last() == c {
        strip_trailing(s.drop_last(), c)
    } else {
        s
    }
}

/// `p` is a prefix of `s`.
pub open spec fn has_prefix(s: Seq<char>, p: Seq<char>) -> bool {
    p.len() <= s.len() && s.take(p.len() as int) == p
}

/// `needle` occurs in `hay` starting at position `i`.
pub open spec fn occurs_at(hay: Seq<char>, needle: Seq<char>, i: int) -> bool {
    0 <= i && i + needle.len() <= hay.len() && hay.subrange(i, i + needle.len()) == needle
}

/// `needle` occurs somewhere in `hay` (what `str::contains` gives for a string pattern).
pub open spec fn contains(hay: Seq<char>, needle: Seq<char>) -> bool {
    exists|i: int| occurs_at(hay, needle, i)
}

/// The ASCII digit for `d < 10`.
pub open spec fn digit_char(d: nat) -> char {
    (48 + d) as char
}

/// The decimal notation of `n` (what `Display` gives for an unsigned integer).
pub open spec fn decimal(n: nat) -> Seq<char>
    decreases n,
{
    if n < 10 {
        seq![digit_char(n)]
    } else {
        decimal(n / 10).push(digit_char(n % 10))
    }
}

/// What `str::to_lowercase` returns for `s`: full Unicode lower-case mapping,
/// context-sensitive for a final capital sigma.
pub uninterp spec fn unicode_lowercase(s: Seq<char>) -> Seq<char>;

/// What `format!("{:?}", s)` returns for a string `s`: the quoted, escaped form.
pub uninterp spec fn debug_repr(s: Seq<char>) -> Seq<char>;

/// Calls `str::to_lowercase`. Claimed: the result is `unicode_lowercase` of
/// the argument, a function of the characters alone, and the empty string
/// lower-cases to the empty string.
#[verifier::external_body]
pub(crate) fn to_lowercase(s: &str) -> (r: String)
    ensures
        r@ == unicode_lowercase(s@),
        s@.len() == 0 ==> r@.len() == 0,
{
    s.to_lowercase()
}

/// Calls the `Debug` formatting of `str` through `format!`. Claimed: the
/// result is `debug_repr` of the argument, a function of the characters alone.
#[verifier::external_body]
pub(crate) fn debug_quoted(s: &str) -> (r: String)
    ensures
        r@ == debug_repr(s@),
{
    format!("{:?}", s)
}

/// Calls `String::push`. Claimed, as its documentation says: `c` is appended.
#[verifier::external_body]
pub(crate) fn push_char(s: &mut String, c: char)
    ensures
        final(s)@ == old(s)@.push(c),
{
    s.push(c)
}

/// The characters of `s`, in order.
pub fn chars_of(s: &str) -> (v: Vec<char>)
    ensures
        v@ == s@,
{
    broadcast use vstd::string::group_string_axioms;

    let mut v: Vec<char> = Vec::new();
    for c in it: s.chars()
        invariant
            it.seq() == s@,
            v@ == s@.take(it.index()),
    {
        v.push(c);
    }
    assert(v@ =~= s@);
    v
}

proof fn lemma_trim_start_step(s: Seq<char>, i: int)
    requires
        0 <= i < s.len(),
        is_white_space(s[i]),
    ensures
        trim_start(s.skip(i)) == trim_start(s.skip(i + 1)),
{
    assert(s.skip(i).drop_first() =~= s.skip(i + 1));
}

proof fn lemma_trim_end_step(s: Seq<char>, i: int, j: int)
    requires
        0 <= i < j <= s.len(),
        is_white_space(s[j - 1]),
    ensures
        trim_end(s.subrange(i, j)) == trim_end(s.subrange(i, j - 1)),
{
    assert(s.subrange(i, j).drop_last() =~= s.subrange(i, j - 1));
}

/// `s` without leading and trailing white space, as `str::trim` does.
pub fn trim(s: &str) -> (r: &str)
    ensures
        r@ == trimmed(s@),
{
    let cs = chars_of(s);
    let n = cs.len();
    let mut i: usize = 0;
    assert(s@.skip(0) =~= s@);
    while i < n
        invariant
            cs@ == s@,
            n == cs.len(),
            i <= n,
            trim_start(s@) == trim_start(s@.skip(i as int)),
        ensures
            i == n || !is_white_space(s@[i as int]),
        decreases n - i,
    {
        if !white_space(cs[i]) {
            break;
        }
        proof {
            lemma_trim_start_step(s@, i as int);
        }
        i = i + 1;
    }
    assert(trim_start(s@) == s@.subrange(i as int, n as int)) by {
        assert(s@.skip(i as int) =~= s@.subrange(i as int, n as int));
        if i < n {
            assert(s@.skip(i as int)[0] == s@[i as int]);
        }
    }
    let mut j: usize = n;
    while j > i
        invariant
            cs@ == s@,
            n == cs.len(),
            i <= j <= n,
            trimmed(s@) == trim_end(s@.subrange(i as int, j as int)),
        ensures
            i <= j <= n,
            trimmed(s@) == trim_end(s@.subrange(i as int, j as int)),
            j == i || !is_white_space(s@[j - 1]),
        decreases j - i,
    {
        if !white_space(cs[j - 1]) {
            break;
        }
        proof {
            lemma_trim_end_step(s@, i as int, j as int);
        }
        j = j - 1;
    }
    assert(trimmed(s@) == s@.subrange(i as int, j as int)) by {
        if j > i {
            assert(s@.subrange(i as int, j as int).last() == s@[j - 1]);
        }
    }
    s.substring_char(i, j)
}

proof fn lemma_strip_step(s: Seq<char>, c: char, j: int)
    requires
        0 < j <= s.len(),
        s[j - 1] == c,
    ensures
        strip_trailing(s.take(j), c) == strip_trailing(s.take(j - 1), c),
{
    assert(s.take(j).drop_last() =~= s.take(j - 1));
}

/// `s` without its trailing occurrences of `c`, as `str::trim_end_matches(c)` does.
pub fn strip_trailing_char(s: &str, c: char) -> (r: &str)
    ensures
        r@ == strip_trailing(s@, c),
{
    let cs = chars_of(s);
    let mut j: usize = cs.len();
    assert(s@.take(j as int) =~= s@);
    while j > 0
        invariant
            cs@ == s@,
            j <= cs.len(),
            strip_trailing(s@, c) == strip_trailing(s@.take(j as int), c),
        ensures
            j <= cs.len(),
            strip_trailing(s@, c) == strip_trailing(s@.take(j as int), c),
            j == 0 || s@[j - 1] != c,
        decreases j,
    {
        if cs[j - 1] != c {
            break;
        }
        proof {
            lemma_strip_step(s@, c, j as int);
        }
        j = j - 1;
    }
    assert(s@.subrange(0, j as int) =~= s@.take(j as int));
    if j > 0 {
        assert(s@.take(j as int).last() == s@[j - 1]);
    }
    s.substring_char(0, j)
}

/// Whether `p` is a prefix of `s`.
pub fn starts_with(s: &Vec<char>, p: &Vec<char>) -> (r: bool)
    ensures
        r == has_prefix(s@, p@),
{
    if p.len() > s.len() {
        return false;
    }
    let mut k: usize = 0;
    while k < p.len()
        invariant
            p.len() <= s.len(),
            k <= p.len(),
            forall|m: int| 0 <= m < k ==> s@[m] == p@[m],
        decreases p.len() - k,
    {
        if s[k] != p[k] {
            assert(s@.take(p.len() as int)[k as int] != p@[k as int]);
            return false;
        }
        k = k + 1;
    }
    assert(s@.take(p.len() as int) =~= p@);
    true
}

/// Whether `needle` occurs in `hay`, as `str::contains` does for a string pattern.
pub fn contains_chars(hay: &Vec<char>, needle: &Vec<char>) -> (r: bool)
    ensures
        r == contains(hay@, needle@),
{
    if needle.len() > hay.len() {
        assert forall|i: int| !occurs_at(hay@, needle@, i) by {}
        return false;
    }
    let last = hay.len() - needle.len();
    let mut i: usize = 0;
    loop
        invariant
            last == hay.len() - needle.len(),
            needle.len() <= hay.len(),
            i <= last,
            forall|p: int| 0 <= p < i ==> !occurs_at(hay@, needle@, p),
        decreases last - i,
    {
        let mut k: usize = 0;
        let mut same = true;
        while k < needle.len()
            invariant_except_break
                same,
                forall|m: int| 0 <= m < k ==> hay@[i + m] == needle@[m],
            invariant
                i <= last,
                last == hay.len() - needle.len(),
                k <= needle.len(),
            ensures
                same ==> k == needle.len(),
                same ==> forall|m: int| 0 <= m < needle.len() ==> hay@[i + m] == needle@[m],
                !same ==> !occurs_at(hay@, needle@, i as int),
            decreases needle.len() - k,
        {
            if hay[i + k] != needle[k] {
                same = false;
                assert(hay@.subrange(i as int, i + needle.len())[k as int] != needle@[k as int]);
                break;
            }
            k = k + 1;
        }
        if same {
            assert(hay@.subrange(i as int, i + needle.len()) =~= needle@);
            assert(occurs_at(hay@, needle@, i as int));
            return true;
        }
        if i == last {
            assert forall|p: int| !occurs_at(hay@, needle@, p) by {
                if 0 <= p && p < i {
                }
            }
            return false;
        }
        i = i + 1;
    }
}

/// Appends the decimal notation of `n` to `s`.
pub fn push_decimal(s: &mut String, n: u64)
    ensures
        final(s)@ == old(s)@ + decimal(n as nat),
    decreases n,
{
    let ghost before = s@;
    if n >= 10 {
        push_decimal(s, n / 10);
    }
    let d: u8 = (n % 10) as u8;
    let c = (48u8 + d) as char;
    push_char(s, c);
    proof {
        if n >= 10 {
            assert(decimal(n as nat) == decimal((n / 10) as nat).push(digit_char((n % 10) as nat)));
        }
        assert(c == digit_char((n % 10) as nat));
        assert(s@ =~= before + decimal(n as nat));
    }
}

} // verus!
