use vstd::prelude::*;

verus! {

/// The position of the first `c` in `s` at or after `from`, or `s.len()` when there is none.
pub open spec fn find_char(s: Seq<char>, c: char, from: nat) -> nat
    decreases s.len() - from,
{
    if from >= s.len() {
        s.len()
    } else if s[from as int] == c {
        from
    } else {
        find_char(s, c, from + 1)
    }
}

/// The whitespace of `char::is_whitespace`: Unicode's White_Space property.
pub open spec fn is_space(c: char) -> bool {
    let u = c as u32;
    ||| 0x09 <= u <= 0x0d
    ||| u == 0x20
    ||| u == 0x85
    ||| u == 0xa0
    ||| u == 0x1680
    ||| 0x2000 <= u <= 0x200a
    ||| u == 0x2028
    ||| u == 0x2029
    ||| u == 0x202f
    ||| u == 0x205f
    ||| u == 0x3000
}

/// The position of the first whitespace in `s` at or after `from`, or `s.len()`.
pub open spec fn find_space(s: Seq<char>, from: nat) -> nat
    decreases s.len() - from,
{
    if from >= s.len() {
        s.len()
    } else if is_space(s[from as int]) {
        from
    } else {
        find_space(s, from + 1)
    }
}

/// The character of the decimal digit `d`, for `d < 10`.
pub open spec fn digit_char(d: nat) -> char {
    (48 + d) as u8 as char
}

/// The decimal numeral of `n`, without leading zeros.
pub open spec fn decimal(n: nat) -> Seq<char>
    decreases n,
{
    if n < 10 {
        seq![digit_char(n)]
    } else {
        decimal(n / 10).push(digit_char(n % 10))
    }
}

/// `s` begins with `p`.
pub open spec fn starts_with(s: Seq<char>, p: Seq<char>) -> bool {
    p.len() <= s.len() && s.subrange(0, p.len() as int) == p
}

pub proof fn lemma_find_char_bounds(s: Seq<char>, c: char, from: nat)
    requires
        from <= s.len(),
    ensures
        from <= find_char(s, c, from) <= s.len(),
    decreases s.len() - from,
{
    if from < s.len() && s[from as int] != c {
        lemma_find_char_bounds(s, c, from + 1);
    }
}

pub proof fn lemma_find_space_bounds(s: Seq<char>, from: nat)
    requires
        from <= s.len(),
    ensures
        from <= find_space(s, from) <= s.len(),
    decreases s.len() - from,
{
    if from < s.len() && !is_space(s[from as int]) {
        lemma_find_space_bounds(s, from + 1);
    }
}

/// `find_char` is the first `c` at or after `from`.
pub proof fn lemma_find_char_at(s: Seq<char>, c: char, from: nat, j: nat)
    requires
        from <= j <= s.len(),
        forall|k: int| from <= k < j ==> s[k] != c,
        j == s.len() || s[j as int] == c,
    ensures
        find_char(s, c, from) == j,
    decreases j - from,
{
    if from < j {
        lemma_find_char_at(s, c, from + 1, j);
    }
}

/// `find_space` is the first whitespace at or after `from`.
pub proof fn lemma_find_space_at(s: Seq<char>, from: nat, j: nat)
    requires
        from <= j <= s.len(),
        forall|k: int| from <= k < j ==> !is_space(s[k]),
        j == s.len() || is_space(s[j as int]),
    ensures
        find_space(s, from) == j,
    decreases j - from,
{
    if from < j {
        lemma_find_space_at(s, from + 1, j);
    }
}

/// Relies on `String::push`: it appends `c` to the end of `s`.
#[verifier::external_body]
fn push_char(s: &mut String, c: char)
    ensures
        final(s)@ == old(s)@.push(c),
{
    s.push(c)
}

/// Appends the decimal numeral of `n` to `out`.
pub fn push_decimal(out: &mut String, n: u64)
    ensures
        final(out)@ == old(out)@ + decimal(n as nat),
    decreases n,
{
    if n >= 10 {
        push_decimal(out, n / 10);
    }
    let d = (n % 10) as u8;
    push_char(out, (48u8 + d) as char);
    assert(old(out)@ + decimal(n as nat) =~= (if n >= 10 {
        old(out)@ + decimal((n / 10) as nat)
    } else {
        old(out)@
    }).push(digit_char((n % 10) as nat)));
}

/// Whether `c` is whitespace, as `char::is_whitespace` decides.
pub fn is_whitespace(c: char) -> (r: bool)
    ensures
        r == is_space(c),
{
    let u = c as u32;
    (0x09 <= u && u <= 0x0d) || u == 0x20 || u == 0x85 || u == 0xa0 || u == 0x1680 || (0x2000
        <= u && u <= 0x200a) || u == 0x2028 || u == 0x2029 || u == 0x202f || u == 0x205f || u
        == 0x3000
}

/// The first `c` of `s[a..b]` at or after relative position `from`, relative to `a`.
pub fn find_char_in(s: &str, a: usize, b: usize, c: char, from: usize) -> (e: usize)
    requires
        a <= b <= s@.len(),
        from <= b - a,
    ensures
        e == find_char(s@.subrange(a as int, b as int), c, from as nat),
        from <= e <= b - a,
{
    let ghost t = s@.subrange(a as int, b as int);
    let mut j = from;
    while j < b - a && s.get_char(a + j) != c
        invariant
            a <= b <= s@.len(),
            t == s@.subrange(a as int, b as int),
            from <= j <= b - a,
            forall|k: int| from <= k < j ==> t[k] != c,
        decreases b - a - j,
    {
        j = j + 1;
    }
    proof {
        lemma_find_char_at(t, c, from as nat, j as nat);
    }
    j
}

/// The first whitespace of `s[a..b]` at or after relative position `from`, relative to `a`.
pub fn find_space_in(s: &str, a: usize, b: usize, from: usize) -> (e: usize)
    requires
        a <= b <= s@.len(),
        from <= b - a,
    ensures
        e == find_space(s@.subrange(a as int, b as int), from as nat),
        from <= e <= b - a,
{
    let ghost t = s@.subrange(a as int, b as int);
    let mut j = from;
    while j < b - a && !is_whitespace(s.get_char(a + j))
        invariant
            a <= b <= s@.len(),
            t == s@.subrange(a as int, b as int),
            from <= j <= b - a,
            forall|k: int| from <= k < j ==> !is_space(t[k]),
        decreases b - a - j,
    {
        j = j + 1;
    }
    proof {
        lemma_find_space_at(t, from as nat, j as nat);
    }
    j
}

/// Whether `s[a..b]` begins with `p`.
pub fn starts_with_in(s: &str, a: usize, b: usize, p: &str) -> (r: bool)
    requires
        a <= b <= s@.len(),
    ensures
        r == starts_with(s@.subrange(a as int, b as int), p@),
{
    let ghost t = s@.subrange(a as int, b as int);
    let m = p.unicode_len();
    if m > b - a {
        return false;
    }
    let mut i: usize = 0;
    while i < m
        invariant
            a <= b <= s@.len(),
            t == s@.subrange(a as int, b as int),
            m == p@.len(),
            m <= b - a,
            i <= m,
            forall|k: int| 0 <= k < i ==> t[k] == p@[k],
        decreases m - i,
    {
        if s.get_char(a + i) != p.get_char(i) {
            assert(t.subrange(0, m as int)[i as int] != p@[i as int]);
            return false;
        }
        i = i + 1;
    }
    assert(t.subrange(0, m as int) =~= p@);
    true
}

} // verus!
