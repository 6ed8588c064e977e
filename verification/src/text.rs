//! Character-level helpers shared by the device model and the Windows
//! probing logic: decimal rendering, comparison, substring search and the
//! Unicode whitespace trimming that `str::trim` performs.

use vstd::prelude::*;

verus! {

/// `String::push` appends one character.
pub assume_specification[ String::push ](string: &mut String, ch: char)
    ensures
        final(string)@ == old(string)@.push(ch),
;

/// `str::trim` removes leading and trailing characters that have the
/// Unicode `White_Space` property, as `is_white_space` lists them.
pub assume_specification<'a>[ str::trim ](s: &'a str) -> (r: &'a str)
    ensures
        r@ == trim_chars(s@),
;

/// The character of the decimal digit `d` (`d < 10`).
pub open spec fn digit_char(d: nat) -> char {
    (48 + d) as char
}

/// The decimal representation of `n`, most significant digit first and
/// without leading zeros (`0` is rendered as a single `'0'`).
pub open spec fn decimal_digits(n: nat) -> Seq<char>
    decreases n,
{
    if n < 10 {
        seq![digit_char(n)]
    } else {
        decimal_digits(n / 10).push(digit_char(n % 10))
    }
}

/// A character with the Unicode `White_Space` property.
pub open spec fn is_white_space(c: char) -> bool {
    let u = c as u32;
    ||| 0x09 <= u <= 0x0D
    ||| u == 0x20
    ||| u == 0x85
    ||| u == 0xA0
    ||| u == 0x1680
    ||| 0x2000 <= u <= 0x200A
    ||| u == 0x2028
    ||| u == 0x2029
    ||| u == 0x202F
    ||| u == 0x205F
    ||| u == 0x3000
}

/// `s` without its leading whitespace.
pub open spec fn trim_start_chars(s: Seq<char>) -> Seq<char>
    decreases s.len(),
{
    if s.len() > 0 && is_white_space(s[0]) {
        trim_start_chars(s.drop_first())
    } else {
        s
    }
}

/// `s` without its trailing whitespace.
pub open spec fn trim_end_chars(s: Seq<char>) -> Seq<char>
    decreases s.len(),
{
    if s.len() > 0 && is_white_space(s.last()) {
        trim_end_chars(s.drop_last())
    } else {
        s
    }
}

/// `s` without its leading and trailing whitespace.
pub open spec fn trim_chars(s: Seq<char>) -> Seq<char> {
    trim_end_chars(trim_start_chars(s))
}

/// `needle` occurs in `hay` starting at position `i`.
pub open spec fn occurs_at(hay: Seq<char>, needle: Seq<char>, i: int) -> bool {
    &&& 0 <= i
    &&& i + needle.len() <= hay.len()
    &&& hay.subrange(i, i + needle.len()) == needle
}

/// `needle` occurs somewhere in `hay` (the empty text occurs everywhere).
pub open spec fn has_substring(hay: Seq<char>, needle: Seq<char>) -> bool {
    exists|i: int| occurs_at(hay, needle, i)
}

/// The characters of `s`, one by one.
pub fn chars_of(s: &str) -> (r: Vec<char>)
    ensures
        r@ == s@,
{
    let n = s.unicode_len();
    let mut r: Vec<char> = Vec::new();
    let mut i: usize = 0;
    while i < n
        invariant
            n == s@.len(),
            i <= n,
            r@ == s@.subrange(0, i as int),
        decreases n - i,
    {
        r.push(s.get_char(i));
        i = i + 1;
    }
    r
}

/// Renders `n` in decimal.
pub fn decimal_string(n: u64) -> (s: String)
    ensures
        s@ == decimal_digits(n as nat),
{
    // Digits are produced least significant first.
    let mut digits: Vec<char> = Vec::new();
    let mut m: u64 = n;
    let ghost mut tail: Seq<char> = Seq::empty();
    while m >= 10
        invariant
            decimal_digits(n as nat) == decimal_digits(m as nat) + tail,
            digits@.len() == tail.len(),
            forall|k: int| 0 <= k < tail.len() ==> tail[k] == digits@[tail.len() - 1 - k],
        decreases m,
    {
        let d: u8 = (m % 10) as u8;
        let c: char = (48u8 + d) as char;
        proof {
            assert(decimal_digits(m as nat) == decimal_digits((m / 10) as nat).push(
                digit_char((m % 10) as nat),
            ));
            assert(decimal_digits((m / 10) as nat).push(c) + tail =~= decimal_digits(
                (m / 10) as nat,
            ) + (seq![c] + tail));
            tail = seq![c] + tail;
        }
        digits.push(c);
        m = m / 10;
    }
    let last: char = (48u8 + (m as u8)) as char;
    proof {
        tail = seq![last] + tail;
    }
    digits.push(last);
    assert(tail == decimal_digits(n as nat));
    let mut s = String::new();
    let mut i: usize = digits.len();
    while i > 0
        invariant
            i <= digits@.len(),
            digits@.len() == tail.len(),
            forall|k: int| 0 <= k < tail.len() ==> tail[k] == digits@[tail.len() - 1 - k],
            s@ == tail.subrange(0, digits@.len() - i),
        decreases i,
    {
        i = i - 1;
        s.push(digits[i]);
        assert(s@ =~= tail.subrange(0, digits@.len() - i));
    }
    assert(s@ =~= tail);
    s
}

/// Whether two texts are the same, character for character.
pub fn text_eq(a: &str, b: &str) -> (r: bool)
    ensures
        r == (a@ == b@),
{
    let x = chars_of(a);
    let y = chars_of(b);
    if x.len() != y.len() {
        return false;
    }
    let mut i: usize = 0;
    while i < x.len()
        invariant
            x@ == a@,
            y@ == b@,
            x@.len() == y@.len(),
            i <= x@.len(),
            forall|k: int| 0 <= k < i ==> x@[k] == y@[k],
        decreases x@.len() - i,
    {
        if x[i] != y[i] {
            return false;
        }
        i = i + 1;
    }
    assert(a@ =~= b@);
    true
}

/// Whether `needle` occurs in `hay`.
pub fn text_contains(hay: &str, needle: &str) -> (r: bool)
    ensures
        r == has_substring(hay@, needle@),
{
    let h = chars_of(hay);
    let p = chars_of(needle);
    if p.len() > h.len() {
        return false;
    }
    let hl: usize = h.len();
    let last: usize = hl - p.len();
    let mut i: usize = 0;
    loop
        invariant
            h@ == hay@,
            p@ == needle@,
            last == h@.len() - p@.len(),
            hl == h@.len(),
            p@.len() <= h@.len(),
            i <= last,
            forall|k: int| 0 <= k < i ==> !occurs_at(hay@, needle@, k),
        decreases last - i,
    {
        let mut j: usize = 0;
        let mut same = true;
        while j < p.len()
            invariant
                h@ == hay@,
                p@ == needle@,
                i <= last,
                last == h@.len() - p@.len(),
                hl == h@.len(),
                j <= p@.len(),
                same ==> forall|k: int| 0 <= k < j ==> h@[i + k] == p@[k],
                !same ==> !occurs_at(hay@, needle@, i as int),
            decreases p@.len() - j,
        {
            assert(i + j < h@.len());
            if h[i + j] != p[j] {
                proof {
                    if occurs_at(hay@, needle@, i as int) {
                        assert(hay@.subrange(i as int, i + needle@.len())[j as int] == h@[i + j]);
                    }
                }
                same = false;
            }
            j = j + 1;
        }
        if same {
            assert(hay@.subrange(i as int, i + needle@.len()) =~= needle@);
            assert(occurs_at(hay@, needle@, i as int));
            return true;
        }
        if i == last {
            assert forall|k: int| !occurs_at(hay@, needle@, k) by {
                if occurs_at(hay@, needle@, k) {
                    assert(k <= last);
                }
            }
            return false;
        }
        i = i + 1;
    }
}

/// Every number has at least one digit.
pub proof fn lemma_decimal_digits_nonempty(n: nat)
    ensures
        decimal_digits(n).len() >= 1,
        n >= 10 ==> decimal_digits(n).len() >= 2,
    decreases n,
{
    if n >= 10 {
        lemma_decimal_digits_nonempty(n / 10);
    }
}

/// Distinct numbers have distinct decimal representations.
pub proof fn lemma_decimal_digits_injective(a: nat, b: nat)
    ensures
        decimal_digits(a) == decimal_digits(b) ==> a == b,
    decreases a,
{
    lemma_decimal_digits_nonempty(a);
    lemma_decimal_digits_nonempty(b);
    if decimal_digits(a) == decimal_digits(b) {
        if a < 10 && b < 10 {
            assert(decimal_digits(a)[0] == digit_char(a));
            assert(decimal_digits(b)[0] == digit_char(b));
        } else if a >= 10 && b >= 10 {
            let da = decimal_digits(a);
            assert(da.last() == digit_char(a % 10));
            assert(decimal_digits(b).last() == digit_char(b % 10));
            assert(da.drop_last() =~= decimal_digits(a / 10));
            assert(decimal_digits(b).drop_last() =~= decimal_digits(b / 10));
            lemma_decimal_digits_injective(a / 10, b / 10);
        }
    }
}

/// Trimming keeps a stretch of the text, which neither starts nor ends with
/// whitespace.
pub proof fn lemma_trim_chars_bounds(s: Seq<char>)
    ensures
        exists|i: int, j: int| 0 <= i <= j <= s.len() && trim_chars(s) == s.subrange(i, j),
        trim_chars(s).len() > 0 ==> !is_white_space(trim_chars(s)[0]) && !is_white_space(
            trim_chars(s).last(),
        ),
{
    lemma_trim_start(s);
    let t = trim_start_chars(s);
    lemma_trim_end(t);
    let i = choose|i: int| 0 <= i <= s.len() && t == s.subrange(i, s.len() as int);
    let j = choose|j: int| 0 <= j <= t.len() && trim_end_chars(t) == t.subrange(0, j);
    assert(trim_chars(s) =~= s.subrange(i, i + j));
    if trim_chars(s).len() > 0 {
        assert(trim_chars(s)[0] == t[0]);
    }
}

proof fn lemma_trim_start(s: Seq<char>)
    ensures
        exists|i: int| 0 <= i <= s.len() && trim_start_chars(s) == s.subrange(i, s.len() as int),
        trim_start_chars(s).len() > 0 ==> !is_white_space(trim_start_chars(s)[0]),
    decreases s.len(),
{
    if s.len() > 0 && is_white_space(s[0]) {
        lemma_trim_start(s.drop_first());
        let i = choose|i: int|
            0 <= i <= s.drop_first().len() && trim_start_chars(s.drop_first()) == s.drop_first().subrange(
                i,
                s.drop_first().len() as int,
            );
        assert(s.drop_first().subrange(i, s.drop_first().len() as int) =~= s.subrange(i + 1, s.len() as int));
    } else {
        assert(s.subrange(0, s.len() as int) =~= s);
    }
}

proof fn lemma_trim_end(s: Seq<char>)
    ensures
        exists|j: int| 0 <= j <= s.len() && trim_end_chars(s) == s.subrange(0, j),
        trim_end_chars(s).len() > 0 ==> !is_white_space(trim_end_chars(s).last()),
    decreases s.len(),
{
    if s.len() > 0 && is_white_space(s.last()) {
        lemma_trim_end(s.drop_last());
        let j = choose|j: int|
            0 <= j <= s.drop_last().len() && trim_end_chars(s.drop_last()) == s.drop_last().subrange(0, j);
        assert(s.drop_last().subrange(0, j) =~= s.subrange(0, j));
    } else {
        assert(s.subrange(0, s.len() as int) =~= s);
    }
}

/// A text that neither starts nor ends with whitespace is its own trim.
pub proof fn lemma_trim_chars_fixed(s: Seq<char>)
    requires
        s.len() > 0 ==> !is_white_space(s[0]) && !is_white_space(s.last()),
    ensures
        trim_chars(s) == s,
{
    assert(trim_start_chars(s) == s);
}

} // verus!
