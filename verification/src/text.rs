use vstd::prelude::*;
use vstd::string::StrSliceExecFns;

verus! {

// ---------------------------------------------------------------------------
// Character classes
// ---------------------------------------------------------------------------

/// ASCII whitespace, the separators this format uses.
pub open spec fn spec_is_space(c: char) -> bool {
    c == ' ' || c == '\t' || c == '\n' || c == '\r'
}

pub fn is_space(c: char) -> (r: bool)
    ensures
        r == spec_is_space(c),
{
    c == ' ' || c == '\t' || c == '\n' || c == '\r'
}

pub open spec fn spec_is_digit(c: char) -> bool {
    48 <= c as u32 && c as u32 <= 57
}

pub fn is_digit(c: char) -> (r: bool)
    ensures
        r == spec_is_digit(c),
{
    let u = c as u32;
    48 <= u && u <= 57
}

/// Numeric value of an ASCII digit.
pub open spec fn spec_digit_val(c: char) -> int {
    c as u32 - 48
}

// ---------------------------------------------------------------------------
// Conversions between `str`/`String` and character vectors
// ---------------------------------------------------------------------------

pub fn to_chars(s: &str) -> (r: Vec<char>)
    ensures
        r@ == s@,
{
    let n = s.unicode_len();
    let mut r: Vec<char> = Vec::new();
    let mut i: usize = 0;
    while i < n
        invariant
            n == s@.len(),
            i <= n,
            r@ == s@.take(i as int),
        decreases n - i,
    {
        let c = s.get_char(i);
        r.push(c);
        proof {
            assert(s@.take(i + 1) =~= s@.take(i as int).push(s@[i as int]));
        }
        i = i + 1;
    }
    proof {
        assert(s@.take(n as int) =~= s@);
    }
    r
}

/// Relies on `String: FromIterator<char>` (through `Iterator::collect`):
/// collecting a vector's characters yields the string of exactly those
/// characters, in order.
#[verifier::external_body]
pub fn chars_to_string(v: &Vec<char>) -> (r: String)
    ensures
        r@ == v@,
{
    v.iter().collect()
}

pub fn str_eq(a: &str, b: &str) -> (r: bool)
    ensures
        r == (a@ == b@),
{
    let v = to_chars(a);
    chars_eq_str(&v, b)
}

// ---------------------------------------------------------------------------
// Scanning for spaces and tokens
// ---------------------------------------------------------------------------

/// Index of the first non-space character at or after `i`, or the length.
pub open spec fn first_nonspace(s: Seq<char>, i: int) -> int
    decreases s.len() - i,
{
    if i < s.len() && spec_is_space(s[i]) {
        first_nonspace(s, i + 1)
    } else {
        i
    }
}

pub fn seek_nonspace(v: &Vec<char>, i: usize) -> (r: usize)
    requires
        i <= v@.len(),
    ensures
        r == first_nonspace(v@, i as int),
        i <= r <= v@.len(),
        r < v@.len() ==> !spec_is_space(v@[r as int]),
    decreases v@.len() - i,
{
    if i < v.len() && is_space(v[i]) {
        seek_nonspace(v, i + 1)
    } else {
        i
    }
}

/// Index of the first space character at or after `i`, or the length.
pub open spec fn token_end(s: Seq<char>, i: int) -> int
    decreases s.len() - i,
{
    if i < s.len() && !spec_is_space(s[i]) {
        token_end(s, i + 1)
    } else {
        i
    }
}

pub fn seek_space(v: &Vec<char>, i: usize) -> (r: usize)
    requires
        i <= v@.len(),
    ensures
        r == token_end(v@, i as int),
        i <= r <= v@.len(),
    decreases v@.len() - i,
{
    if i < v.len() && !is_space(v[i]) {
        seek_space(v, i + 1)
    } else {
        i
    }
}

/// Index just after the last non-space character in `s[lo..j]`, scanning
/// backwards from `j`; `lo` once no non-space character remains.
pub open spec fn scan_back(s: Seq<char>, j: int, lo: int) -> int
    decreases j - lo,
{
    if j > lo && spec_is_space(s[j - 1]) {
        scan_back(s, j - 1, lo)
    } else {
        j
    }
}

pub fn seek_back(v: &Vec<char>, j: usize, lo: usize) -> (r: usize)
    requires
        lo <= j <= v@.len(),
    ensures
        r == scan_back(v@, j as int, lo as int),
        lo <= r <= j,
        lo < j && !spec_is_space(v@[lo as int]) ==> r > lo,
    decreases j - lo,
{
    if j > lo && is_space(v[j - 1]) {
        seek_back(v, j - 1, lo)
    } else {
        j
    }
}

/// `s` with leading and trailing whitespace removed.
pub open spec fn spec_trim(s: Seq<char>) -> Seq<char> {
    let a = first_nonspace(s, 0);
    if a == s.len() {
        Seq::empty()
    } else {
        s.subrange(a, scan_back(s, s.len() as int, a))
    }
}

// ---------------------------------------------------------------------------
// Joining text chunks with single spaces
// ---------------------------------------------------------------------------

/// Append `piece` to `acc`, separated by a single space; an empty piece
/// leaves `acc` unchanged.
pub open spec fn spec_join(acc: Seq<char>, piece: Seq<char>) -> Seq<char> {
    if piece.len() == 0 {
        acc
    } else if acc.len() == 0 {
        piece
    } else {
        acc + seq![' '] + piece
    }
}

pub fn append_range(acc: &mut Vec<char>, v: &Vec<char>, a: usize, b: usize)
    requires
        a <= b <= v@.len(),
    ensures
        final(acc)@ == old(acc)@ + v@.subrange(a as int, b as int),
{
    let mut j = a;
    while j < b
        invariant
            a <= j <= b <= v@.len(),
            acc@ == old(acc)@ + v@.subrange(a as int, j as int),
        decreases b - j,
    {
        acc.push(v[j]);
        proof {
            assert(v@.subrange(a as int, j + 1) =~= v@.subrange(a as int, j as int).push(v@[j as int]));
            assert(old(acc)@ + v@.subrange(a as int, j + 1) =~= (old(acc)@ + v@.subrange(
                a as int,
                j as int,
            )).push(v@[j as int]));
        }
        j = j + 1;
    }
}

pub fn copy_range(v: &Vec<char>, a: usize, b: usize) -> (r: Vec<char>)
    requires
        a <= b <= v@.len(),
    ensures
        r@ == v@.subrange(a as int, b as int),
{
    let mut r: Vec<char> = Vec::new();
    append_range(&mut r, v, a, b);
    proof {
        assert(r@ =~= v@.subrange(a as int, b as int));
    }
    r
}

/// Append the trimmed `chunk` to `acc`, separated from earlier text by a
/// single space; a chunk that trims to nothing is dropped.
pub fn push_trimmed(acc: &mut Vec<char>, chunk: &str)
    ensures
        final(acc)@ == spec_join(old(acc)@, spec_trim(chunk@)),
{
    let v = to_chars(chunk);
    let a = seek_nonspace(&v, 0);
    if a == v.len() {
        return ;
    }
    let b = seek_back(&v, v.len(), a);
    if acc.len() > 0 {
        acc.push(' ');
        proof {
            assert(old(acc)@.push(' ') =~= old(acc)@ + seq![' ']);
        }
    }
    append_range(acc, &v, a, b);
    proof {
        assert(spec_trim(chunk@) == v@.subrange(a as int, b as int));
        if old(acc)@.len() > 0 {
            assert(acc@ =~= old(acc)@ + seq![' '] + spec_trim(chunk@));
        } else {
            assert(acc@ =~= spec_trim(chunk@));
        }
    }
}

// ---------------------------------------------------------------------------
// Substring, suffix and word search
// ---------------------------------------------------------------------------

/// `pat` occurs in `s` starting at index `i`.
pub open spec fn contains_at(s: Seq<char>, pat: Seq<char>, i: int) -> bool {
    0 <= i && i + pat.len() <= s.len() && s.subrange(i, i + pat.len()) == pat
}

pub open spec fn spec_contains(s: Seq<char>, pat: Seq<char>) -> bool {
    exists|i: int| contains_at(s, pat, i)
}

pub open spec fn spec_ends_with(s: Seq<char>, sfx: Seq<char>) -> bool {
    s.len() >= sfx.len() && contains_at(s, sfx, s.len() - sfx.len())
}

/// `w` occurs in `s` as a whole whitespace-delimited word.
pub open spec fn word_at(s: Seq<char>, w: Seq<char>, i: int) -> bool {
    contains_at(s, w, i) && (i == 0 || spec_is_space(s[i - 1])) && (i + w.len() == s.len()
        || spec_is_space(s[i + w.len()]))
}

pub open spec fn spec_has_word(s: Seq<char>, w: Seq<char>) -> bool {
    exists|i: int| word_at(s, w, i)
}

fn match_at(v: &Vec<char>, p: &Vec<char>, i: usize) -> (r: bool)
    requires
        i + p@.len() <= v@.len(),
    ensures
        r == contains_at(v@, p@, i as int),
{
    let n = v.len();
    let mut k: usize = 0;
    while k < p.len()
        invariant
            n == v@.len(),
            i + p@.len() <= v@.len(),
            k <= p@.len(),
            forall|m: int| 0 <= m < k ==> v@[i + m] == p@[m],
        decreases p@.len() - k,
    {
        proof {
            assert(i + k < v@.len());
        }
        if v[i + k] != p[k] {
            proof {
                assert(v@.subrange(i as int, i + p@.len())[k as int] == v@[i + k]);
                assert(v@.subrange(i as int, i + p@.len()) != p@);
            }
            return false;
        }
        k = k + 1;
    }
    proof {
        assert(v@.subrange(i as int, i + p@.len()) =~= p@);
    }
    true
}

pub fn chars_eq_str(v: &Vec<char>, s: &str) -> (r: bool)
    ensures
        r == (v@ == s@),
{
    let p = to_chars(s);
    if v.len() != p.len() {
        return false;
    }
    let r = match_at(v, &p, 0);
    proof {
        assert(v@.subrange(0, v@.len() as int) =~= v@);
    }
    r
}

pub fn chars_end_with(v: &Vec<char>, sfx: &str) -> (r: bool)
    ensures
        r == spec_ends_with(v@, sfx@),
{
    let p = to_chars(sfx);
    if p.len() > v.len() {
        return false;
    }
    match_at(v, &p, v.len() - p.len())
}

pub fn chars_contain(v: &Vec<char>, pat: &str) -> (r: bool)
    ensures
        r == spec_contains(v@, pat@),
{
    let p = to_chars(pat);
    if p.len() > v.len() {
        proof {
            assert(forall|i: int| !contains_at(v@, p@, i));
        }
        return false;
    }
    if p.len() == 0 {
        proof {
            assert(v@.subrange(0, 0) =~= p@);
            assert(contains_at(v@, p@, 0));
        }
        return true;
    }
    let mut i: usize = 0;
    while i <= v.len() - p.len()
        invariant
            p@ == pat@,
            0 < p@.len() <= v@.len(),
            i <= v@.len() - p@.len() + 1,
            forall|j: int| 0 <= j < i ==> !contains_at(v@, p@, j),
        decreases v@.len() + 1 - p@.len() - i,
    {
        if match_at(v, &p, i) {
            return true;
        }
        i = i + 1;
    }
    proof {
        assert(forall|j: int| !contains_at(v@, p@, j));
    }
    false
}

pub fn str_contains(s: &str, pat: &str) -> (r: bool)
    ensures
        r == spec_contains(s@, pat@),
{
    let v = to_chars(s);
    chars_contain(&v, pat)
}

pub fn str_has_word(s: &str, w: &str) -> (r: bool)
    requires
        w@.len() > 0,
    ensures
        r == spec_has_word(s@, w@),
{
    let v = to_chars(s);
    let p = to_chars(w);
    if p.len() > v.len() {
        proof {
            assert(forall|i: int| !word_at(v@, p@, i));
        }
        return false;
    }
    let mut i: usize = 0;
    while i <= v.len() - p.len()
        invariant
            v@ == s@,
            p@ == w@,
            0 < p@.len() <= v@.len(),
            i <= v@.len() - p@.len() + 1,
            forall|j: int| 0 <= j < i ==> !word_at(v@, p@, j),
        decreases v@.len() + 1 - p@.len() - i,
    {
        let left_ok = i == 0 || is_space(v[i - 1]);
        let right_ok = i + p.len() == v.len() || is_space(v[i + p.len()]);
        if left_ok && right_ok && match_at(&v, &p, i) {
            proof {
                assert(word_at(v@, p@, i as int));
                assert(spec_has_word(s@, w@));
            }
            return true;
        }
        i = i + 1;
    }
    proof {
        assert(forall|j: int| !word_at(v@, p@, j));
    }
    false
}

// ---------------------------------------------------------------------------
// Digits and numbers
// ---------------------------------------------------------------------------

pub open spec fn all_digits(s: Seq<char>) -> bool {
    forall|i: int| 0 <= i < s.len() ==> spec_is_digit(s[i])
}

/// Value of a digit string, most significant digit first.
pub open spec fn digits_val(s: Seq<char>) -> int
    decreases s,
{
    if s.len() == 0 {
        0
    } else {
        digits_val(s.drop_last()) * 10 + spec_digit_val(s.last())
    }
}

/// What parsing a decimal string yields: its value if the string is a
/// non-empty run of digits whose value fits, nothing otherwise.
pub open spec fn spec_parse_u64(s: Seq<char>) -> Option<u64> {
    if s.len() > 0 && all_digits(s) && digits_val(s) <= u64::MAX {
        Option::Some(digits_val(s) as u64)
    } else {
        Option::None
    }
}

proof fn lemma_digits_val_nonneg(s: Seq<char>)
    requires
        all_digits(s),
    ensures
        digits_val(s) >= 0,
    decreases s,
{
    if s.len() > 0 {
        assert(all_digits(s.drop_last()));
        lemma_digits_val_nonneg(s.drop_last());
    }
}

proof fn lemma_digits_val_monotone(s: Seq<char>, i: int)
    requires
        all_digits(s),
        0 <= i <= s.len(),
    ensures
        digits_val(s.take(i)) <= digits_val(s),
    decreases s.len() - i,
{
    if i < s.len() {
        lemma_digits_val_monotone(s, i + 1);
        assert(s.take(i + 1).drop_last() =~= s.take(i));
        assert(all_digits(s.take(i)));
        lemma_digits_val_nonneg(s.take(i));
        assert(digits_val(s.take(i + 1)) == digits_val(s.take(i)) * 10 + spec_digit_val(
            s.take(i + 1).last(),
        ));
    } else {
        assert(s.take(i) =~= s);
    }
}

pub fn parse_u64_chars(v: &Vec<char>) -> (r: Option<u64>)
    ensures
        r == spec_parse_u64(v@),
{
    if v.len() == 0 {
        return None;
    }
    let mut acc: u64 = 0;
    let mut i: usize = 0;
    while i < v.len()
        invariant
            i <= v@.len(),
            v@.len() > 0,
            all_digits(v@.take(i as int)),
            acc == digits_val(v@.take(i as int)),
        decreases v@.len() - i,
    {
        let c = v[i];
        if !is_digit(c) {
            proof {
                assert(!all_digits(v@));
            }
            return None;
        }
        let d = (c as u32) - 48;
        let wide = (acc as u128) * 10 + (d as u128);
        proof {
            assert(v@.take(i + 1).drop_last() =~= v@.take(i as int));
            assert(v@.take(i + 1).last() == v@[i as int]);
            assert(all_digits(v@.take(i + 1)));
        }
        if wide > u64::MAX as u128 {
            proof {
                if all_digits(v@) {
                    lemma_digits_val_monotone(v@, i + 1);
                    assert(digits_val(v@) > u64::MAX);
                }
            }
            return None;
        }
        acc = wide as u64;
        i = i + 1;
    }
    proof {
        assert(v@.take(v@.len() as int) =~= v@);
    }
    Some(acc)
}

/// The digit characters of `s`, in order, everything else removed.
pub open spec fn spec_digits_of(s: Seq<char>) -> Seq<char>
    decreases s,
{
    if s.len() == 0 {
        Seq::empty()
    } else if spec_is_digit(s.last()) {
        spec_digits_of(s.drop_last()).push(s.last())
    } else {
        spec_digits_of(s.drop_last())
    }
}

pub fn digits_of(v: &Vec<char>) -> (r: Vec<char>)
    ensures
        r@ == spec_digits_of(v@),
{
    let mut r: Vec<char> = Vec::new();
    let mut i: usize = 0;
    while i < v.len()
        invariant
            i <= v@.len(),
            r@ == spec_digits_of(v@.take(i as int)),
        decreases v@.len() - i,
    {
        proof {
            assert(v@.take(i + 1).drop_last() =~= v@.take(i as int));
            assert(v@.take(i + 1).last() == v@[i as int]);
        }
        if is_digit(v[i]) {
            r.push(v[i]);
        }
        i = i + 1;
    }
    proof {
        assert(v@.take(v@.len() as int) =~= v@);
    }
    r
}

} // verus!
