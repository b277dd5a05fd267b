//! Character-level text primitives: whitespace, trimming, line and word
//! splitting, substring search and decimal tokens, each given as a spec
//! function over `Seq<char>` together with an executable version proved
//! against it.

use vstd::prelude::*;
use vstd::std_specs::iter::IteratorSpec;

verus! {

broadcast use vstd::string::group_string_axioms;

/// The Unicode `White_Space` characters, the set that `char::is_whitespace`
/// accepts and that `str::trim` and `str::split_whitespace` split on.
pub open spec fn is_space(c: char) -> bool {
    let u = c as u32;
    ||| 9 <= u <= 13
    ||| u == 32
    ||| u == 0x85
    ||| u == 0xa0
    ||| u == 0x1680
    ||| 0x2000 <= u <= 0x200a
    ||| u == 0x2028
    ||| u == 0x2029
    ||| u == 0x202f
    ||| u == 0x205f
    ||| u == 0x3000
}

pub fn is_space_char(c: char) -> (r: bool)
    ensures
        r == is_space(c),
{
    let u = c as u32;
    (9 <= u && u <= 13) || u == 32 || u == 0x85 || u == 0xa0 || u == 0x1680 || (0x2000 <= u && u
        <= 0x200a) || u == 0x2028 || u == 0x2029 || u == 0x202f || u == 0x205f || u == 0x3000
}

/// `s` without its leading whitespace.
pub open spec fn trim_start(s: Seq<char>) -> Seq<char>
    decreases s.len(),
{
    if s.len() > 0 && is_space(s[0]) {
        trim_start(s.drop_first())
    } else {
        s
    }
}

/// `s` without its trailing whitespace.
pub open spec fn trim_end(s: Seq<char>) -> Seq<char>
    decreases s.len(),
{
    if s.len() > 0 && is_space(s.last()) {
        trim_end(s.drop_last())
    } else {
        s
    }
}

/// `s` without leading and trailing whitespace.
pub open spec fn trim(s: Seq<char>) -> Seq<char> {
    trim_end(trim_start(s))
}

/// The first index at or after `i` that holds `c`, or `s.len()` if none does.
pub open spec fn scan_to(s: Seq<char>, i: int, c: char) -> int
    decreases s.len() - i,
    when 0 <= i
{
    if i >= s.len() || s[i] == c {
        i
    } else {
        scan_to(s, i + 1, c)
    }
}

/// The end of the run of non-whitespace characters that starts at `j`.
pub open spec fn word_end(s: Seq<char>, j: int) -> int
    decreases s.len() - j,
    when 0 <= j
{
    if j >= s.len() || is_space(s[j]) {
        j
    } else {
        word_end(s, j + 1)
    }
}

/// The whitespace-separated words of `s` from index `i` on.
pub open spec fn words_from(s: Seq<char>, i: int) -> Seq<Seq<char>>
    decreases s.len() - i,
    when 0 <= i
{
    if i >= s.len() {
        seq![]
    } else if is_space(s[i]) {
        words_from(s, i + 1)
    } else {
        proof {
            lemma_word_end_bounds(s, i + 1);
        }
        let b = word_end(s, i + 1);
        seq![s.subrange(i, b)] + words_from(s, b)
    }
}

/// The whitespace-separated words of `s`, as `str::split_whitespace` yields them.
pub open spec fn words(s: Seq<char>) -> Seq<Seq<char>> {
    words_from(s, 0)
}

/// The words joined with a single space between neighbours.
pub open spec fn join_words(ws: Seq<Seq<char>>) -> Seq<char>
    decreases ws.len(),
{
    if ws.len() == 0 {
        seq![]
    } else if ws.len() == 1 {
        ws[0]
    } else {
        join_words(ws.drop_last()) + seq![' '] + ws.last()
    }
}

/// `pat` occurs in `s` at index `i`.
pub open spec fn occurs_at(s: Seq<char>, i: int, pat: Seq<char>) -> bool {
    0 <= i && i + pat.len() <= s.len() && s.subrange(i, i + pat.len()) == pat
}

/// `pat` occurs somewhere in `s`.
pub open spec fn has_infix(s: Seq<char>, pat: Seq<char>) -> bool {
    exists|i: int| occurs_at(s, i, pat)
}

/// `s` begins with `pat`.
pub open spec fn has_prefix(s: Seq<char>, pat: Seq<char>) -> bool {
    occurs_at(s, 0, pat)
}

pub open spec fn is_digit(c: char) -> bool {
    48 <= (c as u32) <= 57
}

pub open spec fn digit_value(c: char) -> nat {
    ((c as u32) - 48) as nat
}

/// The number that a run of decimal digits denotes.
pub open spec fn digits_value(s: Seq<char>) -> nat
    decreases s.len(),
{
    if s.len() == 0 {
        0
    } else {
        digits_value(s.drop_last()) * 10 + digit_value(s.last())
    }
}

pub open spec fn all_digits(s: Seq<char>) -> bool {
    forall|i: int| 0 <= i < s.len() ==> is_digit(#[trigger] s[i])
}

/// `s` without one leading `+`, the sign that unsigned parsing accepts.
pub open spec fn unsigned_digits(s: Seq<char>) -> Seq<char> {
    if s.len() > 0 && s[0] == '+' {
        s.drop_first()
    } else {
        s
    }
}

/// `s` is accepted by base-10 parsing into a `u32`: an optional `+`, then at
/// least one digit, denoting a number no larger than `u32::MAX`.
pub open spec fn is_u32_text(s: Seq<char>) -> bool {
    let d = unsigned_digits(s);
    d.len() > 0 && all_digits(d) && digits_value(d) <= u32::MAX
}

pub proof fn lemma_word_end_bounds(s: Seq<char>, j: int)
    requires
        0 <= j,
    ensures
        j <= word_end(s, j),
        j <= s.len() ==> word_end(s, j) <= s.len(),
    decreases s.len() - j,
{
    if j < s.len() && !is_space(s[j]) {
        lemma_word_end_bounds(s, j + 1);
    }
}

pub proof fn lemma_scan_to_bounds(s: Seq<char>, i: int, c: char)
    requires
        0 <= i <= s.len(),
    ensures
        i <= scan_to(s, i, c) <= s.len(),
        scan_to(s, i, c) < s.len() ==> s[scan_to(s, i, c)] == c,
    decreases s.len() - i,
{
    if i < s.len() && s[i] != c {
        lemma_scan_to_bounds(s, i + 1, c);
    }
}

/// A prefix of a run of digits denotes no more than the whole run.
pub proof fn lemma_digits_value_prefix(s: Seq<char>, k: int)
    requires
        0 <= k <= s.len(),
    ensures
        digits_value(s.subrange(0, k)) <= digits_value(s),
    decreases s.len(),
{
    if k < s.len() {
        assert(s.drop_last().subrange(0, k) =~= s.subrange(0, k));
        lemma_digits_value_prefix(s.drop_last(), k);
    } else {
        assert(s.subrange(0, k) =~= s);
    }
}

/// Decodes a string slice into its characters.
pub fn chars_of(s: &str) -> (r: Vec<char>)
    ensures
        r@ == s@,
{
    let mut out: Vec<char> = Vec::new();
    let mut it = s.chars();
    loop
        invariant
            it.obeys_prophetic_iter_laws(),
            out@ + it.remaining() == s@,
            it.decrease() is Some,
        ensures
            out@ == s@,
        decreases it.decrease()->0,
    {
        match it.next() {
            Some(c) => {
                out.push(c);
            },
            None => {
                assert(out@ =~= out@ + it.remaining());
                break;
            },
        }
    }
    out
}

/// Relies on `String`'s `FromIterator<char>`: collecting characters gives the
/// string of exactly those characters, in order.
#[verifier::external_body]
pub(crate) fn string_from_chars(v: &Vec<char>) -> (r: String)
    ensures
        r@ == v@,
{
    v.iter().collect::<String>()
}

/// The characters of `s` from `lo` up to `hi`.
pub fn copy_range(s: &Vec<char>, lo: usize, hi: usize) -> (r: Vec<char>)
    requires
        lo <= hi <= s.len(),
    ensures
        r@ == s@.subrange(lo as int, hi as int),
{
    let mut out: Vec<char> = Vec::new();
    let mut k: usize = lo;
    while k < hi
        invariant
            lo <= k <= hi <= s.len(),
            out@ == s@.subrange(lo as int, k as int),
        decreases hi - k,
    {
        out.push(s[k]);
        k = k + 1;
        assert(out@ =~= s@.subrange(lo as int, k as int));
    }
    out
}

/// Appends the characters of `src` to `out`.
pub fn push_all(out: &mut Vec<char>, src: &Vec<char>)
    ensures
        final(out)@ == old(out)@ + src@,
{
    let mut k: usize = 0;
    while k < src.len()
        invariant
            k <= src.len(),
            out@ == old(out)@ + src@.subrange(0, k as int),
        decreases src.len() - k,
    {
        out.push(src[k]);
        k = k + 1;
        assert(out@ =~= old(out)@ + src@.subrange(0, k as int));
    }
    assert(src@.subrange(0, src.len() as int) =~= src@);
}

/// The bounds of `trim(s[lo..hi])` within `s`.
pub fn trim_bounds(s: &Vec<char>, lo: usize, hi: usize) -> (r: (usize, usize))
    requires
        lo <= hi <= s.len(),
    ensures
        lo <= r.0 <= r.1 <= hi,
        s@.subrange(r.0 as int, r.1 as int) == trim(s@.subrange(lo as int, hi as int)),
{
    let ghost orig = s@.subrange(lo as int, hi as int);
    let mut a: usize = lo;
    while a < hi && is_space_char(s[a])
        invariant
            lo <= a <= hi <= s.len(),
            trim_start(orig) == trim_start(s@.subrange(a as int, hi as int)),
        decreases hi - a,
    {
        assert(s@.subrange(a as int, hi as int).drop_first() =~= s@.subrange(a + 1, hi as int));
        a = a + 1;
    }
    let mut b: usize = hi;
    while b > a && is_space_char(s[b - 1])
        invariant
            lo <= a <= b <= hi <= s.len(),
            trim(orig) == trim_end(s@.subrange(a as int, b as int)),
        decreases b - a,
    {
        assert(s@.subrange(a as int, b as int).drop_last() =~= s@.subrange(a as int, b - 1));
        b = b - 1;
    }
    (a, b)
}

/// `trim` of a string slice, as a character vector.
pub fn trimmed_chars(s: &str) -> (r: Vec<char>)
    ensures
        r@ == trim(s@),
{
    let all = chars_of(s);
    let (a, b) = trim_bounds(&all, 0, all.len());
    assert(all@.subrange(0, all.len() as int) =~= all@);
    copy_range(&all, a, b)
}

/// Whether `pat` occurs in `s` at index `i`.
pub fn occurs_at_exec(s: &Vec<char>, i: usize, pat: &Vec<char>) -> (r: bool)
    ensures
        r == occurs_at(s@, i as int, pat@),
{
    if i > s.len() || pat.len() > s.len() - i {
        return false;
    }
    let mut k: usize = 0;
    while k < pat.len()
        invariant
            k <= pat.len(),
            i + pat.len() <= s.len(),
            forall|m: int| 0 <= m < k ==> s@[i + m] == pat@[m],
        decreases pat.len() - k,
    {
        if s[i + k] != pat[k] {
            assert(s@.subrange(i as int, i + pat.len())[k as int] != pat@[k as int]);
            return false;
        }
        k = k + 1;
    }
    assert(s@.subrange(i as int, i + pat.len()) =~= pat@);
    true
}

/// Whether `s` begins with `pat`.
pub fn starts_with_chars(s: &Vec<char>, pat: &Vec<char>) -> (r: bool)
    ensures
        r == has_prefix(s@, pat@),
{
    occurs_at_exec(s, 0, pat)
}

/// Whether `pat` occurs anywhere in `s`.
pub fn contains_chars(s: &Vec<char>, pat: &Vec<char>) -> (r: bool)
    ensures
        r == has_infix(s@, pat@),
{
    if pat.len() > s.len() {
        return false;
    }
    let last: usize = s.len() - pat.len();
    let mut i: usize = 0;
    loop
        invariant
            last + pat.len() == s.len(),
            i <= last,
            forall|j: int| 0 <= j < i ==> !occurs_at(s@, j, pat@),
        ensures
            forall|j: int| 0 <= j <= last ==> !occurs_at(s@, j, pat@),
        decreases last - i,
    {
        if occurs_at_exec(s, i, pat) {
            return true;
        }
        if i == last {
            break;
        }
        i = i + 1;
    }
    assert forall|j: int| !occurs_at(s@, j, pat@) by {
        if 0 <= j <= last {
            assert(!occurs_at(s@, j, pat@));
        }
    }
    false
}

/// The character sequences held by a vector of character vectors.
pub open spec fn char_seqs(v: Seq<Vec<char>>) -> Seq<Seq<char>> {
    v.map_values(|w: Vec<char>| w@)
}

/// The first index at or after `from` that holds `c`, or `s.len()`.
pub fn find_char(s: &Vec<char>, from: usize, c: char) -> (r: usize)
    requires
        from <= s.len(),
    ensures
        r == scan_to(s@, from as int, c),
        from <= r <= s.len(),
{
    let mut k: usize = from;
    while k < s.len() && s[k] != c
        invariant
            from <= k <= s.len(),
            scan_to(s@, from as int, c) == scan_to(s@, k as int, c),
        decreases s.len() - k,
    {
        k = k + 1;
    }
    k
}

/// The whitespace-separated words of `s`.
pub fn split_words(s: &Vec<char>) -> (r: Vec<Vec<char>>)
    ensures
        char_seqs(r@) == words(s@),
{
    let mut out: Vec<Vec<char>> = Vec::new();
    let mut i: usize = 0;
    while i < s.len()
        invariant
            i <= s.len(),
            char_seqs(out@) + words_from(s@, i as int) == words(s@),
        decreases s.len() - i,
    {
        if is_space_char(s[i]) {
            i = i + 1;
        } else {
            let mut j: usize = i + 1;
            while j < s.len() && !is_space_char(s[j])
                invariant
                    i < j <= s.len(),
                    word_end(s@, i + 1) == word_end(s@, j as int),
                decreases s.len() - j,
            {
                j = j + 1;
            }
            let w = copy_range(s, i, j);
            let ghost before = char_seqs(out@);
            out.push(w);
            assert(char_seqs(out@) =~= before + seq![w@]);
            assert(char_seqs(out@) + words_from(s@, j as int) =~= before + words_from(
                s@,
                i as int,
            ));
            i = j;
        }
    }
    assert(char_seqs(out@) + words_from(s@, i as int) =~= char_seqs(out@));
    out
}

/// The words `ws[from..to]` joined with single spaces.
pub fn join_range(ws: &Vec<Vec<char>>, from: usize, to: usize) -> (r: Vec<char>)
    requires
        from <= to <= ws.len(),
    ensures
        r@ == join_words(char_seqs(ws@).subrange(from as int, to as int)),
{
    let ghost all = char_seqs(ws@);
    let mut out: Vec<char> = Vec::new();
    let mut k: usize = from;
    while k < to
        invariant
            from <= k <= to <= ws.len(),
            all == char_seqs(ws@),
            out@ == join_words(all.subrange(from as int, k as int)),
        decreases to - k,
    {
        let ghost prev = out@;
        if k > from {
            out.push(' ');
        }
        push_all(&mut out, &ws[k]);
        let ghost sub = all.subrange(from as int, k + 1);
        assert(sub.drop_last() =~= all.subrange(from as int, k as int));
        assert(sub.last() == ws@[k as int]@);
        if k > from {
            assert(out@ =~= prev + seq![' '] + ws@[k as int]@);
        } else {
            assert(out@ =~= ws@[k as int]@);
        }
        k = k + 1;
    }
    out
}

/// Whether `w[lo..hi]` is accepted by base-10 parsing into a `u32`.
pub fn is_u32_range(w: &Vec<char>, lo: usize, hi: usize) -> (r: bool)
    requires
        lo <= hi <= w.len(),
    ensures
        r == is_u32_text(w@.subrange(lo as int, hi as int)),
{
    let ghost t = w@.subrange(lo as int, hi as int);
    let mut start: usize = lo;
    if lo < hi && w[lo] == '+' {
        start = lo + 1;
    }
    assert(unsigned_digits(t) =~= w@.subrange(start as int, hi as int));
    if start == hi {
        return false;
    }
    let ghost d = w@.subrange(start as int, hi as int);
    let mut acc: u64 = 0;
    let mut k: usize = start;
    while k < hi
        invariant
            start <= k <= hi <= w.len(),
            d == w@.subrange(start as int, hi as int),
            t == w@.subrange(lo as int, hi as int),
            unsigned_digits(t) == d,
            acc == digits_value(w@.subrange(start as int, k as int)),
            acc <= u32::MAX,
            forall|m: int| start <= m < k ==> is_digit(#[trigger] w@[m]),
        decreases hi - k,
    {
        let u = w[k] as u32;
        if u < 48 || u > 57 {
            assert(!is_digit(d[k - start]));
            return false;
        }
        assert(w@.subrange(start as int, k + 1).drop_last() =~= w@.subrange(
            start as int,
            k as int,
        ));
        acc = acc * 10 + (u - 48) as u64;
        k = k + 1;
        if acc > u32::MAX as u64 {
            proof {
                lemma_digits_value_prefix(d, k - start);
                assert(d.subrange(0, k - start) =~= w@.subrange(start as int, k as int));
            }
            return false;
        }
    }
    assert(w@.subrange(start as int, k as int) =~= d);
    true
}

} // verus!
