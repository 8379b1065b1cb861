//! Character-level text helpers shared by the rest of the library.
//!
//! Text is handled as `Vec<char>` inside the library, so that every operation
//! can be specified over the `Seq<char>` view of a Rust string.
use vstd::prelude::*;

verus! {

// ---------------------------------------------------------------------
// Conversions between strings and character vectors
// ---------------------------------------------------------------------

/// The characters of a string slice, in order.
pub fn chars_of(s: &str) -> (v: Vec<char>)
    ensures
        v@ == s@,
{
    let mut v: Vec<char> = Vec::new();
    for c in it: s.chars()
        invariant
            v@ == it.seq().take(it.index() as int),
    {
        v.push(c);
    }
    v
}

/// Collects a character vector into a `String` (`FromIterator<&char>` of std).
#[verifier::external_body]
pub(crate) fn string_of(v: &Vec<char>) -> (s: String)
    ensures
        s@ == v@,
{
    v.iter().collect()
}

/// Unicode lower-casing of a string, as std's `str::to_lowercase` computes it.
pub uninterp spec fn unicode_lowercase(s: Seq<char>) -> Seq<char>;

/// Whether every character of `s` is ASCII.
pub open spec fn is_ascii_text(s: Seq<char>) -> bool {
    forall|i: int| 0 <= i < s.len() ==> (s[i] as u32) < 128
}

/// `s` with the ASCII capitals A-Z made small and every other character kept.
pub open spec fn ascii_lowered(s: Seq<char>) -> Seq<char> {
    s.map_values(|c: char| ascii_lower(c))
}

/// Calls `str::to_lowercase`. The result is named `unicode_lowercase` of the
/// argument: the Unicode case tables are not restated here. Of ASCII text the
/// contract claims what the Unicode tables give there: A-Z become a-z and
/// every other character stays as it is.
#[verifier::external_body]
pub(crate) fn lowercase(s: &str) -> (r: String)
    ensures
        r@ == unicode_lowercase(s@),
        is_ascii_text(s@) ==> r@ == ascii_lowered(s@),
{
    s.to_lowercase()
}

/// Appends all characters of `src` to `out`.
pub fn push_all(out: &mut Vec<char>, src: &Vec<char>)
    ensures
        final(out)@ == old(out)@ + src@,
{
    let mut i: usize = 0;
    while i < src.len()
        invariant
            i <= src.len(),
            out@ == old(out)@ + src@.take(i as int),
        decreases src.len() - i,
    {
        out.push(src[i]);
        i = i + 1;
        assert(src@.take(i as int) =~= src@.take(i - 1) + seq![src@[i - 1]]);
    }
    assert(src@.take(src.len() as int) =~= src@);
}

/// Appends the characters of a string slice to `out`.
pub fn push_str(out: &mut Vec<char>, s: &str)
    ensures
        final(out)@ == old(out)@ + s@,
{
    let v = chars_of(s);
    push_all(out, &v);
}

// ---------------------------------------------------------------------
// ASCII case
// ---------------------------------------------------------------------

pub open spec fn ascii_lower(c: char) -> char {
    if 'A' <= c && c <= 'Z' {
        ((c as u32) + 32) as char
    } else {
        c
    }
}

pub open spec fn ascii_upper(c: char) -> char {
    if 'a' <= c && c <= 'z' {
        ((c as u32) - 32) as char
    } else {
        c
    }
}

/// `char::to_ascii_lowercase`.
pub fn to_ascii_lower(c: char) -> (r: char)
    ensures
        r == ascii_lower(c),
{
    if 'A' <= c && c <= 'Z' {
        let b: u8 = c as u8;
        (b + 32) as char
    } else {
        c
    }
}

/// `char::to_ascii_uppercase`.
pub fn to_ascii_upper(c: char) -> (r: char)
    ensures
        r == ascii_upper(c),
{
    if 'a' <= c && c <= 'z' {
        let b: u8 = c as u8;
        (b - 32) as char
    } else {
        c
    }
}

/// Equality of two texts when ASCII letters are compared without case.
pub open spec fn eq_ignore_ascii_case(a: Seq<char>, b: Seq<char>) -> bool {
    &&& a.len() == b.len()
    &&& forall|i: int| 0 <= i < a.len() ==> ascii_lower(#[trigger] a[i]) == ascii_lower(b[i])
}

pub fn chars_eq_ignore_ascii_case(a: &Vec<char>, b: &Vec<char>) -> (r: bool)
    ensures
        r == eq_ignore_ascii_case(a@, b@),
{
    if a.len() != b.len() {
        return false;
    }
    let mut i: usize = 0;
    while i < a.len()
        invariant
            a.len() == b.len(),
            i <= a.len(),
            forall|k: int| 0 <= k < i ==> ascii_lower(#[trigger] a@[k]) == ascii_lower(b@[k]),
        decreases a.len() - i,
    {
        if to_ascii_lower(a[i]) != to_ascii_lower(b[i]) {
            return false;
        }
        i = i + 1;
    }
    true
}

// ---------------------------------------------------------------------
// White space and trimming (std's `char::is_whitespace` and `str::trim`)
// ---------------------------------------------------------------------

/// The Unicode `White_Space` characters, which `char::is_whitespace` accepts.
pub open spec fn is_space(c: char) -> bool {
    ||| '\t' <= c && c <= '\r'
    ||| c == ' '
    ||| c == '\u{85}'
    ||| c == '\u{a0}'
    ||| c == '\u{1680}'
    ||| '\u{2000}' <= c && c <= '\u{200a}'
    ||| c == '\u{2028}'
    ||| c == '\u{2029}'
    ||| c == '\u{202f}'
    ||| c == '\u{205f}'
    ||| c == '\u{3000}'
}

pub fn is_space_char(c: char) -> (r: bool)
    ensures
        r == is_space(c),
{
    ('\t' <= c && c <= '\r') || c == ' ' || c == '\u{85}' || c == '\u{a0}' || c == '\u{1680}'
        || ('\u{2000}' <= c && c <= '\u{200a}') || c == '\u{2028}' || c == '\u{2029}' || c
        == '\u{202f}' || c == '\u{205f}' || c == '\u{3000}'
}

pub open spec fn trim_start(s: Seq<char>) -> Seq<char>
    decreases s.len(),
{
    if s.len() > 0 && is_space(s[0]) {
        trim_start(s.drop_first())
    } else {
        s
    }
}

pub open spec fn trim_end(s: Seq<char>) -> Seq<char>
    decreases s.len(),
{
    if s.len() > 0 && is_space(s.last()) {
        trim_end(s.drop_last())
    } else {
        s
    }
}

/// The text without its leading and trailing white space.
pub open spec fn trimmed(s: Seq<char>) -> Seq<char> {
    trim_end(trim_start(s))
}

proof fn lemma_trim_start_ascii(s: Seq<char>)
    requires
        is_ascii_text(s),
    ensures
        is_ascii_text(trim_start(s)),
    decreases s.len(),
{
    if s.len() > 0 && is_space(s[0]) {
        assert(is_ascii_text(s.drop_first())) by {
            assert forall|i: int| 0 <= i < s.drop_first().len() implies (s.drop_first()[i] as u32) < 128 by {
                assert(s.drop_first()[i] == s[i + 1]);
            }
        }
        lemma_trim_start_ascii(s.drop_first());
    }
}

proof fn lemma_trim_end_ascii(s: Seq<char>)
    requires
        is_ascii_text(s),
    ensures
        is_ascii_text(trim_end(s)),
    decreases s.len(),
{
    if s.len() > 0 && is_space(s.last()) {
        assert(is_ascii_text(s.drop_last())) by {
            assert forall|i: int| 0 <= i < s.drop_last().len() implies (s.drop_last()[i] as u32) < 128 by {
                assert(s.drop_last()[i] == s[i]);
            }
        }
        lemma_trim_end_ascii(s.drop_last());
    }
}

/// Trimming ASCII text leaves ASCII text.
pub proof fn lemma_trimmed_ascii(s: Seq<char>)
    requires
        is_ascii_text(s),
    ensures
        is_ascii_text(trimmed(s)),
{
    lemma_trim_start_ascii(s);
    lemma_trim_end_ascii(trim_start(s));
}

/// `str::trim` on a character vector.
pub fn trim(v: &Vec<char>) -> (r: Vec<char>)
    ensures
        r@ == trimmed(v@),
{
    let n = v.len();
    let mut i: usize = 0;
    assert(v@.skip(0) =~= v@);
    while i < n && is_space_char(v[i])
        invariant
            n == v.len(),
            i <= n,
            trim_start(v@.skip(i as int)) == trim_start(v@),
        decreases n - i,
    {
        assert(v@.skip(i as int).drop_first() =~= v@.skip(i + 1));
        i = i + 1;
    }
    assert(trim_start(v@) == v@.skip(i as int));
    let mut j: usize = n;
    while j > i && is_space_char(v[j - 1])
        invariant
            n == v.len(),
            i <= j <= n,
            trim_end(v@.subrange(i as int, j as int)) == trim_end(v@.skip(i as int)),
        decreases j,
    {
        assert(v@.subrange(i as int, j as int).drop_last() =~= v@.subrange(i as int, j - 1));
        j = j - 1;
    }
    assert(v@.skip(i as int) =~= v@.subrange(i as int, n as int));
    let mut r: Vec<char> = Vec::new();
    let mut k: usize = i;
    while k < j
        invariant
            i <= k <= j <= n,
            n == v.len(),
            r@ == v@.subrange(i as int, k as int),
        decreases j - k,
    {
        r.push(v[k]);
        k = k + 1;
        assert(r@ =~= v@.subrange(i as int, k as int));
    }
    r
}

// ---------------------------------------------------------------------
// Replacement of every occurrence (std's `str::replace`)
// ---------------------------------------------------------------------

/// `s` with every occurrence of `pat` replaced by `rep`, scanning from the
/// left and never letting two replaced occurrences overlap; an empty pattern
/// matches before every character and at the end.
pub open spec fn replaced(s: Seq<char>, pat: Seq<char>, rep: Seq<char>) -> Seq<char>
    decreases s.len(),
{
    if pat.len() == 0 {
        if s.len() == 0 {
            rep
        } else {
            rep + seq![s[0]] + replaced(s.drop_first(), pat, rep)
        }
    } else if s.len() == 0 {
        s
    } else if pat.is_prefix_of(s) {
        rep + replaced(s.skip(pat.len() as int), pat, rep)
    } else {
        seq![s[0]] + replaced(s.drop_first(), pat, rep)
    }
}

/// Whether `p` occurs somewhere in `s`.
pub open spec fn contains_text(s: Seq<char>, p: Seq<char>) -> bool {
    exists|i: int| 0 <= i <= s.len() && p.is_prefix_of(#[trigger] s.skip(i))
}

/// No character of `a` is a character of `b`.
pub open spec fn disjoint_chars(a: Seq<char>, b: Seq<char>) -> bool {
    forall|i: int, j: int| #![trigger a[i], b[j]] 0 <= i < a.len() && 0 <= j < b.len() ==> a[i] != b[j]
}

/// Output of `replaced` that holds no character of the replacement was
/// copied unchanged from the input.
proof fn lemma_replaced_copied_prefix(s: Seq<char>, pat: Seq<char>, rep: Seq<char>, k: int)
    requires
        pat.len() > 0,
        rep.len() > 0,
        0 <= k <= replaced(s, pat, rep).len(),
        disjoint_chars(replaced(s, pat, rep).take(k), rep),
    ensures
        k <= s.len(),
        replaced(s, pat, rep).take(k) == s.take(k),
    decreases s.len(),
{
    let r = replaced(s, pat, rep);
    if k == 0 {
        assert(r.take(0) =~= s.take(0));
    } else if s.len() == 0 {
    } else if pat.is_prefix_of(s) {
        assert(r[0] == rep[0]);
        assert(r.take(k)[0] == rep[0]);
    } else {
        let r1 = replaced(s.drop_first(), pat, rep);
        assert(r == seq![s[0]] + r1);
        assert(disjoint_chars(r1.take(k - 1), rep)) by {
            assert forall|i: int, j: int| #![trigger r1.take(k - 1)[i], rep[j]] 0 <= i < r1.take(k - 1).len() && 0 <= j < rep.len() implies r1.take(k - 1)[i] != rep[j] by {
                assert(r1.take(k - 1)[i] == r.take(k)[i + 1]);
            }
        }
        lemma_replaced_copied_prefix(s.drop_first(), pat, rep, k - 1);
        assert(r.take(k) =~= seq![s[0]] + r1.take(k - 1));
        assert(s.take(k) =~= seq![s[0]] + s.drop_first().take(k - 1));
    }
}

/// Replacing with a text that shares no character with `p` leaves no
/// occurrence of `p`, when `p` is what is replaced or did not occur before.
pub proof fn lemma_replaced_leaves_none(s: Seq<char>, pat: Seq<char>, rep: Seq<char>, p: Seq<char>)
    requires
        pat.len() > 0,
        rep.len() > 0,
        p.len() > 0,
        disjoint_chars(rep, p),
        pat == p || !contains_text(s, p),
    ensures
        !contains_text(replaced(s, pat, rep), p),
    decreases s.len(),
{
    let r = replaced(s, pat, rep);
    if s.len() == 0 {
        assert forall|i: int| 0 <= i <= r.len() implies !p.is_prefix_of(#[trigger] r.skip(i)) by {}
    } else if pat.is_prefix_of(s) {
        let t = s.skip(pat.len() as int);
        if pat != p {
            assert forall|i: int| 0 <= i <= t.len() implies !p.is_prefix_of(#[trigger] t.skip(i)) by {
                assert(t.skip(i) =~= s.skip(i + pat.len()));
            }
        }
        lemma_replaced_leaves_none(t, pat, rep, p);
        let r2 = replaced(t, pat, rep);
        assert(r == rep + r2);
        assert forall|i: int| 0 <= i <= r.len() implies !p.is_prefix_of(#[trigger] r.skip(i)) by {
            if i < rep.len() {
                if p.is_prefix_of(r.skip(i)) {
                    assert(r.skip(i)[0] == rep[i]);
                    assert(p[0] == rep[i]);
                }
            } else {
                assert(r.skip(i) =~= r2.skip(i - rep.len()));
            }
        }
    } else {
        let t = s.drop_first();
        if pat != p {
            assert forall|i: int| 0 <= i <= t.len() implies !p.is_prefix_of(#[trigger] t.skip(i)) by {
                assert(t.skip(i) =~= s.skip(i + 1));
            }
        }
        lemma_replaced_leaves_none(t, pat, rep, p);
        let r1 = replaced(t, pat, rep);
        assert(r == seq![s[0]] + r1);
        assert forall|i: int| 0 <= i <= r.len() implies !p.is_prefix_of(#[trigger] r.skip(i)) by {
            if i >= 1 {
                assert(r.skip(i) =~= r1.skip(i - 1));
            } else if p.is_prefix_of(r.skip(i)) {
                let k = p.len() - 1;
                assert(r.skip(0) =~= r);
                assert(disjoint_chars(r1.take(k), rep)) by {
                    assert forall|a: int, b: int| #![trigger r1.take(k)[a], rep[b]] 0 <= a < r1.take(k).len() && 0 <= b < rep.len() implies r1.take(k)[a] != rep[b] by {
                        assert(r1.take(k)[a] == r[a + 1]);
                        assert(r[a + 1] == p[a + 1]);
                    }
                }
                lemma_replaced_copied_prefix(t, pat, rep, k);
                assert(p =~= s.take(p.len() as int)) by {
                    assert forall|a: int| 0 <= a < p.len() implies p[a] == s[a] by {
                        if a > 0 {
                            assert(r1.take(k)[a - 1] == t.take(k)[a - 1]);
                        }
                    }
                }
                assert(p.is_prefix_of(s));
                assert(s.skip(0) =~= s);
            }
        }
    }
}

/// Whether `pat` occurs in `s` at position `i`.
pub fn occurs_at(s: &Vec<char>, i: usize, pat: &Vec<char>) -> (r: bool)
    requires
        i <= s.len(),
    ensures
        r == pat@.is_prefix_of(s@.skip(i as int)),
{
    if pat.len() > s.len() - i {
        return false;
    }
    let mut k: usize = 0;
    while k < pat.len()
        invariant
            k <= pat.len(),
            i + pat.len() <= s.len(),
            forall|t: int| 0 <= t < k ==> pat@[t] == s@[i + t],
        decreases pat.len() - k,
    {
        if pat[k] != s[i + k] {
            return false;
        }
        k = k + 1;
    }
    true
}

/// `str::replace` on character vectors.
pub fn replace_chars(s: &Vec<char>, pat: &Vec<char>, rep: &Vec<char>) -> (r: Vec<char>)
    ensures
        r@ == replaced(s@, pat@, rep@),
{
    let n = s.len();
    let mut out: Vec<char> = Vec::new();
    let mut i: usize = 0;
    assert(s@.skip(0) =~= s@);
    if pat.len() == 0 {
        while i < n
            invariant
                n == s.len(),
                i <= n,
                pat@.len() == 0,
                out@ + replaced(s@.skip(i as int), pat@, rep@) == replaced(s@, pat@, rep@),
            decreases n - i,
        {
            assert(s@.skip(i as int).drop_first() =~= s@.skip(i + 1));
            push_all(&mut out, rep);
            out.push(s[i]);
            i = i + 1;
            assert(out@ + replaced(s@.skip(i as int), pat@, rep@) =~= replaced(s@, pat@, rep@));
        }
        push_all(&mut out, rep);
        assert(s@.skip(n as int).len() == 0);
        assert(out@ =~= replaced(s@, pat@, rep@));
    } else {
        while i < n
            invariant
                n == s.len(),
                i <= n,
                pat@.len() > 0,
                out@ + replaced(s@.skip(i as int), pat@, rep@) == replaced(s@, pat@, rep@),
            decreases n - i,
        {
            if occurs_at(s, i, pat) {
                assert(s@.skip(i as int).skip(pat@.len() as int) =~= s@.skip(i + pat@.len()));
                push_all(&mut out, rep);
                i = i + pat.len();
            } else {
                assert(s@.skip(i as int).drop_first() =~= s@.skip(i + 1));
                out.push(s[i]);
                i = i + 1;
            }
            assert(out@ + replaced(s@.skip(i as int), pat@, rep@) =~= replaced(s@, pat@, rep@));
        }
        assert(s@.skip(n as int).len() == 0);
        assert(out@ =~= replaced(s@, pat@, rep@));
    }
    out
}

/// Replaces every occurrence of the literal `pat` by `rep` in `s`.
pub fn replace_str(s: &Vec<char>, pat: &str, rep: &str) -> (r: Vec<char>)
    ensures
        r@ == replaced(s@, pat@, rep@),
{
    let p = chars_of(pat);
    let q = chars_of(rep);
    replace_chars(s, &p, &q)
}

// ---------------------------------------------------------------------
// Decimal numbers (std's `Display` for integers)
// ---------------------------------------------------------------------

pub open spec fn digit_char(d: nat) -> char {
    (('0' as nat) + d) as char
}

/// The decimal digits of `n`, most significant first.
pub open spec fn decimal(n: nat) -> Seq<char>
    decreases n,
{
    if n < 10 {
        seq![digit_char(n)]
    } else {
        decimal(n / 10).push(digit_char(n % 10))
    }
}

/// The decimal text of an integer, with a leading '-' when negative.
pub open spec fn int_text(i: int) -> Seq<char> {
    if i < 0 {
        seq!['-'] + decimal((-i) as nat)
    } else {
        decimal(i as nat)
    }
}

/// Appends the decimal digits of `n` to `out`.
pub fn push_decimal(out: &mut Vec<char>, n: u64)
    ensures
        final(out)@ == old(out)@ + decimal(n as nat),
    decreases n,
{
    if n >= 10 {
        push_decimal(out, n / 10);
    }
    let d: u8 = (n % 10) as u8;
    out.push(('0' as u8 + d) as char);
}

/// Appends the decimal text of `i` to `out`.
pub fn push_int(out: &mut Vec<char>, i: i64)
    ensures
        final(out)@ == old(out)@ + int_text(i as int),
{
    if i < 0 {
        out.push('-');
        let m: u64 = if i == i64::MIN {
            9223372036854775808u64
        } else {
            (-i) as u64
        };
        push_decimal(out, m);
    } else {
        push_decimal(out, i as u64);
    }
}

// ---------------------------------------------------------------------
// Joining
// ---------------------------------------------------------------------

/// The texts of `parts` with `sep` between each two neighbours.
pub open spec fn joined(parts: Seq<Seq<char>>, sep: Seq<char>) -> Seq<char>
    decreases parts.len(),
{
    if parts.len() == 0 {
        Seq::empty()
    } else if parts.len() == 1 {
        parts[0]
    } else {
        joined(parts.drop_last(), sep) + sep + parts.last()
    }
}

pub proof fn lemma_joined_push(parts: Seq<Seq<char>>, sep: Seq<char>, x: Seq<char>)
    ensures
        joined(parts.push(x), sep) == if parts.len() == 0 {
            x
        } else {
            joined(parts, sep) + sep + x
        },
{
    assert(parts.push(x).drop_last() =~= parts);
}


// ---------------------------------------------------------------------
// Comparison and search
// ---------------------------------------------------------------------

/// Whether two character vectors hold the same text.
pub fn chars_equal(a: &Vec<char>, b: &Vec<char>) -> (r: bool)
    ensures
        r == (a@ == b@),
{
    if a.len() != b.len() {
        return false;
    }
    let mut i: usize = 0;
    while i < a.len()
        invariant
            a.len() == b.len(),
            i <= a.len(),
            forall|k: int| 0 <= k < i ==> a@[k] == b@[k],
        decreases a.len() - i,
    {
        if a[i] != b[i] {
            return false;
        }
        i = i + 1;
    }
    assert(a@ =~= b@);
    true
}

/// Whether `v` holds the same text as the literal `s`.
pub fn chars_equal_str(v: &Vec<char>, s: &str) -> (r: bool)
    ensures
        r == (v@ == s@),
{
    let w = chars_of(s);
    chars_equal(v, &w)
}

/// The first position at or after `i` where `pat` occurs in `s` (std's `str::find`
/// when `i` is 0).
pub open spec fn find_from(s: Seq<char>, pat: Seq<char>, i: int) -> Option<int>
    decreases s.len() + 1 - i,
{
    if i < 0 || i > s.len() {
        None
    } else if pat.is_prefix_of(s.skip(i)) {
        Some(i)
    } else {
        find_from(s, pat, i + 1)
    }
}

pub proof fn lemma_find_from(s: Seq<char>, pat: Seq<char>, i: int)
    ensures
        find_from(s, pat, i) matches Some(k) ==> i <= k <= s.len() && pat.is_prefix_of(s.skip(k)),
    decreases s.len() + 1 - i,
{
    if 0 <= i <= s.len() && !pat.is_prefix_of(s.skip(i)) {
        lemma_find_from(s, pat, i + 1);
    }
}

pub fn find_chars(s: &Vec<char>, pat: &Vec<char>) -> (r: Option<usize>)
    ensures
        r matches Some(k) ==> find_from(s@, pat@, 0) == Some(k as int) && k <= s.len()
            && pat@.is_prefix_of(s@.skip(k as int)),
        r is None ==> find_from(s@, pat@, 0) is None,
{
    let n = s.len();
    let mut i: usize = 0;
    while i < n
        invariant
            n == s.len(),
            i <= n,
            find_from(s@, pat@, i as int) == find_from(s@, pat@, 0),
        decreases n - i,
    {
        if occurs_at(s, i, pat) {
            proof {
                lemma_find_from(s@, pat@, 0);
            }
            return Some(i);
        }
        i = i + 1;
    }
    if occurs_at(s, n, pat) {
        proof {
            lemma_find_from(s@, pat@, 0);
        }
        return Some(n);
    }
    assert(find_from(s@, pat@, n + 1) is None);
    None
}

/// The characters of `s` from `from` up to (not including) `to`.
pub fn slice_chars(s: &Vec<char>, from: usize, to: usize) -> (r: Vec<char>)
    requires
        from <= to <= s.len(),
    ensures
        r@ == s@.subrange(from as int, to as int),
{
    let mut r: Vec<char> = Vec::new();
    let mut k: usize = from;
    while k < to
        invariant
            from <= k <= to <= s.len(),
            r@ == s@.subrange(from as int, k as int),
        decreases to - k,
    {
        r.push(s[k]);
        k = k + 1;
        assert(r@ =~= s@.subrange(from as int, k as int));
    }
    r
}

/// A character vector's deep view is its view.
pub broadcast proof fn lemma_chars_deep_view(v: Vec<char>)
    ensures
        #[trigger] v.deep_view() == v@,
{
    assert(v.deep_view() =~= v@);
}

/// Replacing every occurrence of a one-character pattern by nothing leaves
/// no such character.
pub proof fn lemma_replaced_removes(s: Seq<char>, c: char)
    ensures
        !replaced(s, seq![c], Seq::empty()).contains(c),
    decreases s.len(),
{
    if s.len() > 0 {
        lemma_replaced_removes(s.drop_first(), c);
        if seq![c].is_prefix_of(s) {
            assert(s.skip(1) =~= s.drop_first());
            assert(replaced(s, seq![c], Seq::empty()) =~= replaced(s.drop_first(), seq![c], Seq::empty()));
        } else {
            assert(s[0] != c);
            let r = replaced(s, seq![c], Seq::empty());
            let rest = replaced(s.drop_first(), seq![c], Seq::empty());
            assert(r =~= seq![s[0]] + rest);
            if r.contains(c) {
                let k = choose|k: int| 0 <= k < r.len() && r[k] == c;
                assert(rest[k - 1] == c);
            }
        }
    }
}

/// Whether `s` holds no ASCII capital letter.
pub open spec fn no_capitals(s: Seq<char>) -> bool {
    forall|i: int| 0 <= i < s.len() ==> !('A' <= #[trigger] s[i] && s[i] <= 'Z')
}

/// ASCII lower-casing leaves no capital letter.
pub proof fn lemma_ascii_lowered_no_capitals(s: Seq<char>)
    ensures
        no_capitals(ascii_lowered(s)),
{
    assert forall|i: int| 0 <= i < ascii_lowered(s).len() implies !('A' <= #[trigger] ascii_lowered(s)[i]
        && ascii_lowered(s)[i] <= 'Z') by {
        let c = s[i];
        if 'A' <= c && c <= 'Z' {
            assert((c as u32) + 32 >= 97);
        }
    }
}

/// Replacing by a text without capitals in a text without capitals leaves none.
pub proof fn lemma_replaced_no_capitals(s: Seq<char>, pat: Seq<char>, rep: Seq<char>)
    requires
        no_capitals(s),
        no_capitals(rep),
    ensures
        no_capitals(replaced(s, pat, rep)),
    decreases s.len(),
{
    if s.len() > 0 {
        assert(no_capitals(s.drop_first())) by {
            assert forall|i: int| 0 <= i < s.drop_first().len() implies !('A' <= #[trigger] s.drop_first()[i]
                && s.drop_first()[i] <= 'Z') by {
                assert(s.drop_first()[i] == s[i + 1]);
            }
        }
        lemma_replaced_no_capitals(s.drop_first(), pat, rep);
        let r = replaced(s, pat, rep);
        if pat.len() == 0 {
            let rest = replaced(s.drop_first(), pat, rep);
            assert(r == rep + seq![s[0]] + rest);
            assert forall|i: int| 0 <= i < r.len() implies !('A' <= #[trigger] r[i] && r[i] <= 'Z') by {
                if i < rep.len() {
                    assert(r[i] == rep[i]);
                } else if i == rep.len() {
                    assert(r[i] == s[0]);
                } else {
                    assert(r[i] == rest[i - rep.len() - 1]);
                }
            }
        } else if pat.is_prefix_of(s) {
            let t = s.skip(pat.len() as int);
            assert(no_capitals(t)) by {
                assert forall|i: int| 0 <= i < t.len() implies !('A' <= #[trigger] t[i] && t[i] <= 'Z') by {
                    assert(t[i] == s[i + pat.len()]);
                }
            }
            lemma_replaced_no_capitals(t, pat, rep);
            let rest = replaced(t, pat, rep);
            assert(r == rep + rest);
            assert forall|i: int| 0 <= i < r.len() implies !('A' <= #[trigger] r[i] && r[i] <= 'Z') by {
                if i < rep.len() {
                    assert(r[i] == rep[i]);
                } else {
                    assert(r[i] == rest[i - rep.len()]);
                }
            }
        } else {
            let rest = replaced(s.drop_first(), pat, rep);
            assert(r == seq![s[0]] + rest);
            assert forall|i: int| 0 <= i < r.len() implies !('A' <= #[trigger] r[i] && r[i] <= 'Z') by {
                if i == 0 {
                    assert(r[i] == s[0]);
                } else {
                    assert(r[i] == rest[i - 1]);
                }
            }
        }
    } else {
        if pat.len() == 0 {
            assert(replaced(s, pat, rep) == rep);
        }
    }
}

} // verus!
