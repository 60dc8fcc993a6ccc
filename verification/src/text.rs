//! Character-level text helpers shared by the parsers and validators of the
//! library. Every helper works on the `Seq<char>` view of a string and is
//! specified by a short spec function.
use vstd::prelude::*;

verus! {

/// Unicode `White_Space` code points, the set that `char::is_whitespace` tests.
pub open spec fn is_ws(c: char) -> bool {
    let n = c as int;
    (9 <= n <= 13) || n == 32 || n == 0x85 || n == 0xA0 || n == 0x1680 || (0x2000 <= n
        <= 0x200A) || n == 0x2028 || n == 0x2029 || n == 0x202F || n == 0x205F || n == 0x3000
}

/// The general category `Cc`, the set that `char::is_control` tests.
pub open spec fn is_ctrl(c: char) -> bool {
    let n = c as int;
    n <= 0x1F || (0x7F <= n <= 0x9F)
}

/// ASCII decimal digit.
pub open spec fn is_digit(c: char) -> bool {
    '0' <= c && c <= '9'
}

pub fn char_is_whitespace(c: char) -> (r: bool)
    ensures
        r == is_ws(c),
{
    let n = c as u32;
    (9 <= n && n <= 13) || n == 32 || n == 0x85 || n == 0xA0 || n == 0x1680 || (0x2000 <= n && n
        <= 0x200A) || n == 0x2028 || n == 0x2029 || n == 0x202F || n == 0x205F || n == 0x3000
}

pub fn char_is_control(c: char) -> (r: bool)
    ensures
        r == is_ctrl(c),
{
    let n = c as u32;
    n <= 0x1F || (0x7F <= n && n <= 0x9F)
}

/// `s` with leading white space removed.
pub open spec fn trim_start(s: Seq<char>) -> Seq<char>
    decreases s.len(),
{
    if s.len() > 0 && is_ws(s[0]) {
        trim_start(s.drop_first())
    } else {
        s
    }
}

/// `s` with trailing white space removed.
pub open spec fn trim_end(s: Seq<char>) -> Seq<char>
    decreases s.len(),
{
    if s.len() > 0 && is_ws(s.last()) {
        trim_end(s.drop_last())
    } else {
        s
    }
}

/// `s` with white space removed from both ends, as `str::trim` does.
pub open spec fn trim(s: Seq<char>) -> Seq<char> {
    trim_end(trim_start(s))
}

/// `s` contains a control character.
pub open spec fn has_ctrl(s: Seq<char>) -> bool {
    exists|i: int| 0 <= i < s.len() && is_ctrl(#[trigger] s[i])
}

/// The view of an optional string.
pub open spec fn opt_view(o: Option<String>) -> Option<Seq<char>> {
    match o {
        Some(s) => Some(s@),
        None => None,
    }
}

/// Appends one character to a string (`String::push`).
#[verifier::external_body]
pub(crate) fn push_char(s: &mut String, c: char)
    ensures
        final(s)@ == old(s)@.push(c),
{
    s.push(c);
}

/// The characters of `s`, in order.
pub fn to_chars(s: &str) -> (v: Vec<char>)
    ensures
        v@ == s@,
{
    let n = s.unicode_len();
    let mut v: Vec<char> = Vec::new();
    let mut i: usize = 0;
    while i < n
        invariant
            n == s@.len(),
            i <= n,
            v@ == s@.subrange(0, i as int),
        decreases n - i,
    {
        let c = s.get_char(i);
        v.push(c);
        i = i + 1;
        assert(v@ =~= s@.subrange(0, i as int));
    }
    assert(v@ =~= s@);
    v
}

/// The string made of `v[lo..hi]`.
pub fn string_of(v: &[char], lo: usize, hi: usize) -> (s: String)
    requires
        lo <= hi <= v@.len(),
    ensures
        s@ == v@.subrange(lo as int, hi as int),
{
    let mut s = String::new();
    let mut i = lo;
    while i < hi
        invariant
            lo <= i <= hi <= v@.len(),
            s@ == v@.subrange(lo as int, i as int),
        decreases hi - i,
    {
        push_char(&mut s, v[i]);
        i = i + 1;
        assert(s@ =~= v@.subrange(lo as int, i as int));
    }
    s
}

/// Appends `v[lo..hi]` to `s`.
pub fn push_chars(s: &mut String, v: &[char], lo: usize, hi: usize)
    requires
        lo <= hi <= v@.len(),
    ensures
        final(s)@ == old(s)@ + v@.subrange(lo as int, hi as int),
{
    let mut i = lo;
    while i < hi
        invariant
            lo <= i <= hi <= v@.len(),
            s@ == old(s)@ + v@.subrange(lo as int, i as int),
        decreases hi - i,
    {
        push_char(s, v[i]);
        i = i + 1;
        assert(s@ =~= old(s)@ + v@.subrange(lo as int, i as int));
    }
}

/// Appends the characters of `t` to `s`.
pub fn push_str(s: &mut String, t: &str)
    ensures
        final(s)@ == old(s)@ + t@,
{
    let v = to_chars(t);
    push_chars(s, v.as_slice(), 0, v.len());
    assert(v@.subrange(0, v@.len() as int) =~= t@);
}

pub proof fn lemma_trim_start_skip(s: Seq<char>, i: int)
    requires
        0 <= i < s.len(),
        is_ws(s[i]),
    ensures
        trim_start(s.subrange(i, s.len() as int)) == trim_start(s.subrange(i + 1, s.len() as int)),
{
    let t = s.subrange(i, s.len() as int);
    assert(t.drop_first() =~= s.subrange(i + 1, s.len() as int));
}

pub proof fn lemma_trim_end_skip(s: Seq<char>, j: int)
    requires
        0 < j <= s.len(),
        is_ws(s[j - 1]),
    ensures
        trim_end(s.subrange(0, j)) == trim_end(s.subrange(0, j - 1)),
{
    let t = s.subrange(0, j);
    assert(t.drop_last() =~= s.subrange(0, j - 1));
}

/// Index of the first non-white-space character of `v[lo..hi]` (or `hi`).
pub fn skip_ws_forward(v: &[char], lo: usize, hi: usize) -> (r: usize)
    requires
        lo <= hi <= v@.len(),
    ensures
        lo <= r <= hi,
        trim_start(v@.subrange(lo as int, hi as int)) == v@.subrange(r as int, hi as int),
        r < hi ==> !is_ws(v@[r as int]),
{
    let mut i = lo;
    while i < hi && char_is_whitespace(v[i])
        invariant
            lo <= i <= hi <= v@.len(),
            trim_start(v@.subrange(lo as int, hi as int)) == trim_start(
                v@.subrange(i as int, hi as int),
            ),
        decreases hi - i,
    {
        proof {
            let w = v@.subrange(0, hi as int);
            lemma_trim_start_skip(w, i as int);
            assert(w.subrange(i as int, hi as int) =~= v@.subrange(i as int, hi as int));
            assert(w.subrange(i + 1, hi as int) =~= v@.subrange(i + 1, hi as int));
        }
        i = i + 1;
    }
    proof {
        let t = v@.subrange(i as int, hi as int);
        if t.len() > 0 {
            assert(t[0] == v@[i as int]);
        }
    }
    i
}

/// One past the last non-white-space character of `v[lo..hi]` (or `lo`).
pub fn skip_ws_backward(v: &[char], lo: usize, hi: usize) -> (r: usize)
    requires
        lo <= hi <= v@.len(),
    ensures
        lo <= r <= hi,
        trim_end(v@.subrange(lo as int, hi as int)) == v@.subrange(lo as int, r as int),
        r > lo ==> !is_ws(v@[r - 1]),
{
    let mut j = hi;
    while j > lo && char_is_whitespace(v[j - 1])
        invariant
            lo <= j <= hi <= v@.len(),
            trim_end(v@.subrange(lo as int, hi as int)) == trim_end(
                v@.subrange(lo as int, j as int),
            ),
        decreases j - lo,
    {
        proof {
            let w = v@.subrange(lo as int, v@.len() as int);
            lemma_trim_end_skip(w, j - lo);
            assert(w.subrange(0, j - lo) =~= v@.subrange(lo as int, j as int));
            assert(w.subrange(0, j - lo - 1) =~= v@.subrange(lo as int, j - 1));
        }
        j = j - 1;
    }
    proof {
        let t = v@.subrange(lo as int, j as int);
        if t.len() > 0 {
            assert(t.last() == v@[j - 1]);
        }
    }
    j
}

/// The bounds `[a, b)` of `trim(v[lo..hi])` inside `v`.
pub fn trim_bounds(v: &[char], lo: usize, hi: usize) -> (r: (usize, usize))
    requires
        lo <= hi <= v@.len(),
    ensures
        lo <= r.0 <= r.1 <= hi,
        trim(v@.subrange(lo as int, hi as int)) == v@.subrange(r.0 as int, r.1 as int),
{
    let a = skip_ws_forward(v, lo, hi);
    let b = skip_ws_backward(v, a, hi);
    (a, b)
}

/// `str::trim`, producing an owned string.
pub fn trim_string(s: &str) -> (r: String)
    ensures
        r@ == trim(s@),
{
    let v = to_chars(s);
    let (a, b) = trim_bounds(v.as_slice(), 0, v.len());
    assert(v@.subrange(0, v@.len() as int) =~= s@);
    string_of(v.as_slice(), a, b)
}

/// The string contains a control character.
pub fn chars_have_control(v: &[char], lo: usize, hi: usize) -> (r: bool)
    requires
        lo <= hi <= v@.len(),
    ensures
        r == has_ctrl(v@.subrange(lo as int, hi as int)),
{
    let mut i = lo;
    while i < hi
        invariant
            lo <= i <= hi <= v@.len(),
            forall|k: int| lo <= k < i ==> !is_ctrl(#[trigger] v@[k]),
        decreases hi - i,
    {
        if char_is_control(v[i]) {
            assert(v@.subrange(lo as int, hi as int)[i - lo] == v@[i as int]);
            return true;
        }
        i = i + 1;
    }
    assert forall|k: int| 0 <= k < hi - lo implies !is_ctrl(
        #[trigger] v@.subrange(lo as int, hi as int)[k],
    ) by {
        assert(v@.subrange(lo as int, hi as int)[k] == v@[lo + k]);
    }
    false
}

/// Two character ranges hold the same characters.
pub fn chars_eq(a: &[char], alo: usize, ahi: usize, b: &[char], blo: usize, bhi: usize) -> (r: bool)
    requires
        alo <= ahi <= a@.len(),
        blo <= bhi <= b@.len(),
    ensures
        r == (a@.subrange(alo as int, ahi as int) == b@.subrange(blo as int, bhi as int)),
{
    if ahi - alo != bhi - blo {
        proof {
            assert(a@.subrange(alo as int, ahi as int).len() != b@.subrange(
                blo as int,
                bhi as int,
            ).len());
        }
        return false;
    }
    let n = ahi - alo;
    let ghost sa = a@.subrange(alo as int, ahi as int);
    let ghost sb = b@.subrange(blo as int, bhi as int);
    let mut i: usize = 0;
    while i < n
        invariant
            n == ahi - alo,
            n == bhi - blo,
            alo <= ahi <= a@.len(),
            blo <= bhi <= b@.len(),
            sa == a@.subrange(alo as int, ahi as int),
            sb == b@.subrange(blo as int, bhi as int),
            i <= n,
            forall|k: int| 0 <= k < i ==> #[trigger] sa[k] == sb[k],
        decreases n - i,
    {
        assert(sa[i as int] == a@[alo + i]);
        assert(sb[i as int] == b@[blo + i]);
        if a[alo + i] != b[blo + i] {
            return false;
        }
        i = i + 1;
    }
    proof {
        assert(sa =~= sb);
    }
    true
}

/// Whether `s` has a control character.
pub fn str_has_control(s: &str) -> (r: bool)
    ensures
        r == has_ctrl(s@),
{
    let v = to_chars(s);
    assert(v@.subrange(0, v@.len() as int) =~= s@);
    chars_have_control(v.as_slice(), 0, v.len())
}

/// Two strings are equal.
pub fn str_eq(a: &str, b: &str) -> (r: bool)
    ensures
        r == (a@ == b@),
{
    let va = to_chars(a);
    let vb = to_chars(b);
    assert(va@.subrange(0, va@.len() as int) =~= a@);
    assert(vb@.subrange(0, vb@.len() as int) =~= b@);
    chars_eq(va.as_slice(), 0, va.len(), vb.as_slice(), 0, vb.len())
}

} // verus!

verus! {

/// The ASCII digit for `d < 10`.
pub open spec fn digit_char(d: nat) -> char {
    (('0' as int) + d) as char
}

/// The decimal representation of `n`, without leading zeros.
pub open spec fn decimal(n: nat) -> Seq<char>
    decreases n,
{
    if n < 10 {
        seq![digit_char(n)]
    } else {
        decimal(n / 10).push(digit_char(n % 10))
    }
}

/// The decimal representation of `n`, as `u64::to_string` gives it.
pub fn u64_to_decimal(n: u64) -> (s: String)
    ensures
        s@ == decimal(n as nat),
{
    u128_to_decimal(n as u128)
}

/// The decimal representation of `n`, as `u128::to_string` gives it.
pub fn u128_to_decimal(n: u128) -> (s: String)
    ensures
        s@ == decimal(n as nat),
{
    let mut digits: Vec<char> = Vec::new();
    let mut m = n;
    let ghost mut rest: Seq<char> = seq![];
    // digits collected least significant first
    loop
        invariant_except_break
            decimal(n as nat) == decimal(m as nat) + rest,
            digits@.reverse() == rest,
        ensures
            decimal(n as nat) == rest,
            digits@.reverse() == rest,
        decreases m,
    {
        let d = (m % 10) as u32;
        let c = char_from_digit(d);
        if m < 10 {
            digits.push(c);
            proof {
                let old_rest = rest;
                rest = seq![c] + old_rest;
                assert(digits@.reverse() =~= rest);
                assert(decimal(m as nat) == seq![c]);
            }
            break;
        }
        digits.push(c);
        proof {
            let old_rest = rest;
            rest = seq![c] + old_rest;
            assert(decimal(m as nat) == decimal((m / 10) as nat).push(c));
            assert(decimal(m as nat) + old_rest =~= decimal((m / 10) as nat) + rest);
            assert(digits@.reverse() =~= rest);
        }
        m = m / 10;
    }
    let mut s = String::new();
    let mut i = digits.len();
    while i > 0
        invariant
            i <= digits@.len(),
            s@ == digits@.reverse().subrange(0, (digits@.len() - i) as int),
        decreases i,
    {
        i = i - 1;
        push_char(&mut s, digits[i]);
        assert(s@ =~= digits@.reverse().subrange(0, (digits@.len() - i) as int));
    }
    assert(digits@.reverse().subrange(0, digits@.len() as int) =~= digits@.reverse());
    s
}

fn char_from_digit(d: u32) -> (c: char)
    requires
        d < 10,
    ensures
        c == digit_char(d as nat),
{
    if d == 0 { '0' }
    else if d == 1 { '1' }
    else if d == 2 { '2' }
    else if d == 3 { '3' }
    else if d == 4 { '4' }
    else if d == 5 { '5' }
    else if d == 6 { '6' }
    else if d == 7 { '7' }
    else if d == 8 { '8' }
    else { '9' }
}

} // verus!

verus! {

/// `s` has a character that is not white space (`!s.trim().is_empty()`).
pub open spec fn has_non_ws(s: Seq<char>) -> bool {
    exists|i: int| 0 <= i < s.len() && !is_ws(#[trigger] s[i])
}

pub fn str_has_non_ws(s: &str) -> (r: bool)
    ensures
        r == has_non_ws(s@),
{
    let v = to_chars(s);
    let mut i: usize = 0;
    while i < v.len()
        invariant
            v@ == s@,
            i <= v@.len(),
            forall|k: int| 0 <= k < i ==> is_ws(#[trigger] v@[k]),
        decreases v@.len() - i,
    {
        if !char_is_whitespace(v[i]) {
            return true;
        }
        i = i + 1;
    }
    false
}

proof fn lemma_trim_start_nonempty(s: Seq<char>)
    ensures
        has_non_ws(trim_start(s)) <==> has_non_ws(s),
        trim_start(s).len() > 0 ==> !is_ws(trim_start(s)[0]),
    decreases s.len(),
{
    if s.len() > 0 && is_ws(s[0]) {
        lemma_trim_start_nonempty(s.drop_first());
        if has_non_ws(s) {
            let i = choose|i: int| 0 <= i < s.len() && !is_ws(#[trigger] s[i]);
            assert(s.drop_first()[i - 1] == s[i]);
        }
        if has_non_ws(s.drop_first()) {
            let i = choose|i: int| 0 <= i < s.drop_first().len() && !is_ws(#[trigger] s.drop_first()[i]);
            assert(s[i + 1] == s.drop_first()[i]);
        }
    } else if s.len() > 0 {
        assert(!is_ws(s[0]));
    }
}

proof fn lemma_trim_end_nonempty(s: Seq<char>)
    requires
        s.len() > 0 ==> !is_ws(s[0]),
    ensures
        trim_end(s).len() > 0 <==> has_non_ws(s),
    decreases s.len(),
{
    if s.len() > 0 && is_ws(s.last()) {
        if s.len() > 1 {
            assert(s.drop_last()[0] == s[0]);
        }
        lemma_trim_end_nonempty(s.drop_last());
        if s.len() > 1 {
            assert(!is_ws(s.drop_last()[0]));
        } else {
            assert(!is_ws(s[0]));
        }
    } else if s.len() > 0 {
        assert(!is_ws(s[s.len() - 1]));
    }
}

} // verus!

verus! {

/// Position of the first `c` in `s`.
pub open spec fn first_index_of(s: Seq<char>, c: char) -> Option<int>
    decreases s.len(),
{
    if s.len() == 0 {
        None
    } else if s[0] == c {
        Some(0)
    } else {
        match first_index_of(s.drop_first(), c) {
            Some(i) => Some(i + 1),
            None => None,
        }
    }
}

pub proof fn lemma_first_index_of(s: Seq<char>, c: char)
    ensures
        match first_index_of(s, c) {
            Some(i) => 0 <= i < s.len() && s[i] == c && forall|k: int| 0 <= k < i ==> s[k] != c,
            None => forall|k: int| 0 <= k < s.len() ==> s[k] != c,
        },
    decreases s.len(),
{
    if s.len() > 0 && s[0] != c {
        lemma_first_index_of(s.drop_first(), c);
        assert forall|k: int| 1 <= k < s.len() implies s[k] == s.drop_first()[k - 1] by {}
    }
}

/// Scans `v[lo..hi]` for `c`.
pub fn find_char(v: &[char], lo: usize, hi: usize, c: char) -> (r: Option<usize>)
    requires
        lo <= hi <= v@.len(),
    ensures
        match first_index_of(v@.subrange(lo as int, hi as int), c) {
            Some(i) => r == Some((lo + i) as usize),
            None => r is None,
        },
        r matches Some(i) ==> lo <= i < hi && v@[i as int] == c && first_index_of(
            v@.subrange(lo as int, hi as int),
            c,
        ) == Some(i - lo),
        r is None ==> forall|k: int| lo <= k < hi ==> #[trigger] v@[k] != c,
{
    let mut i = lo;
    while i < hi
        invariant
            lo <= i <= hi <= v@.len(),
            forall|k: int| lo <= k < i ==> #[trigger] v@[k] != c,
        decreases hi - i,
    {
        if v[i] == c {
            proof {
                let t = v@.subrange(lo as int, hi as int);
                lemma_first_index_of(t, c);
                assert(t[i - lo] == c);
                assert forall|k: int| 0 <= k < i - lo implies t[k] != c by {
                    assert(t[k] == v@[lo + k]);
                }
                let j = first_index_of(t, c);
                assert(j is Some);
                assert(j->0 == i - lo);
            }
            return Some(i);
        }
        i = i + 1;
    }
    proof {
        let t = v@.subrange(lo as int, hi as int);
        lemma_first_index_of(t, c);
        assert forall|k: int| 0 <= k < t.len() implies t[k] != c by {
            assert(t[k] == v@[lo + k]);
        }
        if first_index_of(t, c) is Some {
            let j = first_index_of(t, c)->0;
            assert(t[j] == c);
        }
    }
    None
}

/// `t` without one trailing carriage return.
pub open spec fn strip_cr(t: Seq<char>) -> Seq<char> {
    if t.len() > 0 && t.last() == '\r' {
        t.drop_last()
    } else {
        t
    }
}

/// The lines of `s` as `str::lines` yields them.
pub open spec fn lines(s: Seq<char>) -> Seq<Seq<char>>
    decreases s.len(),
{
    if s.len() == 0 {
        seq![]
    } else {
        match first_index_of(s, '\n') {
            None => seq![s],
            Some(i) => {
                if 0 <= i < s.len() {
                    seq![strip_cr(s.subrange(0, i))] + lines(s.subrange(i + 1, s.len() as int))
                } else {
                    seq![]
                }
            },
        }
    }
}

/// The subsequences of `v` that a list of ranges delimits.
pub open spec fn range_views(v: Seq<char>, r: Seq<(usize, usize)>) -> Seq<Seq<char>> {
    r.map_values(|p: (usize, usize)| v.subrange(p.0 as int, p.1 as int))
}

/// Every range lies inside `v` and is well ordered.
pub open spec fn ranges_within(v: Seq<char>, r: Seq<(usize, usize)>) -> bool {
    forall|k: int| 0 <= k < r.len() ==> (#[trigger] r[k]).0 <= r[k].1 <= v.len()
}

/// The ranges of the lines of `v`.
pub fn line_ranges(v: &[char]) -> (r: Vec<(usize, usize)>)
    ensures
        ranges_within(v@, r@),
        range_views(v@, r@) == lines(v@),
{
    let mut out: Vec<(usize, usize)> = Vec::new();
    let mut start: usize = 0;
    let n = v.len();
    proof {
        assert(v@.subrange(0, n as int) =~= v@);
        assert(range_views(v@, out@) =~= Seq::<Seq<char>>::empty());
        assert(Seq::<Seq<char>>::empty() + lines(v@) =~= lines(v@));
    }
    while start < n
        invariant
            n == v@.len(),
            start <= n,
            ranges_within(v@, out@),
            lines(v@) == range_views(v@, out@) + lines(v@.subrange(start as int, n as int)),
        decreases n - start,
    {
        let ghost t = v@.subrange(start as int, n as int);
        match find_char(v, start, n, '\n') {
            None => {
                let ghost before = out@;
                out.push((start, n));
                proof {
                    assert(lines(t) == seq![t]);
                    assert(range_views(v@, out@) =~= range_views(v@, before) + seq![t]);
                    assert(v@.subrange(n as int, n as int) =~= Seq::<char>::empty());
                    assert(range_views(v@, out@) + lines(v@.subrange(n as int, n as int)) =~= range_views(v@, out@));
                }
                start = n;
            },
            Some(i) => {
                let mut end = i;
                if end > start && v[end - 1] == '\r' {
                    end = end - 1;
                }
                let ghost before = out@;
                out.push((start, end));
                proof {
                    let j = i - start;
                    assert(t.subrange(0, j) =~= v@.subrange(start as int, i as int));
                    assert(t.subrange(j + 1, t.len() as int) =~= v@.subrange(i + 1, n as int));
                    assert(strip_cr(t.subrange(0, j)) =~= v@.subrange(start as int, end as int));
                    assert(lines(t) == seq![strip_cr(t.subrange(0, j))] + lines(t.subrange(j + 1, t.len() as int)));
                    assert(range_views(v@, out@) =~= range_views(v@, before) + seq![v@.subrange(start as int, end as int)]);
                    assert(lines(v@) =~= range_views(v@, out@) + lines(v@.subrange(i + 1, n as int)));
                }
                start = i + 1;
            },
        }
    }
    proof {
        assert(v@.subrange(start as int, n as int) =~= Seq::<char>::empty());
        assert(range_views(v@, out@) + lines(Seq::<char>::empty()) =~= range_views(v@, out@));
    }
    out
}

/// `s` with its leading white space run, then the first word and the rest.
pub open spec fn words(s: Seq<char>) -> Seq<Seq<char>>
    decreases s.len(),
{
    let t = trim_start(s);
    proof {
        lemma_trim_start_len(s);
    }
    if t.len() == 0 {
        seq![]
    } else {
        let w = word_len(t);
        if 0 < w <= t.len() {
            seq![t.subrange(0, w)] + words(t.subrange(w, t.len() as int))
        } else {
            seq![]
        }
    }
}

/// Length of the leading run of non-white-space characters.
pub open spec fn word_len(s: Seq<char>) -> int
    decreases s.len(),
{
    if s.len() == 0 || is_ws(s[0]) {
        0
    } else {
        1 + word_len(s.drop_first())
    }
}

pub proof fn lemma_trim_start_len(s: Seq<char>)
    ensures
        trim_start(s).len() <= s.len(),
        trim_start(s) == s.subrange(s.len() - trim_start(s).len(), s.len() as int),
    decreases s.len(),
{
    if s.len() > 0 && is_ws(s[0]) {
        lemma_trim_start_len(s.drop_first());
        let k = trim_start(s).len();
        assert(s.drop_first().subrange(s.drop_first().len() - k, s.drop_first().len() as int)
            =~= s.subrange(s.len() - k, s.len() as int));
    } else {
        assert(s.subrange(0, s.len() as int) =~= s);
    }
}

pub proof fn lemma_word_len(s: Seq<char>)
    ensures
        0 <= word_len(s) <= s.len(),
        forall|k: int| 0 <= k < word_len(s) ==> !is_ws(#[trigger] s[k]),
        word_len(s) < s.len() ==> is_ws(s[word_len(s)]),
    decreases s.len(),
{
    if s.len() > 0 && !is_ws(s[0]) {
        lemma_word_len(s.drop_first());
        assert forall|k: int| 0 <= k < word_len(s) implies !is_ws(#[trigger] s[k]) by {
            if k > 0 {
                assert(s[k] == s.drop_first()[k - 1]);
            }
        }
    }
}

/// Length of the leading word of `v[lo..hi]`.
fn scan_word(v: &[char], lo: usize, hi: usize) -> (r: usize)
    requires
        lo <= hi <= v@.len(),
    ensures
        lo <= r <= hi,
        r - lo == word_len(v@.subrange(lo as int, hi as int)),
{
    let mut i = lo;
    while i < hi && !char_is_whitespace(v[i])
        invariant
            lo <= i <= hi <= v@.len(),
            word_len(v@.subrange(lo as int, hi as int)) == (i - lo) + word_len(v@.subrange(i as int, hi as int)),
        decreases hi - i,
    {
        proof {
            assert(v@.subrange(i as int, hi as int).drop_first() =~= v@.subrange(i + 1, hi as int));
        }
        i = i + 1;
    }
    proof {
        let t = v@.subrange(i as int, hi as int);
        if t.len() > 0 {
            assert(t[0] == v@[i as int]);
        }
    }
    i
}

/// The ranges of the white-space separated words of `v[lo..hi]`.
pub fn word_ranges(v: &[char], lo: usize, hi: usize) -> (r: Vec<(usize, usize)>)
    requires
        lo <= hi <= v@.len(),
    ensures
        ranges_within(v@, r@),
        range_views(v@, r@) == words(v@.subrange(lo as int, hi as int)),
{
    let mut out: Vec<(usize, usize)> = Vec::new();
    let mut start = lo;
    loop
        invariant_except_break
            lo <= start <= hi <= v@.len(),
            ranges_within(v@, out@),
            words(v@.subrange(lo as int, hi as int)) == range_views(v@, out@) + words(
                v@.subrange(start as int, hi as int),
            ),
        ensures
            ranges_within(v@, out@),
            range_views(v@, out@) == words(v@.subrange(lo as int, hi as int)),
        decreases hi - start,
    {
        let a = skip_ws_forward(v, start, hi);
        let ghost t = v@.subrange(a as int, hi as int);
        if a == hi {
            proof {
                assert(t.len() == 0);
                assert(words(v@.subrange(start as int, hi as int)) =~= Seq::<Seq<char>>::empty());
                assert(range_views(v@, out@) + Seq::<Seq<char>>::empty() =~= range_views(v@, out@));
            }
            break;
        }
        let b = scan_word(v, a, hi);
        proof {
            lemma_word_len(t);
            assert(t.subrange(0, b - a) =~= v@.subrange(a as int, b as int));
            assert(t.subrange(b - a, t.len() as int) =~= v@.subrange(b as int, hi as int));
        }
        let ghost before = out@;
        out.push((a, b));
        proof {
            assert(range_views(v@, out@) =~= range_views(v@, before) + seq![v@.subrange(a as int, b as int)]);
            assert(words(v@.subrange(start as int, hi as int)) == seq![v@.subrange(a as int, b as int)]
                + words(v@.subrange(b as int, hi as int)));
            assert(words(v@.subrange(lo as int, hi as int)) =~= range_views(v@, out@) + words(
                v@.subrange(b as int, hi as int)));
        }
        start = b;
    }
    out
}

} // verus!

verus! {

/// `p` occurs in `s` at position `i`.
pub open spec fn occurs_at(s: Seq<char>, p: Seq<char>, i: int) -> bool {
    0 <= i && i + p.len() <= s.len() && s.subrange(i, i + p.len()) == p
}

/// First occurrence of `p` in `s` at or after `k`.
pub open spec fn find_from(s: Seq<char>, p: Seq<char>, k: int) -> Option<int>
    decreases s.len() + 1 - k,
{
    if k < 0 || k + p.len() > s.len() {
        None
    } else if occurs_at(s, p, k) {
        Some(k)
    } else {
        find_from(s, p, k + 1)
    }
}

/// First occurrence of `p` in `s`.
pub open spec fn find_sub(s: Seq<char>, p: Seq<char>) -> Option<int> {
    find_from(s, p, 0)
}

/// `s` contains `p` (`str::contains`).
pub open spec fn contains_sub(s: Seq<char>, p: Seq<char>) -> bool {
    find_sub(s, p) is Some
}

pub proof fn lemma_find_from(s: Seq<char>, p: Seq<char>, k: int)
    requires
        0 <= k,
    ensures
        match find_from(s, p, k) {
            Some(i) => k <= i && occurs_at(s, p, i) && forall|j: int| k <= j < i ==> !occurs_at(s, p, j),
            None => forall|j: int| k <= j ==> !occurs_at(s, p, j),
        },
    decreases s.len() + 1 - k,
{
    if k + p.len() <= s.len() && !occurs_at(s, p, k) {
        lemma_find_from(s, p, k + 1);
    }
}

/// First occurrence of `p` in `v[lo..hi]`, as a position in `v`.
pub fn find_substring(v: &[char], lo: usize, hi: usize, p: &[char]) -> (r: Option<usize>)
    requires
        lo <= hi <= v@.len(),
    ensures
        match find_sub(v@.subrange(lo as int, hi as int), p@) {
            Some(i) => r == Some((lo + i) as usize),
            None => r is None,
        },
        r matches Some(i) ==> lo <= i && i + p@.len() <= hi && find_sub(
            v@.subrange(lo as int, hi as int),
            p@,
        ) == Some(i - lo),
{
    let ghost t = v@.subrange(lo as int, hi as int);
    let m = p.len();
    if m > hi - lo {
        proof {
            assert(find_from(t, p@, 0) is None);
        }
        return None;
    }
    if m == 0 {
        proof {
            assert(t.subrange(0, 0) =~= p@);
        }
        return Some(lo);
    }
    let mut i = lo;
    while i <= hi - m
        invariant
            lo <= i <= hi - m + 1,
            hi <= v@.len(),
            0 < m,
            m == p@.len(),
            m <= hi - lo,
            t == v@.subrange(lo as int, hi as int),
            find_from(t, p@, 0) == find_from(t, p@, i - lo),
        decreases hi - i,
    {
        let hit = chars_eq(v, i, i + m, p, 0, m);
        proof {
            assert(p@.subrange(0, m as int) =~= p@);
            assert(t.subrange(i - lo, i - lo + m) =~= v@.subrange(i as int, i + m));
        }
        if hit {
            return Some(i);
        }
        i = i + 1;
    }
    None
}

/// Whether `p` occurs in `v[lo..hi]`.
pub fn contains_chars(v: &[char], lo: usize, hi: usize, p: &[char]) -> (r: bool)
    requires
        lo <= hi <= v@.len(),
    ensures
        r == contains_sub(v@.subrange(lo as int, hi as int), p@),
{
    find_substring(v, lo, hi, p).is_some()
}

/// ASCII upper case of a character.
pub open spec fn ascii_upper(c: char) -> char {
    if 'a' <= c && c <= 'z' {
        ((c as int) - 32) as char
    } else {
        c
    }
}

/// ASCII lower case of a character.
pub open spec fn ascii_lower(c: char) -> char {
    if 'A' <= c && c <= 'Z' {
        ((c as int) + 32) as char
    } else {
        c
    }
}

pub open spec fn upper_seq(s: Seq<char>) -> Seq<char> {
    s.map_values(|c: char| ascii_upper(c))
}

/// `str::eq_ignore_ascii_case`.
pub open spec fn eq_ignore_ascii_case(a: Seq<char>, b: Seq<char>) -> bool {
    a.len() == b.len() && forall|i: int| 0 <= i < a.len() ==> ascii_lower(#[trigger] a[i]) == ascii_lower(b[i])
}

pub fn char_to_ascii_upper(c: char) -> (r: char)
    ensures
        r == ascii_upper(c),
{
    if 'a' <= c && c <= 'z' {
        let n = (c as u32) - 32;
        char_from_ascii(n)
    } else {
        c
    }
}

pub fn char_to_ascii_lower(c: char) -> (r: char)
    ensures
        r == ascii_lower(c),
{
    if 'A' <= c && c <= 'Z' {
        let n = (c as u32) + 32;
        char_from_ascii(n)
    } else {
        c
    }
}

/// The character with an ASCII code.
fn char_from_ascii(n: u32) -> (c: char)
    requires
        n < 128,
    ensures
        c as int == n,
{
    let b = n as u8;
    b as char
}

/// The ASCII upper case of `v[lo..hi]`.
pub fn upper_chars(v: &[char], lo: usize, hi: usize) -> (r: Vec<char>)
    requires
        lo <= hi <= v@.len(),
    ensures
        r@ == upper_seq(v@.subrange(lo as int, hi as int)),
{
    let mut out: Vec<char> = Vec::new();
    let mut i = lo;
    while i < hi
        invariant
            lo <= i <= hi <= v@.len(),
            out@ == upper_seq(v@.subrange(lo as int, i as int)),
        decreases hi - i,
    {
        out.push(char_to_ascii_upper(v[i]));
        i = i + 1;
        assert(out@ =~= upper_seq(v@.subrange(lo as int, i as int)));
    }
    out
}

/// ASCII-case-insensitive equality of two ranges.
pub fn chars_eq_ignore_ascii_case(a: &[char], alo: usize, ahi: usize, b: &[char], blo: usize, bhi: usize) -> (r: bool)
    requires
        alo <= ahi <= a@.len(),
        blo <= bhi <= b@.len(),
    ensures
        r == eq_ignore_ascii_case(a@.subrange(alo as int, ahi as int), b@.subrange(blo as int, bhi as int)),
{
    let ghost sa = a@.subrange(alo as int, ahi as int);
    let ghost sb = b@.subrange(blo as int, bhi as int);
    if ahi - alo != bhi - blo {
        return false;
    }
    let n = ahi - alo;
    let mut i: usize = 0;
    while i < n
        invariant
            n == ahi - alo,
            n == bhi - blo,
            alo <= ahi <= a@.len(),
            blo <= bhi <= b@.len(),
            sa == a@.subrange(alo as int, ahi as int),
            sb == b@.subrange(blo as int, bhi as int),
            i <= n,
            forall|k: int| 0 <= k < i ==> ascii_lower(#[trigger] sa[k]) == ascii_lower(sb[k]),
        decreases n - i,
    {
        assert(sa[i as int] == a@[alo + i]);
        assert(sb[i as int] == b@[blo + i]);
        if char_to_ascii_lower(a[alo + i]) != char_to_ascii_lower(b[blo + i]) {
            return false;
        }
        i = i + 1;
    }
    true
}

} // verus!

verus! {

/// The value of a string of decimal digits.
pub open spec fn digits_value(s: Seq<char>) -> nat
    decreases s.len(),
{
    if s.len() == 0 {
        0
    } else {
        digits_value(s.drop_last()) * 10 + ((s.last() as int) - ('0' as int)) as nat
    }
}

pub open spec fn all_digits(s: Seq<char>) -> bool {
    forall|i: int| 0 <= i < s.len() ==> is_digit(#[trigger] s[i])
}

/// `str::parse::<u16>`: an optional `+`, then one or more decimal digits
/// whose value fits.
pub open spec fn parse_u16(s: Seq<char>) -> Option<u16> {
    let d = if s.len() > 0 && s[0] == '+' {
        s.drop_first()
    } else {
        s
    };
    if d.len() > 0 && all_digits(d) && digits_value(d) <= 65535 {
        Some(digits_value(d) as u16)
    } else {
        None
    }
}

pub proof fn lemma_digits_value_grows(s: Seq<char>, k: int)
    requires
        0 <= k <= s.len(),
        all_digits(s),
    ensures
        digits_value(s.subrange(0, k)) <= digits_value(s),
    decreases s.len() - k,
{
    if k < s.len() {
        let t = s.subrange(0, k + 1);
        assert(t.drop_last() =~= s.subrange(0, k));
        assert(is_digit(s[k]));
        lemma_digits_value_grows(s, k + 1);
    } else {
        assert(s.subrange(0, k) =~= s);
    }
}

/// Parses `v[lo..hi]` as a `u16` the way `str::parse::<u16>` does.
pub fn parse_u16_chars(v: &[char], lo: usize, hi: usize) -> (r: Option<u16>)
    requires
        lo <= hi <= v@.len(),
    ensures
        r == parse_u16(v@.subrange(lo as int, hi as int)),
{
    let ghost s = v@.subrange(lo as int, hi as int);
    let mut start = lo;
    if lo < hi && v[lo] == '+' {
        start = lo + 1;
    }
    let ghost d = v@.subrange(start as int, hi as int);
    proof {
        if lo < hi && v@[lo as int] == '+' {
            assert(s.drop_first() =~= d);
        } else {
            assert(s =~= d);
        }
    }
    if start == hi {
        return None;
    }
    let mut value: u32 = 0;
    let mut i = start;
    while i < hi
        invariant
            lo <= start <= i <= hi <= v@.len(),
            start < hi,
            d == v@.subrange(start as int, hi as int),
            s == v@.subrange(lo as int, hi as int),
            d == (if s.len() > 0 && s[0] == '+' {
                s.drop_first()
            } else {
                s
            }),
            value as nat == digits_value(v@.subrange(start as int, i as int)),
            value <= 65535,
            all_digits(v@.subrange(start as int, i as int)),
        decreases hi - i,
    {
        let c = v[i];
        if !('0' <= c && c <= '9') {
            proof {
                assert(d[i - start] == c);
            }
            return None;
        }
        let digit = (c as u32) - ('0' as u32);
        let ghost t = v@.subrange(start as int, i + 1);
        proof {
            assert(t.drop_last() =~= v@.subrange(start as int, i as int));
            assert(all_digits(t)) by {
                assert forall|k: int| 0 <= k < t.len() implies is_digit(#[trigger] t[k]) by {
                    if k < t.len() - 1 {
                        assert(t[k] == v@.subrange(start as int, i as int)[k]);
                    }
                }
            }
        }
        let next = value * 10 + digit;
        if next > 65535 {
            proof {
                if all_digits(d) {
                    assert(d.subrange(0, i + 1 - start) =~= t);
                    lemma_digits_value_grows(d, i + 1 - start);
                }
            }
            return None;
        }
        value = next;
        i = i + 1;
    }
    proof {
        assert(v@.subrange(start as int, hi as int) =~= d);
    }
    Some(value as u16)
}

/// A copy of `v[lo..hi]`.
pub fn copy_range(v: &[char], lo: usize, hi: usize) -> (r: Vec<char>)
    requires
        lo <= hi <= v@.len(),
    ensures
        r@ == v@.subrange(lo as int, hi as int),
{
    let mut out: Vec<char> = Vec::new();
    let mut i = lo;
    while i < hi
        invariant
            lo <= i <= hi <= v@.len(),
            out@ == v@.subrange(lo as int, i as int),
        decreases hi - i,
    {
        out.push(v[i]);
        i = i + 1;
        assert(out@ =~= v@.subrange(lo as int, i as int));
    }
    out
}

} // verus!

verus! {

/// The position of the last `c` in `s`.
pub open spec fn last_index_of(s: Seq<char>, c: char) -> Option<int>
    decreases s.len(),
{
    if s.len() == 0 {
        None
    } else if s.last() == c {
        Some(s.len() - 1)
    } else {
        last_index_of(s.drop_last(), c)
    }
}

pub proof fn lemma_last_index_of(s: Seq<char>, c: char)
    ensures
        last_index_of(s, c) matches Some(i) ==> 0 <= i < s.len() && s[i] == c,
    decreases s.len(),
{
    if s.len() > 0 && s.last() != c {
        lemma_last_index_of(s.drop_last(), c);
    }
}


/// Position of the last `c` in `v[lo..hi]`, as a position in `v`.
pub fn last_index_of_in(v: &[char], lo: usize, hi: usize, c: char) -> (r: Option<usize>)
    requires
        lo <= hi <= v@.len(),
    ensures
        match last_index_of(v@.subrange(lo as int, hi as int), c) {
            Some(i) => r == Some((lo + i) as usize),
            None => r is None,
        },
        r matches Some(i) ==> lo <= i < hi && last_index_of(v@.subrange(lo as int, hi as int), c)
            == Some(i - lo),
{
    let mut j = hi;
    while j > lo && v[j - 1] != c
        invariant
            lo <= j <= hi <= v@.len(),
            last_index_of(v@.subrange(lo as int, hi as int), c) == last_index_of(
                v@.subrange(lo as int, j as int),
                c,
            ),
        decreases j - lo,
    {
        proof {
            assert(v@.subrange(lo as int, j as int).drop_last() =~= v@.subrange(lo as int, j - 1));
        }
        j = j - 1;
    }
    if j == lo {
        proof {
            assert(v@.subrange(lo as int, lo as int) =~= Seq::<char>::empty());
        }
        None
    } else {
        Some(j - 1)
    }
}

} // verus!
