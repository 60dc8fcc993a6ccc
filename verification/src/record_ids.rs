//! Record ids of a loaded store made unique: a record keeps its id unless
//! it is empty or already taken by an earlier record; then it gets the
//! first free id of the form `<id or kind>:loaded:<n>`, counting from its
//! position plus one and skipping every id some record had on loading.
use vstd::prelude::*;
use vstd::set_lib::{lemma_int_range, lemma_len_subset, lemma_map_size, set_int_range};
use crate::text::{decimal, digit_char, push_str, str_eq, u64_to_decimal};

verus! {

/// `<base>:loaded:<n>`.
pub open spec fn loaded_candidate(base: Seq<char>, n: nat) -> Seq<char> {
    base + ":loaded:"@ + decimal(n)
}

/// The base of the generated ids: the original id, or the record kind when
/// the id is empty.
pub open spec fn id_base(original: Seq<char>, kind: Seq<char>) -> Seq<char> {
    if original.len() == 0 {
        kind
    } else {
        original
    }
}

/// The texts of a list of strings.
pub open spec fn texts(v: Seq<String>) -> Seq<Seq<char>> {
    v.map_values(|s: String| s@)
}

/// `r` is the id a record gets: its own when not empty and not used yet,
/// else the first candidate from `position + 1` on that is neither
/// reserved nor used.
pub open spec fn assigned_record_id(
    original: Seq<char>,
    kind: Seq<char>,
    position: nat,
    reserved: spec_fn(Seq<char>) -> bool,
    used: Seq<Seq<char>>,
    r: Seq<char>,
) -> bool {
    if original.len() > 0 && !used.contains(original) {
        r == original
    } else {
        exists|n: nat|
            #![trigger loaded_candidate(id_base(original, kind), n)]
            position + 1 <= n && r == loaded_candidate(id_base(original, kind), n) && !reserved(r)
                && !used.contains(r) && forall|m: nat|
                position + 1 <= m < n ==> #[trigger] reserved(loaded_candidate(id_base(original, kind), m))
                    || used.contains(loaded_candidate(id_base(original, kind), m))
    }
}

proof fn lemma_decimal_len(n: nat)
    ensures
        decimal(n).len() >= 1,
        n >= 10 ==> decimal(n).len() >= 2,
    decreases n,
{
    if n >= 10 {
        lemma_decimal_len(n / 10);
    }
}

proof fn lemma_digit_char(d: nat)
    requires
        d < 10,
    ensures
        digit_char(d) as int == '0' as int + d,
{
}

proof fn lemma_decimal_injective(a: nat, b: nat)
    requires
        decimal(a) == decimal(b),
    ensures
        a == b,
    decreases a,
{
    lemma_decimal_len(a);
    lemma_decimal_len(b);
    if a < 10 && b < 10 {
        assert(decimal(a)[0] == digit_char(a));
        assert(decimal(b)[0] == digit_char(b));
        lemma_digit_char(a);
        lemma_digit_char(b);
        assert(digit_char(a) as int == digit_char(b) as int);
    } else if a >= 10 && b >= 10 {
        assert(decimal(a).last() == decimal(b).last());
        lemma_digit_char(a % 10);
        lemma_digit_char(b % 10);
        assert(decimal(a).drop_last() =~= decimal(a / 10));
        assert(decimal(b).drop_last() =~= decimal(b / 10));
        lemma_decimal_injective(a / 10, b / 10);
        assert(decimal(a).last() == digit_char(a % 10));
        assert(decimal(b).last() == digit_char(b % 10));
        assert(digit_char(a % 10) as int == digit_char(b % 10) as int);
        assert(a % 10 == b % 10);
        assert(a == 10 * (a / 10) + a % 10);
        assert(b == 10 * (b / 10) + b % 10);
    } else {
        assert(decimal(a).len() != decimal(b).len());
    }
}

proof fn lemma_candidate_injective(base: Seq<char>, a: nat, b: nat)
    requires
        loaded_candidate(base, a) == loaded_candidate(base, b),
    ensures
        a == b,
{
    let p = base + ":loaded:"@;
    let ca = loaded_candidate(base, a);
    let cb = loaded_candidate(base, b);
    assert(ca.subrange(p.len() as int, ca.len() as int) =~= decimal(a));
    assert(cb.subrange(p.len() as int, cb.len() as int) =~= decimal(b));
    lemma_decimal_injective(a, b);
}

/// Among `taken.len() + 1` consecutive candidates one is not taken.
proof fn lemma_free_candidate(base: Seq<char>, start: nat, taken: Seq<Seq<char>>)
    ensures
        exists|n: nat|
            start <= n <= start + taken.len() && !taken.contains(#[trigger] loaded_candidate(base, n)),
{
    let hi = start + taken.len() + 1;
    let xs = set_int_range(start as int, hi as int);
    lemma_int_range(start as int, hi as int);
    let f = |n: int| loaded_candidate(base, n as nat);
    let ys = xs.map(f);
    assert forall|x1: int, x2: int| xs.contains(x1) && xs.contains(x2) && #[trigger] f(x1) == #[trigger] f(
        x2,
    ) implies x1 == x2 by {
        lemma_candidate_injective(base, x1 as nat, x2 as nat);
    }
    lemma_map_size(xs, ys, f);
    let ts = taken.to_set();
    taken.lemma_cardinality_of_set();
    if forall|n: nat| start <= n <= start + taken.len() ==> taken.contains(#[trigger] loaded_candidate(base, n)) {
        assert forall|y: Seq<char>| ys.contains(y) implies ts.contains(y) by {
            let x = choose|x: int| xs.contains(x) && f(x) == y;
            assert(taken.contains(loaded_candidate(base, x as nat)));
        }
        lemma_len_subset(ys, ts);
        assert(false);
    }
}

fn contains_text(v: &[String], s: &str) -> (r: bool)
    ensures
        r == texts(v@).contains(s@),
{
    let mut i: usize = 0;
    while i < v.len()
        invariant
            i <= v@.len(),
            forall|k: int| 0 <= k < i ==> v@[k]@ != s@,
        decreases v@.len() - i,
    {
        if str_eq(v[i].as_str(), s) {
            assert(texts(v@)[i as int] == s@);
            return true;
        }
        i = i + 1;
    }
    assert forall|k: int| 0 <= k < texts(v@).len() implies texts(v@)[k] != s@ by {}
    false
}

fn candidate_text(base: &str, n: usize) -> (r: String)
    ensures
        r@ == loaded_candidate(base@, n as nat),
{
    let mut s = String::from_str(base);
    push_str(&mut s, ":loaded:");
    let d = u64_to_decimal(n as u64);
    push_str(&mut s, d.as_str());
    s
}

/// The id a record at `record_position` gets, given the ids every record
/// had on loading (`reserved_ids`) and those already given out
/// (`used_ids`, which gains it).
pub fn reserve_unique_loaded_record_id(
    original_id: &str,
    record_kind: &str,
    record_position: usize,
    reserved_ids: &[String],
    used_ids: &mut Vec<String>,
) -> (r: String)
    requires
        record_position + reserved_ids@.len() + old(used_ids)@.len() + 2 <= usize::MAX,
    ensures
        assigned_record_id(
            original_id@,
            record_kind@,
            record_position as nat,
            |s: Seq<char>| texts(reserved_ids@).contains(s),
            texts(old(used_ids)@),
            r@,
        ),
        texts(final(used_ids)@) == texts(old(used_ids)@).push(r@),
{
    let ghost used0 = texts(used_ids@);
    let ghost reserved = |s: Seq<char>| texts(reserved_ids@).contains(s);
    if original_id.unicode_len() > 0 && !contains_text(used_ids.as_slice(), original_id) {
        used_ids.push(String::from_str(original_id));
        assert(texts(used_ids@) =~= used0.push(original_id@));
        return String::from_str(original_id);
    }
    let base = if original_id.unicode_len() == 0 {
        String::from_str(record_kind)
    } else {
        String::from_str(original_id)
    };
    let ghost b = id_base(original_id@, record_kind@);
    let ghost taken = texts(reserved_ids@) + used0;
    proof {
        assert(base@ == b);
        lemma_free_candidate(b, (record_position + 1) as nat, taken);
    }
    let start = record_position + 1;
    let mut suffix = start;
    loop
        invariant
            start == record_position + 1,
            used0 == texts(old(used_ids)@),
            reserved == (|s: Seq<char>| texts(reserved_ids@).contains(s)),
            !(original_id@.len() > 0 && !used0.contains(original_id@)),
            b == id_base(original_id@, record_kind@),
            start <= suffix <= start + taken.len(),
            base@ == b,
            texts(used_ids@) == used0,
            taken == texts(reserved_ids@) + used0,
            record_position + reserved_ids@.len() + used0.len() + 2 <= usize::MAX,
            exists|n: nat|
                suffix <= n <= start + taken.len() && !taken.contains(#[trigger] loaded_candidate(b, n)),
            forall|m: nat|
                start <= m < suffix ==> #[trigger] reserved(loaded_candidate(b, m)) || used0.contains(
                    loaded_candidate(b, m),
                ),
        decreases start + taken.len() - suffix,
    {
        let candidate = candidate_text(base.as_str(), suffix);
        let in_reserved = contains_text(reserved_ids, candidate.as_str());
        let in_used = contains_text(used_ids.as_slice(), candidate.as_str());
        if !in_reserved && !in_used {
            used_ids.push(candidate.clone());
            proof {
                assert(texts(used_ids@) =~= used0.push(candidate@));
                assert(loaded_candidate(b, suffix as nat) == candidate@);
            }
            return candidate;
        }
        proof {
            let w = choose|n: nat|
                suffix <= n <= start + taken.len() && !taken.contains(#[trigger] loaded_candidate(b, n));
            if w == suffix {
                if in_reserved {
                    let k = choose|k: int| 0 <= k < texts(reserved_ids@).len() && texts(reserved_ids@)[k] == candidate@;
                    assert(taken[k] == candidate@);
                } else {
                    let k = choose|k: int| 0 <= k < used0.len() && used0[k] == candidate@;
                    assert(taken[texts(reserved_ids@).len() + k] == candidate@);
                }
                assert(false);
            }
            assert(reserved(loaded_candidate(b, suffix as nat)) || used0.contains(loaded_candidate(b, suffix as nat)));
        }
        suffix = suffix + 1;
    }
}

/// `:loaded:<n>`, the suffix of a generated session id.
pub open spec fn session_suffix(n: nat) -> Seq<char> {
    ":loaded:"@ + decimal(n)
}

/// The first `k` characters of `s` (all of them when it is shorter).
pub open spec fn take_chars(s: Seq<char>, k: nat) -> Seq<char> {
    if k < s.len() {
        s.subrange(0, k as int)
    } else {
        s
    }
}

/// The `n`th candidate for a session id that is taken: `id` cut so that,
/// with the suffix `:loaded:<n>`, it stays within `max` characters.
pub open spec fn session_candidate(id: Seq<char>, n: nat, max: nat) -> Seq<char> {
    let suffix = session_suffix(n);
    let limit: nat = if suffix.len() <= max {
        (max - suffix.len()) as nat
    } else {
        0
    };
    take_chars(id, limit) + suffix
}

/// `r` is the id a session profile gets: its own when not used yet, else
/// the first candidate from `position + 1` on that is not used.
pub open spec fn assigned_session_id(id: Seq<char>, position: nat, used: Seq<Seq<char>>, max: nat, r: Seq<char>) -> bool {
    if !used.contains(id) {
        r == id
    } else {
        exists|n: nat|
            #![trigger session_candidate(id, n, max)]
            position + 1 <= n && r == session_candidate(id, n, max) && !used.contains(r) && forall|m: nat|
                position + 1 <= m < n ==> used.contains(#[trigger] session_candidate(id, m, max))
    }
}

proof fn lemma_decimal_digits(n: nat)
    ensures
        forall|i: int| 0 <= i < decimal(n).len() ==> #[trigger] decimal(n)[i] != ':',
    decreases n,
{
    if n >= 10 {
        lemma_decimal_digits(n / 10);
        lemma_digit_char(n % 10);
        assert forall|i: int| 0 <= i < decimal(n).len() implies #[trigger] decimal(n)[i] != ':' by {
            if i < decimal(n).len() - 1 {
                assert(decimal(n)[i] == decimal(n / 10)[i]);
            }
        }
    } else {
        lemma_digit_char(n);
    }
}

proof fn lemma_session_candidate_injective(id: Seq<char>, a: nat, b: nat, max: nat)
    requires
        session_candidate(id, a, max) == session_candidate(id, b, max),
    ensures
        a == b,
{
    let s = session_candidate(id, a, max);
    let da = decimal(a);
    let db = decimal(b);
    lemma_decimal_digits(a);
    lemma_decimal_digits(b);
    let pa = s.len() - da.len();
    let pb = s.len() - db.len();
    reveal_strlit(":loaded:");
    let l = ":loaded:"@;
    assert(l.len() == 8 && l[7] == ':');
    let ta = take_chars(id, if session_suffix(a).len() <= max { (max - session_suffix(a).len()) as nat } else { 0 });
    let tb = take_chars(id, if session_suffix(b).len() <= max { (max - session_suffix(b).len()) as nat } else { 0 });
    assert(s =~= ta + l + da);
    assert(s =~= tb + l + db);
    assert(s[pa - 1] == (ta + l + da)[ta.len() as int + 7]);
    assert(s[pb - 1] == (tb + l + db)[tb.len() as int + 7]);
    if da.len() < db.len() {
        assert(s[pa - 1] == db[pa - 1 - pb]);
        assert(false);
    } else if db.len() < da.len() {
        assert(s[pb - 1] == da[pb - 1 - pa]);
        assert(false);
    }
    assert(s.subrange(pa, s.len() as int) =~= da);
    assert(s.subrange(pb, s.len() as int) =~= db);
    lemma_decimal_injective(a, b);
}

/// Among `used.len() + 1` consecutive candidates one is not used.
proof fn lemma_free_session_candidate(id: Seq<char>, start: nat, used: Seq<Seq<char>>, max: nat)
    ensures
        exists|n: nat| start <= n <= start + used.len() && !used.contains(#[trigger] session_candidate(id, n, max)),
{
    let hi = start + used.len() + 1;
    let xs = set_int_range(start as int, hi as int);
    lemma_int_range(start as int, hi as int);
    let f = |n: int| session_candidate(id, n as nat, max);
    let ys = xs.map(f);
    assert forall|x1: int, x2: int| xs.contains(x1) && xs.contains(x2) && #[trigger] f(x1) == #[trigger] f(
        x2,
    ) implies x1 == x2 by {
        lemma_session_candidate_injective(id, x1 as nat, x2 as nat, max);
    }
    lemma_map_size(xs, ys, f);
    let ts = used.to_set();
    used.lemma_cardinality_of_set();
    if forall|n: nat| start <= n <= start + used.len() ==> used.contains(#[trigger] session_candidate(id, n, max)) {
        assert forall|y: Seq<char>| ys.contains(y) implies ts.contains(y) by {
            let x = choose|x: int| xs.contains(x) && f(x) == y;
            assert(used.contains(session_candidate(id, x as nat, max)));
        }
        lemma_len_subset(ys, ts);
        assert(false);
    }
}

fn session_candidate_text(id: &str, n: usize, max_chars: usize) -> (r: String)
    ensures
        r@ == session_candidate(id@, n as nat, max_chars as nat),
{
    let mut suffix = String::from_str(":loaded:");
    let d = u64_to_decimal(n as u64);
    push_str(&mut suffix, d.as_str());
    let suffix_len = crate::text::to_chars(suffix.as_str()).len();
    let limit = if suffix_len <= max_chars {
        max_chars - suffix_len
    } else {
        0
    };
    let chars = crate::text::to_chars(id);
    let mut r = if limit < chars.len() {
        crate::text::string_of(chars.as_slice(), 0, limit)
    } else {
        assert(chars@ == id@);
        String::from_str(id)
    };
    push_str(&mut r, suffix.as_str());
    r
}

/// The id a session profile at `profile_position` gets, given the ids
/// already given out (`used_session_ids`, which gains it); ids are at most
/// `max_chars` characters.
pub fn reserve_unique_loaded_session_id(
    session_id: &str,
    profile_position: usize,
    used_session_ids: &mut Vec<String>,
    max_chars: usize,
) -> (r: String)
    requires
        profile_position + old(used_session_ids)@.len() + 2 <= usize::MAX,
    ensures
        assigned_session_id(session_id@, profile_position as nat, texts(old(used_session_ids)@), max_chars as nat, r@),
        texts(final(used_session_ids)@) == texts(old(used_session_ids)@).push(r@),
{
    let ghost used0 = texts(used_session_ids@);
    if !contains_text(used_session_ids.as_slice(), session_id) {
        used_session_ids.push(String::from_str(session_id));
        assert(texts(used_session_ids@) =~= used0.push(session_id@));
        return String::from_str(session_id);
    }
    proof {
        lemma_free_session_candidate(session_id@, (profile_position + 1) as nat, used0, max_chars as nat);
    }
    let start = profile_position + 1;
    let mut suffix = start;
    loop
        invariant
            start == profile_position + 1,
            used0 == texts(old(used_session_ids)@),
            used0.contains(session_id@),
            start <= suffix <= start + used0.len(),
            texts(used_session_ids@) == used0,
            profile_position + used0.len() + 2 <= usize::MAX,
            exists|n: nat|
                suffix <= n <= start + used0.len() && !used0.contains(#[trigger] session_candidate(session_id@, n, max_chars as nat)),
            forall|m: nat|
                start <= m < suffix ==> used0.contains(#[trigger] session_candidate(session_id@, m, max_chars as nat)),
        decreases start + used0.len() - suffix,
    {
        let candidate = session_candidate_text(session_id, suffix, max_chars);
        if !contains_text(used_session_ids.as_slice(), candidate.as_str()) {
            used_session_ids.push(candidate.clone());
            assert(texts(used_session_ids@) =~= used0.push(candidate@));
            return candidate;
        }
        proof {
            let w = choose|n: nat|
                suffix <= n <= start + used0.len() && !used0.contains(#[trigger] session_candidate(session_id@, n, max_chars as nat));
            if w == suffix {
                assert(false);
            }
        }
        suffix = suffix + 1;
    }
}

/// A session id reserved against the ids given out so far is new, so the
/// ids given out stay distinct.
pub proof fn lemma_reserved_session_ids_distinct(id: Seq<char>, position: nat, used: Seq<Seq<char>>, max: nat, r: Seq<char>)
    requires
        used.no_duplicates(),
        assigned_session_id(id, position, used, max, r),
    ensures
        !used.contains(r),
        used.push(r).no_duplicates(),
{
    assert forall|i: int, j: int| 0 <= i < j < used.push(r).len() implies used.push(r)[i] != used.push(r)[j] by {
        if j == used.len() {
            assert(used.push(r)[i] == used[i]);
        }
    }
}

/// The list's texts that are not empty.
pub open spec fn nonempty_texts(v: Seq<String>) -> Seq<Seq<char>>
    decreases v.len(),
{
    if v.len() == 0 {
        seq![]
    } else if v.last()@.len() > 0 {
        nonempty_texts(v.drop_last()).push(v.last()@)
    } else {
        nonempty_texts(v.drop_last())
    }
}

proof fn lemma_nonempty_texts(v: Seq<String>, s: Seq<char>)
    ensures
        nonempty_texts(v).contains(s) <==> s.len() > 0 && texts(v).contains(s),
        nonempty_texts(v).len() <= v.len(),
    decreases v.len(),
{
    if v.len() > 0 {
        lemma_nonempty_texts(v.drop_last(), s);
        assert(texts(v).drop_last() =~= texts(v.drop_last()));
        if texts(v).contains(s) {
            let k = choose|k: int| 0 <= k < texts(v).len() && texts(v)[k] == s;
            if k < v.len() - 1 {
                assert(texts(v.drop_last())[k] == s);
            }
        }
        if texts(v.drop_last()).contains(s) {
            let k = choose|k: int| 0 <= k < texts(v.drop_last()).len() && texts(v.drop_last())[k] == s;
            assert(texts(v)[k] == s);
        }
        let p = nonempty_texts(v.drop_last());
        if v.last()@.len() > 0 && p.push(v.last()@).contains(s) {
            let k = choose|k: int| 0 <= k < p.push(v.last()@).len() && p.push(v.last()@)[k] == s;
            if k < p.len() {
                assert(p[k] == s);
            }
        }
        if p.contains(s) && v.last()@.len() > 0 {
            let k = choose|k: int| 0 <= k < p.len() && p[k] == s;
            assert(p.push(v.last()@)[k] == s);
        }
        if v.last()@.len() > 0 && s == v.last()@ {
            assert(p.push(v.last()@)[p.len() as int] == s);
            assert(texts(v)[v.len() - 1] == s);
        }
    }
}

fn nonempty_ids(ids: &Vec<String>) -> (r: Vec<String>)
    ensures
        texts(r@) == nonempty_texts(ids@),
{
    let mut out: Vec<String> = Vec::new();
    let mut i: usize = 0;
    while i < ids.len()
        invariant
            i <= ids@.len(),
            texts(out@) == nonempty_texts(ids@.take(i as int)),
        decreases ids@.len() - i,
    {
        proof {
            assert(ids@.take(i + 1).drop_last() =~= ids@.take(i as int));
        }
        if ids[i].unicode_len() > 0 {
            let ghost before = texts(out@);
            out.push(ids[i].clone());
            assert(texts(out@) =~= before.push(ids@[i as int]@));
        }
        i = i + 1;
    }
    assert(ids@.take(ids@.len() as int) =~= ids@);
    out
}

/// Some record had this id on loading.
pub open spec fn reserved_in(ids: Seq<String>) -> spec_fn(Seq<char>) -> bool {
    |s: Seq<char>| s.len() > 0 && texts(ids).contains(s)
}

/// Makes the ids of loaded records unique, record by record in order (see
/// the module documentation).
pub fn normalize_loaded_record_ids(ids: &mut Vec<String>, record_kind: &str)
    requires
        3 * old(ids)@.len() + 2 <= usize::MAX,
    ensures
        final(ids)@.len() == old(ids)@.len(),
        forall|i: int|
            0 <= i < old(ids)@.len() ==> assigned_record_id(
                #[trigger] old(ids)@[i]@,
                record_kind@,
                i as nat,
                reserved_in(old(ids)@),
                texts(final(ids)@.take(i)),
                final(ids)@[i]@,
            ),
{
    let ghost start = ids@;
    let reserved = nonempty_ids(ids);
    proof {
        lemma_nonempty_texts(start, seq![]);
        assert forall|s: Seq<char>| #[trigger] texts(reserved@).contains(s) == reserved_in(start)(s) by {
            lemma_nonempty_texts(start, s);
        }
        assert((|s: Seq<char>| texts(reserved@).contains(s)) =~= reserved_in(start));
        assert(reserved@.len() == texts(reserved@).len());
    }
    let mut used: Vec<String> = Vec::new();
    let mut i: usize = 0;
    while i < ids.len()
        invariant
            i <= ids@.len(),
            ids@.len() == start.len(),
            3 * start.len() + 2 <= usize::MAX,
            reserved@.len() <= start.len(),
            (|s: Seq<char>| texts(reserved@).contains(s)) == reserved_in(start),
            used@.len() == i,
            texts(used@) == texts(ids@.take(i as int)),
            forall|j: int| i <= j < ids@.len() ==> #[trigger] ids@[j] == start[j],
            forall|j: int|
                0 <= j < i ==> assigned_record_id(
                    #[trigger] start[j]@,
                    record_kind@,
                    j as nat,
                    reserved_in(start),
                    texts(ids@.take(j)),
                    ids@[j]@,
                ),
        decreases ids@.len() - i,
    {
        let assigned = reserve_unique_loaded_record_id(
            ids[i].as_str(),
            record_kind,
            i,
            reserved.as_slice(),
            &mut used,
        );
        let ghost before = ids@;
        ids.set(i, assigned);
        proof {
            assert forall|j: int| 0 <= j <= i implies texts(ids@.take(j)) == texts(before.take(j)) by {
                assert(ids@.take(j) =~= before.take(j));
            }
            assert(texts(ids@.take(i + 1)) =~= texts(before.take(i as int)).push(ids@[i as int]@));
        }
        i = i + 1;
    }
}

/// After normalization no two records share an id and none is empty.
pub proof fn lemma_normalized_ids_unique(old_ids: Seq<String>, kind: Seq<char>, new_ids: Seq<String>)
    requires
        new_ids.len() == old_ids.len(),
        forall|i: int|
            0 <= i < old_ids.len() ==> assigned_record_id(
                #[trigger] old_ids[i]@,
                kind,
                i as nat,
                reserved_in(old_ids),
                texts(new_ids.take(i)),
                new_ids[i]@,
            ),
    ensures
        forall|i: int| 0 <= i < new_ids.len() ==> (#[trigger] new_ids[i])@.len() > 0,
        forall|i: int, j: int|
            0 <= i < j < new_ids.len() ==> (#[trigger] new_ids[i])@ != (#[trigger] new_ids[j])@,
{
    assert forall|i: int| 0 <= i < new_ids.len() implies (#[trigger] new_ids[i])@.len() > 0 by {
        assert(assigned_record_id(old_ids[i]@, kind, i as nat, reserved_in(old_ids), texts(new_ids.take(i)), new_ids[i]@));
        let b = id_base(old_ids[i]@, kind);
        if !(old_ids[i]@.len() > 0 && !texts(new_ids.take(i)).contains(old_ids[i]@)) {
            let n = choose|n: nat|
                #![trigger loaded_candidate(b, n)]
                i + 1 <= n && new_ids[i]@ == loaded_candidate(b, n) && !reserved_in(old_ids)(new_ids[i]@)
                    && !texts(new_ids.take(i)).contains(new_ids[i]@) && forall|m: nat|
                    i + 1 <= m < n ==> #[trigger] reserved_in(old_ids)(loaded_candidate(b, m))
                        || texts(new_ids.take(i)).contains(loaded_candidate(b, m));
            reveal_strlit(":loaded:");
            assert(loaded_candidate(b, n).len() >= 8);
        }
    }
    assert forall|i: int, j: int| 0 <= i < j < new_ids.len() implies (#[trigger] new_ids[i])@
        != (#[trigger] new_ids[j])@ by {
        assert(assigned_record_id(old_ids[j]@, kind, j as nat, reserved_in(old_ids), texts(new_ids.take(j)), new_ids[j]@));
        assert(texts(new_ids.take(j))[i] == new_ids[i]@);
        let b = id_base(old_ids[j]@, kind);
        if !(old_ids[j]@.len() > 0 && !texts(new_ids.take(j)).contains(old_ids[j]@)) {
            let n = choose|n: nat|
                #![trigger loaded_candidate(b, n)]
                j + 1 <= n && new_ids[j]@ == loaded_candidate(b, n) && !reserved_in(old_ids)(new_ids[j]@)
                    && !texts(new_ids.take(j)).contains(new_ids[j]@) && forall|m: nat|
                    j + 1 <= m < n ==> #[trigger] reserved_in(old_ids)(loaded_candidate(b, m))
                        || texts(new_ids.take(j)).contains(loaded_candidate(b, m));
        }
    }
}

proof fn lemma_kept_prefix(old_ids: Seq<String>, kind: Seq<char>, new_ids: Seq<String>, i: int)
    requires
        0 <= i <= old_ids.len(),
        forall|k: int| 0 <= k < old_ids.len() ==> (#[trigger] old_ids[k])@.len() > 0,
        forall|a: int, b: int|
            0 <= a < b < old_ids.len() ==> (#[trigger] old_ids[a])@ != (#[trigger] old_ids[b])@,
        new_ids.len() == old_ids.len(),
        forall|k: int|
            0 <= k < old_ids.len() ==> assigned_record_id(
                #[trigger] old_ids[k]@,
                kind,
                k as nat,
                reserved_in(old_ids),
                texts(new_ids.take(k)),
                new_ids[k]@,
            ),
    ensures
        forall|k: int| 0 <= k < i ==> (#[trigger] new_ids[k])@ == old_ids[k]@,
    decreases i,
{
    if i > 0 {
        lemma_kept_prefix(old_ids, kind, new_ids, i - 1);
        let j = i - 1;
        assert(texts(new_ids.take(j)) =~= texts(old_ids.take(j)));
        assert(assigned_record_id(old_ids[j]@, kind, j as nat, reserved_in(old_ids), texts(new_ids.take(j)), new_ids[j]@));
        if texts(old_ids.take(j)).contains(old_ids[j]@) {
            let k = choose|k: int| 0 <= k < texts(old_ids.take(j)).len() && texts(old_ids.take(j))[k] == old_ids[j]@;
            assert(old_ids[k]@ == old_ids[j]@);
            assert(false);
        }
    }
}

/// Records whose ids are already unique and not empty keep them.
pub proof fn lemma_unique_ids_kept(old_ids: Seq<String>, kind: Seq<char>, new_ids: Seq<String>)
    requires
        forall|i: int| 0 <= i < old_ids.len() ==> (#[trigger] old_ids[i])@.len() > 0,
        forall|i: int, j: int|
            0 <= i < j < old_ids.len() ==> (#[trigger] old_ids[i])@ != (#[trigger] old_ids[j])@,
        new_ids.len() == old_ids.len(),
        forall|i: int|
            0 <= i < old_ids.len() ==> assigned_record_id(
                #[trigger] old_ids[i]@,
                kind,
                i as nat,
                reserved_in(old_ids),
                texts(new_ids.take(i)),
                new_ids[i]@,
            ),
    ensures
        forall|i: int| 0 <= i < old_ids.len() ==> (#[trigger] new_ids[i])@ == old_ids[i]@,
{
    lemma_kept_prefix(old_ids, kind, new_ids, old_ids.len() as int);
}

} // verus!
