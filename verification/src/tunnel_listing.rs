//! Listing the running tunnels: the open ones (of one session, if asked),
//! ordered by label and then by id, as strings are ordered.
use vstd::prelude::*;
use vstd::multiset::Multiset;
use crate::tunnel::TunnelStatus;
use crate::text::{str_eq, to_chars};

verus! {

broadcast use vstd::seq_lib::to_multiset_insert, vstd::seq_lib::to_multiset_len;

/// `a` comes before `b` in the lexicographic order of characters, which is
/// the order of Rust strings.
pub open spec fn text_lt(a: Seq<char>, b: Seq<char>) -> bool
    decreases a.len(),
{
    if a.len() == 0 {
        b.len() > 0
    } else if b.len() == 0 {
        false
    } else if a[0] == b[0] {
        text_lt(a.drop_first(), b.drop_first())
    } else {
        a[0] < b[0]
    }
}

pub proof fn lemma_text_lt_irreflexive(a: Seq<char>)
    ensures
        !text_lt(a, a),
    decreases a.len(),
{
    if a.len() > 0 {
        lemma_text_lt_irreflexive(a.drop_first());
    }
}

pub proof fn lemma_text_lt_total(a: Seq<char>, b: Seq<char>)
    ensures
        a == b || text_lt(a, b) || text_lt(b, a),
    decreases a.len(),
{
    if a.len() > 0 && b.len() > 0 && a[0] == b[0] {
        lemma_text_lt_total(a.drop_first(), b.drop_first());
        if a.drop_first() == b.drop_first() {
            assert(a =~= seq![a[0]] + a.drop_first());
            assert(b =~= seq![b[0]] + b.drop_first());
        }
    } else if a.len() == 0 && b.len() == 0 {
        assert(a =~= b);
    }
}

pub proof fn lemma_text_lt_transitive(a: Seq<char>, b: Seq<char>, c: Seq<char>)
    requires
        text_lt(a, b),
        text_lt(b, c),
    ensures
        text_lt(a, c),
    decreases a.len(),
{
    if a.len() > 0 && b.len() > 0 && c.len() > 0 && a[0] == b[0] && b[0] == c[0] {
        lemma_text_lt_transitive(a.drop_first(), b.drop_first(), c.drop_first());
    }
}

pub proof fn lemma_text_lt_asymmetric(a: Seq<char>, b: Seq<char>)
    requires
        text_lt(a, b),
    ensures
        !text_lt(b, a),
{
    if text_lt(b, a) {
        lemma_text_lt_transitive(a, b, a);
        lemma_text_lt_irreflexive(a);
    }
}

/// `a` comes strictly before `b`: by label, then by id.
pub open spec fn status_lt(a: TunnelStatus, b: TunnelStatus) -> bool {
    text_lt(a.spec.label@, b.spec.label@) || (a.spec.label@ == b.spec.label@ && text_lt(a.spec.id@, b.spec.id@))
}

/// `a` does not come after `b`.
pub open spec fn status_le(a: TunnelStatus, b: TunnelStatus) -> bool {
    !status_lt(b, a)
}

pub proof fn lemma_status_order(a: TunnelStatus, b: TunnelStatus, c: TunnelStatus)
    ensures
        status_lt(a, b) ==> !status_lt(b, a),
        status_le(a, b) && status_le(b, c) ==> status_le(a, c),
        status_lt(a, b) && status_le(b, c) ==> status_lt(a, c),
        !status_lt(a, b) ==> status_le(b, a),
{
    lemma_text_lt_total(a.spec.label@, b.spec.label@);
    lemma_text_lt_total(b.spec.label@, c.spec.label@);
    lemma_text_lt_total(a.spec.label@, c.spec.label@);
    lemma_text_lt_total(a.spec.id@, b.spec.id@);
    lemma_text_lt_total(b.spec.id@, c.spec.id@);
    lemma_text_lt_total(a.spec.id@, c.spec.id@);
    lemma_text_lt_irreflexive(a.spec.label@);
    lemma_text_lt_irreflexive(a.spec.id@);
    if text_lt(a.spec.label@, b.spec.label@) {
        lemma_text_lt_asymmetric(a.spec.label@, b.spec.label@);
    }
    if text_lt(b.spec.label@, a.spec.label@) {
        lemma_text_lt_asymmetric(b.spec.label@, a.spec.label@);
    }
    if text_lt(a.spec.id@, b.spec.id@) {
        lemma_text_lt_asymmetric(a.spec.id@, b.spec.id@);
    }
    if text_lt(b.spec.id@, a.spec.id@) {
        lemma_text_lt_asymmetric(b.spec.id@, a.spec.id@);
    }
    if text_lt(c.spec.label@, b.spec.label@) && text_lt(b.spec.label@, a.spec.label@) {
        lemma_text_lt_transitive(c.spec.label@, b.spec.label@, a.spec.label@);
    }
    if text_lt(c.spec.id@, b.spec.id@) && text_lt(b.spec.id@, a.spec.id@) {
        lemma_text_lt_transitive(c.spec.id@, b.spec.id@, a.spec.id@);
    }
    if text_lt(a.spec.label@, b.spec.label@) && text_lt(b.spec.label@, c.spec.label@) {
        lemma_text_lt_transitive(a.spec.label@, b.spec.label@, c.spec.label@);
    }
    if text_lt(a.spec.id@, b.spec.id@) && text_lt(b.spec.id@, c.spec.id@) {
        lemma_text_lt_transitive(a.spec.id@, b.spec.id@, c.spec.id@);
    }
    if text_lt(c.spec.label@, a.spec.label@) {
        lemma_text_lt_asymmetric(c.spec.label@, a.spec.label@);
    }
    if text_lt(a.spec.label@, c.spec.label@) {
        lemma_text_lt_asymmetric(a.spec.label@, c.spec.label@);
    }
    if text_lt(c.spec.id@, a.spec.id@) {
        lemma_text_lt_asymmetric(c.spec.id@, a.spec.id@);
    }
}

/// The statuses are in listing order.
pub open spec fn listing_sorted(s: Seq<TunnelStatus>) -> bool {
    forall|i: int, j: int| 0 <= i < j < s.len() ==> status_le(#[trigger] s[i], #[trigger] s[j])
}

fn text_lt_exec(a: &str, b: &str) -> (r: bool)
    ensures
        r == text_lt(a@, b@),
{
    let av = to_chars(a);
    let bv = to_chars(b);
    assert(a@.subrange(0, a@.len() as int) =~= a@);
    assert(b@.subrange(0, b@.len() as int) =~= b@);
    let mut i: usize = 0;
    while i < av.len() && i < bv.len() && av[i] == bv[i]
        invariant
            i <= av@.len(),
            i <= bv@.len(),
            av@ == a@,
            bv@ == b@,
            text_lt(a@, b@) == text_lt(a@.subrange(i as int, a@.len() as int), b@.subrange(i as int, b@.len() as int)),
        decreases av@.len() - i,
    {
        let ghost x = a@.subrange(i as int, a@.len() as int);
        let ghost y = b@.subrange(i as int, b@.len() as int);
        assert(x.drop_first() =~= a@.subrange(i + 1, a@.len() as int));
        assert(y.drop_first() =~= b@.subrange(i + 1, b@.len() as int));
        i = i + 1;
    }
    if i == av.len() {
        return i < bv.len();
    }
    if i == bv.len() {
        return false;
    }
    av[i] < bv[i]
}

fn status_lt_exec(a: &TunnelStatus, b: &TunnelStatus) -> (r: bool)
    ensures
        r == status_lt(*a, *b),
{
    text_lt_exec(a.spec.label.as_str(), b.spec.label.as_str()) || (str_eq(
        a.spec.label.as_str(),
        b.spec.label.as_str(),
    ) && text_lt_exec(a.spec.id.as_str(), b.spec.id.as_str()))
}

/// A running tunnel as the listing sees it.
#[derive(Debug)]
pub struct ListedTunnel {
    pub session_id: String,
    pub closed: bool,
    pub status: TunnelStatus,
}

/// The tunnel is open and, when a session is asked for, belongs to it.
pub open spec fn listed(t: ListedTunnel, session_id: Option<Seq<char>>) -> bool {
    !t.closed && match session_id {
        Some(s) => t.session_id@ == s,
        None => true,
    }
}

/// The statuses of the tunnels that the listing shows.
pub open spec fn shown(ts: Seq<ListedTunnel>, session_id: Option<Seq<char>>) -> Multiset<TunnelStatus>
    decreases ts.len(),
{
    if ts.len() == 0 {
        Multiset::empty()
    } else {
        let rest = shown(ts.drop_last(), session_id);
        if listed(ts.last(), session_id) {
            rest.insert(ts.last().status)
        } else {
            rest
        }
    }
}

fn insert_sorted(out: &mut Vec<TunnelStatus>, s: TunnelStatus)
    requires
        listing_sorted(old(out)@),
    ensures
        listing_sorted(final(out)@),
        final(out)@.to_multiset() == old(out)@.to_multiset().insert(s),
{
    let mut p: usize = 0;
    while p < out.len() && !status_lt_exec(&s, &out[p])
        invariant
            p <= out@.len(),
            out@ == old(out)@,
            forall|k: int| 0 <= k < p ==> !status_lt(s, #[trigger] out@[k]),
        decreases out@.len() - p,
    {
        p = p + 1;
    }
    let ghost before = out@;
    out.insert(p, s);
    proof {
        let after = out@;
        assert forall|i: int, j: int| 0 <= i < j < after.len() implies status_le(
            #[trigger] after[i],
            #[trigger] after[j],
        ) by {
            if i < p && j < p {
                assert(after[i] == before[i] && after[j] == before[j]);
            } else if i < p && j == p {
                lemma_status_order(s, before[i], s);
            } else if i < p && j > p {
                assert(after[i] == before[i] && after[j] == before[j - 1]);
            } else if i == p {
                assert(after[j] == before[j - 1]);
                assert(p < before.len());
                assert(status_lt(s, before[p as int]));
                if j - 1 > p {
                    assert(status_le(before[p as int], before[j - 1]));
                }
                lemma_status_order(s, before[p as int], before[j - 1]);
            } else {
                assert(after[i] == before[i - 1] && after[j] == before[j - 1]);
            }
        }
    }
}

/// The open tunnels, of `session_id` when given, in listing order.
pub fn list_tunnels(tunnels: Vec<ListedTunnel>, session_id: Option<&str>) -> (r: Vec<TunnelStatus>)
    ensures
        listing_sorted(r@),
        r@.to_multiset() == shown(
            tunnels@,
            match session_id {
                Some(s) => Some(s@),
                None => None,
            },
        ),
{
    let ghost sid = match session_id {
        Some(s) => Some(s@),
        None => None,
    };
    let ghost all = tunnels@;
    let mut rest = tunnels;
    let mut out: Vec<TunnelStatus> = Vec::new();
    proof {
        assert(out@.to_multiset() =~= Multiset::<TunnelStatus>::empty()) by {
            vstd::seq_lib::to_multiset_len(out@);
        }
    }
    while rest.len() > 0
        invariant
            listing_sorted(out@),
            all.len() >= rest@.len(),
            shown(all, sid) == shown(rest@, sid).add(out@.to_multiset()),
            sid == match session_id {
                Some(s) => Some(s@),
                None => None::<Seq<char>>,
            },
        decreases rest@.len(),
    {
        let ghost prev = rest@;
        let t = rest.pop().unwrap();
        assert(prev.drop_last() =~= rest@);
        let keep = !t.closed && match session_id {
            Some(s) => str_eq(t.session_id.as_str(), s),
            None => true,
        };
        if keep {
            let ghost o = out@.to_multiset();
            insert_sorted(&mut out, t.status);
            assert(shown(prev, sid) == shown(rest@, sid).insert(prev.last().status));
            assert(shown(rest@, sid).insert(prev.last().status).add(o) =~= shown(rest@, sid).add(o.insert(prev.last().status)));
        }
    }
    assert(shown(rest@, sid) =~= Multiset::<TunnelStatus>::empty());
    assert(shown(all, sid) =~= out@.to_multiset());
    out
}

} // verus!
