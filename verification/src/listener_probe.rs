//! Reading the output of the remote listener probe: whether a remote
//! forward's port is listening, judged from Windows, `/proc/net/tcp`,
//! `sockstat`, `ss`, `lsof` or `netstat` output.
use vstd::prelude::*;
use crate::text::{
    contains_chars, contains_sub, last_index_of, eq_ignore_ascii_case, find_substring, find_sub, last_index_of_in,
    line_ranges, lines, parse_u16, parse_u16_chars, range_views, ranges_within, to_chars, trim,
    trim_bounds, upper_chars, upper_seq, word_ranges, words, chars_eq, chars_eq_ignore_ascii_case,
    copy_range,
};

verus! {

/// What the probe says about a port.
#[derive(Clone, Copy, Debug, PartialEq, Eq, Structural)]
pub enum RemoteListenerProbe {
    Listening,
    Missing,
    Unsupported,
}

/// Characters trimmed from both ends of a socket endpoint field.
pub open spec fn endpoint_punct(c: char) -> bool {
    c == ',' || c == ';' || c == '(' || c == ')'
}

pub open spec fn trim_punct_start(s: Seq<char>) -> Seq<char>
    decreases s.len(),
{
    if s.len() > 0 && endpoint_punct(s[0]) {
        trim_punct_start(s.drop_first())
    } else {
        s
    }
}

pub open spec fn trim_punct_end(s: Seq<char>) -> Seq<char>
    decreases s.len(),
{
    if s.len() > 0 && endpoint_punct(s.last()) {
        trim_punct_end(s.drop_last())
    } else {
        s
    }
}

/// The port of an endpoint such as `127.0.0.1:22`, `*.22` or `[::]:22,`:
/// the part after the last `:`, or else after the last `.`.
pub open spec fn endpoint_port(e: Seq<char>) -> Option<u16> {
    let t = trim_punct_end(trim_punct_start(e));
    match last_index_of(t, ':') {
        Some(i) => parse_u16(t.subrange(i + 1, t.len() as int)),
        None => match last_index_of(t, '.') {
            Some(i) => parse_u16(t.subrange(i + 1, t.len() as int)),
            None => None,
        },
    }
}

/// Some white-space separated field of the line is an endpoint on `port`.
pub open spec fn line_has_port(line: Seq<char>, port: u16) -> bool {
    exists|k: int| 0 <= k < words(line).len() && endpoint_port(#[trigger] words(line)[k]) == Some(port)
}

/// The upper-case hexadecimal digit of `d < 16`.
pub open spec fn hex_upper(d: int) -> char {
    if d < 10 {
        (('0' as int) + d) as char
    } else {
        (('A' as int) + d - 10) as char
    }
}

/// `port` as four upper-case hexadecimal digits (`{port:04X}`).
pub open spec fn hex4(port: u16) -> Seq<char> {
    let p = port as int;
    seq![hex_upper(p / 4096), hex_upper((p / 256) % 16), hex_upper((p / 16) % 16), hex_upper(p % 16)]
}

/// A `/proc/net/tcp` row whose local address is on `port` and whose state
/// is `0A` (listen).
pub open spec fn proc_row_listens(line: Seq<char>, port: u16) -> bool {
    let f = words(line);
    f.len() > 3 && f[3] == "0A"@ && match last_index_of(f[1], ':') {
        Some(i) => eq_ignore_ascii_case(f[1].subrange(i + 1, f[1].len() as int), hex4(port)),
        None => false,
    }
}

/// A line of the Windows port list that holds `port`.
pub open spec fn windows_row_lists(line: Seq<char>, port: u16) -> bool {
    parse_u16(trim(line)) == Some(port)
}

/// A `sockstat` row (not its header) with an endpoint on `port`.
pub open spec fn sockstat_row_listens(line: Seq<char>, port: u16) -> bool {
    !contains_sub(upper_seq(line), "LOCAL ADDRESS"@) && line_has_port(line, port)
}

/// An `ss`, `lsof` or `netstat` row in listen state with an endpoint on `port`.
pub open spec fn listen_row(line: Seq<char>, port: u16) -> bool {
    contains_sub(upper_seq(line), "LISTEN"@) && line_has_port(line, port)
}

/// The text after the first occurrence of `marker`.
pub open spec fn after_marker(s: Seq<char>, marker: Seq<char>) -> Option<Seq<char>> {
    match find_sub(s, marker) {
        Some(i) => Some(s.subrange(i + marker.len(), s.len() as int)),
        None => None,
    }
}

/// Position of the first line that contains `marker`.
pub open spec fn first_line_with(ls: Seq<Seq<char>>, marker: Seq<char>) -> Option<int>
    decreases ls.len(),
{
    if ls.len() == 0 {
        None
    } else if contains_sub(ls[0], marker) {
        Some(0)
    } else {
        match first_line_with(ls.drop_first(), marker) {
            Some(i) => Some(i + 1),
            None => None,
        }
    }
}

pub open spec fn shift_opt(o: Option<int>, d: int) -> Option<int> {
    match o {
        Some(x) => Some(x + d),
        None => None,
    }
}

pub open spec fn listening_if(b: bool) -> RemoteListenerProbe {
    if b {
        RemoteListenerProbe::Listening
    } else {
        RemoteListenerProbe::Missing
    }
}

/// What a probe output says about `port`.
pub open spec fn probe_result(output: Seq<char>, port: u16) -> RemoteListenerProbe {
    if contains_sub(output, "__PORTMATE_UNSUPPORTED__"@) {
        RemoteListenerProbe::Unsupported
    } else if after_marker(output, "__PORTMATE_WINDOWS_TCP__"@) is Some {
        let ls = lines(after_marker(output, "__PORTMATE_WINDOWS_TCP__"@)->0);
        listening_if(exists|k: int| 0 <= k < ls.len() && windows_row_lists(#[trigger] ls[k], port))
    } else if after_marker(output, "__PORTMATE_PROC__"@) is Some {
        let ls = lines(after_marker(output, "__PORTMATE_PROC__"@)->0);
        listening_if(exists|k: int| 0 <= k < ls.len() && proc_row_listens(#[trigger] ls[k], port))
    } else if contains_sub(output, "__PORTMATE_SOCKSTAT__"@) {
        let ls = lines(output);
        listening_if(
            match first_line_with(ls, "__PORTMATE_SOCKSTAT__"@) {
                Some(m) => exists|k: int| m < k < ls.len() && sockstat_row_listens(#[trigger] ls[k], port),
                None => false,
            },
        )
    } else if contains_sub(output, "__PORTMATE_SS__"@) || contains_sub(output, "__PORTMATE_LSOF__"@)
        || contains_sub(output, "__PORTMATE_NETSTAT__"@) {
        let ls = lines(output);
        listening_if(exists|k: int| 0 <= k < ls.len() && listen_row(#[trigger] ls[k], port))
    } else {
        RemoteListenerProbe::Unsupported
    }
}

proof fn lemma_punct_start_step(s: Seq<char>, i: int)
    requires
        0 <= i < s.len(),
        endpoint_punct(s[i]),
    ensures
        trim_punct_start(s.subrange(i, s.len() as int)) == trim_punct_start(s.subrange(i + 1, s.len() as int)),
{
    assert(s.subrange(i, s.len() as int).drop_first() =~= s.subrange(i + 1, s.len() as int));
}

proof fn lemma_punct_end_step(s: Seq<char>, j: int)
    requires
        0 < j <= s.len(),
        endpoint_punct(s[j - 1]),
    ensures
        trim_punct_end(s.subrange(0, j)) == trim_punct_end(s.subrange(0, j - 1)),
{
    assert(s.subrange(0, j).drop_last() =~= s.subrange(0, j - 1));
}

fn is_endpoint_punct(c: char) -> (r: bool)
    ensures
        r == endpoint_punct(c),
{
    c == ',' || c == ';' || c == '(' || c == ')'
}

/// Bounds of the endpoint inside `v[lo..hi]` with punctuation trimmed.
fn trim_punct_bounds(v: &[char], lo: usize, hi: usize) -> (r: (usize, usize))
    requires
        lo <= hi <= v@.len(),
    ensures
        lo <= r.0 <= r.1 <= hi,
        trim_punct_end(trim_punct_start(v@.subrange(lo as int, hi as int))) == v@.subrange(
            r.0 as int,
            r.1 as int,
        ),
{
    let mut i = lo;
    while i < hi && is_endpoint_punct(v[i])
        invariant
            lo <= i <= hi <= v@.len(),
            trim_punct_start(v@.subrange(lo as int, hi as int)) == trim_punct_start(
                v@.subrange(i as int, hi as int),
            ),
        decreases hi - i,
    {
        proof {
            let w = v@.subrange(0, hi as int);
            lemma_punct_start_step(w, i as int);
            assert(w.subrange(i as int, hi as int) =~= v@.subrange(i as int, hi as int));
            assert(w.subrange(i + 1, hi as int) =~= v@.subrange(i + 1, hi as int));
        }
        i = i + 1;
    }
    proof {
        let t = v@.subrange(i as int, hi as int);
        if t.len() > 0 {
            assert(t[0] == v@[i as int]);
        }
    }
    let mut j = hi;
    while j > i && is_endpoint_punct(v[j - 1])
        invariant
            lo <= i <= j <= hi <= v@.len(),
            trim_punct_end(v@.subrange(i as int, hi as int)) == trim_punct_end(
                v@.subrange(i as int, j as int),
            ),
        decreases j - i,
    {
        proof {
            let w = v@.subrange(i as int, v@.len() as int);
            lemma_punct_end_step(w, j - i);
            assert(w.subrange(0, j - i) =~= v@.subrange(i as int, j as int));
            assert(w.subrange(0, j - i - 1) =~= v@.subrange(i as int, j - 1));
        }
        j = j - 1;
    }
    proof {
        let t = v@.subrange(i as int, j as int);
        if t.len() > 0 {
            assert(t.last() == v@[j - 1]);
        }
    }
    (i, j)
}

/// The port of the endpoint `v[lo..hi]`.
fn endpoint_port_chars(v: &[char], lo: usize, hi: usize) -> (r: Option<u16>)
    requires
        lo <= hi <= v@.len(),
    ensures
        r == endpoint_port(v@.subrange(lo as int, hi as int)),
{
    let (a, b) = trim_punct_bounds(v, lo, hi);
    let ghost t = v@.subrange(a as int, b as int);
    match last_index_of_in(v, a, b, ':') {
        Some(i) => {
            proof {
                assert(t.subrange(i - a + 1, t.len() as int) =~= v@.subrange(i + 1, b as int));
            }
            parse_u16_chars(v, i + 1, b)
        },
        None => match last_index_of_in(v, a, b, '.') {
            Some(i) => {
                proof {
                    assert(t.subrange(i - a + 1, t.len() as int) =~= v@.subrange(i + 1, b as int));
                }
                parse_u16_chars(v, i + 1, b)
            },
            None => None,
        },
    }
}

/// The port of a socket endpoint field such as `127.0.0.1:8080` or `*.22`.
pub fn socket_endpoint_port(endpoint: &str) -> (r: Option<u16>)
    ensures
        r == endpoint_port(endpoint@),
{
    let v = to_chars(endpoint);
    assert(v@.subrange(0, v@.len() as int) =~= endpoint@);
    endpoint_port_chars(v.as_slice(), 0, v.len())
}

/// Some field of the line `v[lo..hi]` is an endpoint on `port`.
fn line_has_port_chars(v: &[char], lo: usize, hi: usize, port: u16) -> (r: bool)
    requires
        lo <= hi <= v@.len(),
    ensures
        r == line_has_port(v@.subrange(lo as int, hi as int), port),
{
    let fields = word_ranges(v, lo, hi);
    let ghost ws = words(v@.subrange(lo as int, hi as int));
    let mut k: usize = 0;
    while k < fields.len()
        invariant
            k <= fields@.len(),
            ranges_within(v@, fields@),
            range_views(v@, fields@) == ws,
            ws == words(v@.subrange(lo as int, hi as int)),
            forall|j: int| 0 <= j < k ==> endpoint_port(#[trigger] ws[j]) != Some(port),
        decreases fields@.len() - k,
    {
        let (a, b) = fields[k];
        proof {
            assert(ws[k as int] == v@.subrange(a as int, b as int));
        }
        if endpoint_port_chars(v, a, b) == Some(port) {
            return true;
        }
        k = k + 1;
    }
    false
}

fn hex_upper_char(d: u16) -> (c: char)
    requires
        d < 16,
    ensures
        c == hex_upper(d as int),
{
    if d == 0 { '0' } else if d == 1 { '1' } else if d == 2 { '2' } else if d == 3 { '3' }
    else if d == 4 { '4' } else if d == 5 { '5' } else if d == 6 { '6' } else if d == 7 { '7' }
    else if d == 8 { '8' } else if d == 9 { '9' } else if d == 10 { 'A' } else if d == 11 { 'B' }
    else if d == 12 { 'C' } else if d == 13 { 'D' } else if d == 14 { 'E' } else { 'F' }
}

fn hex4_chars(port: u16) -> (r: Vec<char>)
    ensures
        r@ == hex4(port),
{
    let mut v: Vec<char> = Vec::new();
    v.push(hex_upper_char(port / 4096));
    v.push(hex_upper_char((port / 256) % 16));
    v.push(hex_upper_char((port / 16) % 16));
    v.push(hex_upper_char(port % 16));
    assert(v@ =~= hex4(port));
    v
}

/// A `/proc/net/tcp` row `v[lo..hi]` that listens on `port`.
fn proc_row_listens_chars(v: &[char], lo: usize, hi: usize, hex: &Vec<char>, port: u16) -> (r: bool)
    requires
        lo <= hi <= v@.len(),
        hex@ == hex4(port),
    ensures
        r == proc_row_listens(v@.subrange(lo as int, hi as int), port),
{
    let f = word_ranges(v, lo, hi);
    let ghost ws = words(v@.subrange(lo as int, hi as int));
    if f.len() <= 3 {
        return false;
    }
    let (a3, b3) = f[3];
    let state = to_chars("0A");
    proof {
        assert(ws[3] == v@.subrange(a3 as int, b3 as int));
    }
    if !chars_eq(v, a3, b3, state.as_slice(), 0, state.len()) {
        proof {
            assert(state@.subrange(0, state@.len() as int) =~= state@);
        }
        return false;
    }
    proof {
        assert(state@.subrange(0, state@.len() as int) =~= state@);
    }
    let (a1, b1) = f[1];
    proof {
        assert(ws[1] == v@.subrange(a1 as int, b1 as int));
    }
    let ghost w1 = v@.subrange(a1 as int, b1 as int);
    match last_index_of_in(v, a1, b1, ':') {
        Some(i) => {
            proof {
                assert(w1.subrange(i - a1 + 1, w1.len() as int) =~= v@.subrange(i + 1, b1 as int));
                assert(hex@.subrange(0, 4) =~= hex@);
            }
            chars_eq_ignore_ascii_case(v, i + 1, b1, hex.as_slice(), 0, 4)
        },
        None => false,
    }
}

/// Whether `upper(v[lo..hi])` contains `p`.
fn upper_contains(v: &[char], lo: usize, hi: usize, p: &Vec<char>) -> (r: bool)
    requires
        lo <= hi <= v@.len(),
    ensures
        r == contains_sub(upper_seq(v@.subrange(lo as int, hi as int)), p@),
{
    let u = upper_chars(v, lo, hi);
    assert(u@.subrange(0, u@.len() as int) =~= u@);
    contains_chars(u.as_slice(), 0, u.len(), p.as_slice())
}

/// Some line of `rest` lists `port` (Windows port list).
fn windows_rows_list(rest: &[char], port: u16) -> (r: bool)
    ensures
        r == exists|k: int| 0 <= k < lines(rest@).len() && windows_row_lists(#[trigger] lines(rest@)[k], port),
{
    let ls = line_ranges(rest);
    let ghost lv = lines(rest@);
    let mut k: usize = 0;
    while k < ls.len()
        invariant
            k <= ls@.len(),
            ranges_within(rest@, ls@),
            range_views(rest@, ls@) == lv,
            lv == lines(rest@),
            forall|j: int| 0 <= j < k ==> !windows_row_lists(#[trigger] lv[j], port),
        decreases ls@.len() - k,
    {
        let (a, b) = ls[k];
        let (ta, tb) = trim_bounds(rest, a, b);
        proof {
            assert(lv[k as int] == rest@.subrange(a as int, b as int));
        }
        if parse_u16_chars(rest, ta, tb) == Some(port) {
            assert(windows_row_lists(lv[k as int], port));
            return true;
        }
        k = k + 1;
    }
    false
}

/// Some `/proc/net/tcp` row of `rest` listens on `port`.
fn proc_rows_listen(rest: &[char], port: u16) -> (r: bool)
    ensures
        r == exists|k: int| 0 <= k < lines(rest@).len() && proc_row_listens(#[trigger] lines(rest@)[k], port),
{
    let ls = line_ranges(rest);
    let ghost lv = lines(rest@);
    let hex = hex4_chars(port);
    let mut k: usize = 0;
    while k < ls.len()
        invariant
            k <= ls@.len(),
            ranges_within(rest@, ls@),
            range_views(rest@, ls@) == lv,
            lv == lines(rest@),
            hex@ == hex4(port),
            forall|j: int| 0 <= j < k ==> !proc_row_listens(#[trigger] lv[j], port),
        decreases ls@.len() - k,
    {
        let (a, b) = ls[k];
        proof {
            assert(lv[k as int] == rest@.subrange(a as int, b as int));
        }
        if proc_row_listens_chars(rest, a, b, &hex, port) {
            assert(proc_row_listens(lv[k as int], port));
            return true;
        }
        k = k + 1;
    }
    false
}

proof fn lemma_first_line_with(ls: Seq<Seq<char>>, marker: Seq<char>)
    ensures
        first_line_with(ls, marker) matches Some(m) ==> 0 <= m < ls.len(),
    decreases ls.len(),
{
    if ls.len() > 0 && !contains_sub(ls[0], marker) {
        lemma_first_line_with(ls.drop_first(), marker);
    }
}

proof fn lemma_first_line_step(ls: Seq<Seq<char>>, m: int, marker: Seq<char>)
    requires
        0 <= m < ls.len(),
    ensures
        contains_sub(ls[m], marker) ==> first_line_with(ls.subrange(m, ls.len() as int), marker) == Some(0int),
        !contains_sub(ls[m], marker) ==> shift_opt(first_line_with(ls.subrange(m, ls.len() as int), marker), m)
            == shift_opt(first_line_with(ls.subrange(m + 1, ls.len() as int), marker), m + 1),
{
    let tail = ls.subrange(m, ls.len() as int);
    assert(tail[0] == ls[m]);
    assert(tail.drop_first() =~= ls.subrange(m + 1, ls.len() as int));
}

/// The first line of `v` that contains `marker`.
fn first_line_containing(v: &[char], ls: &Vec<(usize, usize)>, marker: &Vec<char>) -> (r: Option<usize>)
    requires
        ranges_within(v@, ls@),
        range_views(v@, ls@) == lines(v@),
    ensures
        match first_line_with(lines(v@), marker@) {
            Some(m) => r == Some(m as usize),
            None => r is None,
        },
        r matches Some(m) ==> m < lines(v@).len() && first_line_with(lines(v@), marker@) == Some(
            m as int,
        ),
{
    let ghost lv = lines(v@);
    let mut m: usize = 0;
    proof {
        assert(lv.subrange(0, lv.len() as int) =~= lv);
    }
    while m < ls.len()
        invariant
            m <= ls@.len(),
            ranges_within(v@, ls@),
            range_views(v@, ls@) == lv,
            lv == lines(v@),
            first_line_with(lv, marker@) == shift_opt(first_line_with(lv.subrange(m as int, lv.len() as int), marker@), m as int),
        decreases ls@.len() - m,
    {
        let (a, b) = ls[m];
        proof {
            assert(lv[m as int] == v@.subrange(a as int, b as int));
            lemma_first_line_step(lv, m as int, marker@);
        }
        if contains_chars(v, a, b, marker.as_slice()) {
            return Some(m);
        }
        m = m + 1;
    }
    proof {
        assert(lv.subrange(m as int, lv.len() as int) =~= Seq::<Seq<char>>::empty());
    }
    None
}

/// After the `sockstat` marker line, some non-header row listens on `port`.
fn sockstat_rows_listen(v: &[char], ls: &Vec<(usize, usize)>, port: u16) -> (r: bool)
    requires
        ranges_within(v@, ls@),
        range_views(v@, ls@) == lines(v@),
    ensures
        r == match first_line_with(lines(v@), "__PORTMATE_SOCKSTAT__"@) {
            Some(m) => exists|k: int| m < k < lines(v@).len() && sockstat_row_listens(#[trigger] lines(v@)[k], port),
            None => false,
        },
{
    let ghost lv = lines(v@);
    let marker = to_chars("__PORTMATE_SOCKSTAT__");
    let header = to_chars("LOCAL ADDRESS");
    let m = match first_line_containing(v, ls, &marker) {
        Some(m) => m,
        None => return false,
    };
    let total = ls.len();
    assert(range_views(v@, ls@).len() == ls@.len());
    let mut k: usize = m + 1;
    while k < ls.len()
        invariant
            m < k,
            k <= ls@.len() + 1,
            m < ls@.len(),
            first_line_with(lv, "__PORTMATE_SOCKSTAT__"@) == Some(m as int),
            ranges_within(v@, ls@),
            range_views(v@, ls@) == lv,
            lv == lines(v@),
            header@ == "LOCAL ADDRESS"@,
            forall|j: int| m < j < k ==> !sockstat_row_listens(#[trigger] lv[j], port),
        decreases ls@.len() + 1 - k,
    {
        let (a, b) = ls[k];
        proof {
            assert(lv[k as int] == v@.subrange(a as int, b as int));
        }
        if !upper_contains(v, a, b, &header) && line_has_port_chars(v, a, b, port) {
            assert(sockstat_row_listens(lv[k as int], port));
            return true;
        }
        k = k + 1;
    }
    false
}

/// Some row of `v` is in listen state on `port`.
fn listen_rows(v: &[char], ls: &Vec<(usize, usize)>, port: u16) -> (r: bool)
    requires
        ranges_within(v@, ls@),
        range_views(v@, ls@) == lines(v@),
    ensures
        r == exists|k: int| 0 <= k < lines(v@).len() && listen_row(#[trigger] lines(v@)[k], port),
{
    let ghost lv = lines(v@);
    let listen = to_chars("LISTEN");
    let mut k: usize = 0;
    while k < ls.len()
        invariant
            k <= ls@.len(),
            ranges_within(v@, ls@),
            range_views(v@, ls@) == lv,
            lv == lines(v@),
            listen@ == "LISTEN"@,
            forall|j: int| 0 <= j < k ==> !listen_row(#[trigger] lv[j], port),
        decreases ls@.len() - k,
    {
        let (a, b) = ls[k];
        proof {
            assert(lv[k as int] == v@.subrange(a as int, b as int));
        }
        if upper_contains(v, a, b, &listen) && line_has_port_chars(v, a, b, port) {
            assert(listen_row(lv[k as int], port));
            return true;
        }
        k = k + 1;
    }
    false
}

/// Reads the output of the remote listener probe for `port`.
pub fn parse_remote_listener_probe(output: &str, port: u16) -> (r: RemoteListenerProbe)
    ensures
        r == probe_result(output@, port),
{
    let v = to_chars(output);
    let n = v.len();
    assert(v@.subrange(0, n as int) =~= output@);
    let unsupported = to_chars("__PORTMATE_UNSUPPORTED__");
    if contains_chars(v.as_slice(), 0, n, unsupported.as_slice()) {
        return RemoteListenerProbe::Unsupported;
    }
    let windows = to_chars("__PORTMATE_WINDOWS_TCP__");
    if let Some(i) = find_substring(v.as_slice(), 0, n, windows.as_slice()) {
        let rest = copy_range(v.as_slice(), i + windows.len(), n);
        return if windows_rows_list(rest.as_slice(), port) {
            RemoteListenerProbe::Listening
        } else {
            RemoteListenerProbe::Missing
        };
    }
    let proc_marker = to_chars("__PORTMATE_PROC__");
    if let Some(i) = find_substring(v.as_slice(), 0, n, proc_marker.as_slice()) {
        let rest = copy_range(v.as_slice(), i + proc_marker.len(), n);
        return if proc_rows_listen(rest.as_slice(), port) {
            RemoteListenerProbe::Listening
        } else {
            RemoteListenerProbe::Missing
        };
    }
    let ls = line_ranges(v.as_slice());
    let sockstat = to_chars("__PORTMATE_SOCKSTAT__");
    if contains_chars(v.as_slice(), 0, n, sockstat.as_slice()) {
        return if sockstat_rows_listen(v.as_slice(), &ls, port) {
            RemoteListenerProbe::Listening
        } else {
            RemoteListenerProbe::Missing
        };
    }
    let ss = to_chars("__PORTMATE_SS__");
    let lsof = to_chars("__PORTMATE_LSOF__");
    let netstat = to_chars("__PORTMATE_NETSTAT__");
    if contains_chars(v.as_slice(), 0, n, ss.as_slice()) || contains_chars(v.as_slice(), 0, n, lsof.as_slice())
        || contains_chars(v.as_slice(), 0, n, netstat.as_slice()) {
        return if listen_rows(v.as_slice(), &ls, port) {
            RemoteListenerProbe::Listening
        } else {
            RemoteListenerProbe::Missing
        };
    }
    RemoteListenerProbe::Unsupported
}

} // verus!

verus! {

/// Output of the `ss`, `lsof` or `netstat` branch of the probe (and of no
/// branch that comes before them) is never unsupported: the port is
/// listening exactly when some line is in listen state (`LISTEN` in any
/// case) and has a white-space separated field whose endpoint is on the
/// port, and missing otherwise.
pub proof fn lemma_listen_table_probe(output: Seq<char>, port: u16)
    requires
        !contains_sub(output, "__PORTMATE_UNSUPPORTED__"@),
        !contains_sub(output, "__PORTMATE_WINDOWS_TCP__"@),
        !contains_sub(output, "__PORTMATE_PROC__"@),
        !contains_sub(output, "__PORTMATE_SOCKSTAT__"@),
        contains_sub(output, "__PORTMATE_SS__"@) || contains_sub(output, "__PORTMATE_LSOF__"@) || contains_sub(
            output,
            "__PORTMATE_NETSTAT__"@,
        ),
    ensures
        probe_result(output, port) != RemoteListenerProbe::Unsupported,
        probe_result(output, port) == RemoteListenerProbe::Listening <==> exists|k: int|
            0 <= k < lines(output).len() && contains_sub(upper_seq(#[trigger] lines(output)[k]), "LISTEN"@)
                && exists|j: int|
                0 <= j < words(lines(output)[k]).len() && endpoint_port(#[trigger] words(lines(output)[k])[j])
                    == Some(port),
{
    let ls = lines(output);
    if exists|k: int| 0 <= k < ls.len() && listen_row(#[trigger] ls[k], port) {
        let k = choose|k: int| 0 <= k < ls.len() && listen_row(#[trigger] ls[k], port);
        assert(contains_sub(upper_seq(ls[k]), "LISTEN"@));
        let j = choose|j: int| 0 <= j < words(ls[k]).len() && endpoint_port(#[trigger] words(ls[k])[j]) == Some(port);
        assert(endpoint_port(words(lines(output)[k])[j]) == Some(port));
    } else {
        assert forall|k: int|
            0 <= k < lines(output).len() && contains_sub(upper_seq(#[trigger] lines(output)[k]), "LISTEN"@) implies !(
        exists|j: int|
            0 <= j < words(lines(output)[k]).len() && endpoint_port(#[trigger] words(lines(output)[k])[j])
                == Some(port)) by {
            assert(!listen_row(ls[k], port));
        }
    }
}

} // verus!
