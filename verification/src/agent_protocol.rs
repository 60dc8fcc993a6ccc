//! The SSH agent wire protocol as seen by a filtering agent proxy: framing of
//! `u32` lengths and SSH strings, the identities answer that is narrowed down
//! to the identities a profile allows, and the key blob of a sign request.
use vstd::prelude::*;
use crate::identity::IdentityRef;
use crate::text::{opt_view, trim, trim_string, str_eq};

verus! {

pub const SSH_AGENT_FAILURE: u8 = 5;
pub const SSH_AGENT_REQUEST_IDENTITIES: u8 = 11;
pub const SSH_AGENT_IDENTITIES_ANSWER: u8 = 12;
pub const SSH_AGENT_SIGN_REQUEST: u8 = 13;
pub const MAX_FILTERED_AGENT_FRAME_BYTES: usize = 262144;
pub const MAX_FILTERED_AGENT_CONNECTIONS: usize = 8;

/// The big-endian `u32` stored at `s[off..off + 4]`.
pub open spec fn be_u32(s: Seq<u8>, off: int) -> int {
    s[off] * 16777216 + s[off + 1] * 65536 + s[off + 2] * 256 + s[off + 3]
}

/// The four big-endian bytes of `n`.
#[verifier::opaque]
pub open spec fn be_u32_bytes(n: nat) -> Seq<u8> {
    seq![
        ((n / 16777216) % 256) as u8,
        ((n / 65536) % 256) as u8,
        ((n / 256) % 256) as u8,
        (n % 256) as u8,
    ]
}

pub proof fn lemma_be_u32_bytes_len(n: nat)
    ensures
        #[trigger] be_u32_bytes(n).len() == 4,
{
    reveal(be_u32_bytes);
}

/// Reading a `u32` at `off`: present exactly when four bytes remain.
pub open spec fn spec_read_u32(s: Seq<u8>, off: int) -> Option<u32> {
    if 0 <= off && off + 4 <= s.len() {
        Some(be_u32(s, off) as u32)
    } else {
        None
    }
}

/// Reading an SSH string at `off`: its bytes and the offset just past it.
pub open spec fn spec_read_string(s: Seq<u8>, off: int) -> Option<(Seq<u8>, int)> {
    match spec_read_u32(s, off) {
        Some(n) => if off + 4 + n <= s.len() {
            Some((s.subrange(off + 4, off + 4 + n), off + 4 + n))
        } else {
            None
        },
        None => None,
    }
}

/// The wire form of an SSH string: a big-endian length and the bytes.
pub open spec fn ssh_string(v: Seq<u8>) -> Seq<u8> {
    be_u32_bytes(v.len()) + v
}

/// Parsing `count` (key, comment) pairs of an identities answer from `off`.
pub enum IdentityListParse {
    Parsed(Seq<(Seq<u8>, Seq<u8>)>, int),
    CorruptKey,
    CorruptComment,
}

pub open spec fn parse_identity_list(s: Seq<u8>, off: int, count: nat) -> IdentityListParse
    decreases count,
{
    if count == 0 {
        IdentityListParse::Parsed(seq![], off)
    } else {
        match spec_read_string(s, off) {
            None => IdentityListParse::CorruptKey,
            Some((key, o1)) => match spec_read_string(s, o1) {
                None => IdentityListParse::CorruptComment,
                Some((comment, o2)) => prepend_entries(
                    seq![(key, comment)],
                    parse_identity_list(s, o2, (count - 1) as nat),
                ),
            },
        }
    }
}

pub open spec fn prepend_entries(
    es: Seq<(Seq<u8>, Seq<u8>)>,
    p: IdentityListParse,
) -> IdentityListParse {
    match p {
        IdentityListParse::Parsed(rest, end) => IdentityListParse::Parsed(es + rest, end),
        other => other,
    }
}

/// The fingerprint that a key blob has as an OpenSSH public key
/// (`None` when the blob is not one).
pub uninterp spec fn public_key_blob_fingerprint(blob: Seq<u8>) -> Option<Seq<char>>;

/// The fingerprint of the key certified by a blob that is an OpenSSH
/// certificate (`None` when the blob is not one).
pub uninterp spec fn certificate_blob_fingerprint(blob: Seq<u8>) -> Option<Seq<char>>;

/// The SHA-256 fingerprint of an agent key blob: as a public key, or else as
/// the key of a certificate.
pub open spec fn blob_fingerprint(blob: Seq<u8>) -> Option<Seq<char>> {
    match public_key_blob_fingerprint(blob) {
        Some(f) => Some(f),
        None => certificate_blob_fingerprint(blob),
    }
}

/// Whether one identity reference admits an agent identity: by fingerprint
/// when it has one, else by its path, else by its label, the last two
/// compared with the identity comment byte for byte.
pub open spec fn identity_ref_admits(
    r: IdentityRef,
    fingerprint: Option<Seq<char>>,
    comment: Seq<u8>,
) -> bool {
    if r.fingerprint_sha256 is Some && trim(r.fingerprint_sha256->0@).len() > 0 {
        fingerprint == Some(trim(r.fingerprint_sha256->0@))
    } else if r.path is Some && trim(r.path->0@).len() > 0 {
        vstd::utf8::encode_utf8(r.path->0@) == comment
    } else {
        trim(r.label@).len() > 0 && vstd::utf8::encode_utf8(r.label@) == comment
    }
}

/// Some identity reference admits the agent identity `(key, comment)`.
pub open spec fn identity_selected(refs: Seq<IdentityRef>, key: Seq<u8>, comment: Seq<u8>) -> bool {
    exists|i: int| 0 <= i < refs.len() && identity_ref_admits(#[trigger] refs[i], blob_fingerprint(key), comment)
}

/// The entries of an identities answer that the references admit, in order.
pub open spec fn select_entries(
    refs: Seq<IdentityRef>,
    es: Seq<(Seq<u8>, Seq<u8>)>,
) -> Seq<(Seq<u8>, Seq<u8>)>
    decreases es.len(),
{
    if es.len() == 0 {
        seq![]
    } else {
        let prev = select_entries(refs, es.drop_last());
        if identity_selected(refs, es.last().0, es.last().1) {
            prev.push(es.last())
        } else {
            prev
        }
    }
}

/// The wire form of identity entries, each a key string and a comment string.
pub open spec fn encode_entries(es: Seq<(Seq<u8>, Seq<u8>)>) -> Seq<u8>
    decreases es.len(),
{
    if es.len() == 0 {
        seq![]
    } else {
        encode_entries(es.drop_last()) + ssh_string(es.last().0) + ssh_string(es.last().1)
    }
}

/// An identities answer listing `es`.
pub open spec fn identities_answer(es: Seq<(Seq<u8>, Seq<u8>)>) -> Seq<u8> {
    seq![SSH_AGENT_IDENTITIES_ANSWER] + be_u32_bytes(es.len()) + encode_entries(es)
}

/// Every entry has lengths that fit a `u32`.
pub open spec fn entries_fit(es: Seq<(Seq<u8>, Seq<u8>)>) -> bool {
    forall|i: int| 0 <= i < es.len() ==> (#[trigger] es[i]).0.len() <= u32::MAX && es[i].1.len() <= u32::MAX
}

/// The outcome of filtering an agent response through identity references.
pub enum FilterOutcome {
    PassThrough,
    MissingCount,
    CorruptKey,
    CorruptComment,
    TrailingData,
    Filtered(Seq<(Seq<u8>, Seq<u8>)>),
}

pub open spec fn filter_outcome(resp: Seq<u8>, refs: Seq<IdentityRef>) -> FilterOutcome {
    if resp.len() == 0 || resp[0] != SSH_AGENT_IDENTITIES_ANSWER {
        FilterOutcome::PassThrough
    } else {
        match spec_read_u32(resp, 1) {
            None => FilterOutcome::MissingCount,
            Some(count) => match parse_identity_list(resp, 5, count as nat) {
                IdentityListParse::CorruptKey => FilterOutcome::CorruptKey,
                IdentityListParse::CorruptComment => FilterOutcome::CorruptComment,
                IdentityListParse::Parsed(es, end) => if end != resp.len() {
                    FilterOutcome::TrailingData
                } else {
                    FilterOutcome::Filtered(select_entries(refs, es))
                },
            },
        }
    }
}

pub proof fn lemma_be_u32_roundtrip(n: nat)
    requires
        n <= u32::MAX,
    ensures
        be_u32(be_u32_bytes(n), 0) == n,
        be_u32_bytes(n).len() == 4,
{
    reveal(be_u32_bytes);
    let b = be_u32_bytes(n);
    let a = (n / 16777216) % 256;
    let bb = (n / 65536) % 256;
    let c = (n / 256) % 256;
    let d = n % 256;
    assert(b[0] == a && b[1] == bb && b[2] == c && b[3] == d);
    assert(a * 16777216 + bb * 65536 + c * 256 + d == n) by (nonlinear_arith)
        requires
            n <= u32::MAX,
            a == (n / 16777216) % 256,
            bb == (n / 65536) % 256,
            c == (n / 256) % 256,
            d == n % 256,
    ;
}


/// Reads a big-endian `u32` at `*offset`, advancing the offset past it.
pub fn read_u32(value: &[u8], offset: &mut usize) -> (r: Option<u32>)
    ensures
        r == spec_read_u32(value@, *old(offset) as int),
        r is Some ==> *final(offset) == *old(offset) + 4,
        r is None ==> *final(offset) == *old(offset),
{
    let off = *offset;
    if off > value.len() || value.len() - off < 4 {
        return None;
    }
    let b0 = value[off] as u32;
    let b1 = value[off + 1] as u32;
    let b2 = value[off + 2] as u32;
    let b3 = value[off + 3] as u32;
    let n = b0 * 16777216 + b1 * 65536 + b2 * 256 + b3;
    *offset = off + 4;
    Some(n)
}

/// Reads an SSH string at `*offset`. On success the offset moves past the
/// string; when only the length could be read it moves past the length.
pub fn read_ssh_string<'a>(value: &'a [u8], offset: &mut usize) -> (r: Option<&'a [u8]>)
    ensures
        match spec_read_string(value@, *old(offset) as int) {
            Some((v, end)) => r is Some && r->0@ == v && *final(offset) == end,
            None => r is None && *final(offset) == (if spec_read_u32(
                value@,
                *old(offset) as int,
            ) is Some {
                *old(offset) + 4
            } else {
                *old(offset) as int
            }),
        },
{
    let length = match read_u32(value, offset) {
        Some(n) => n as usize,
        None => return None,
    };
    let start = *offset;
    if length > value.len() - start {
        return None;
    }
    let end = start + length;
    *offset = end;
    Some(&value[start..end])
}

/// Appends `value` to `target` as an SSH string; fails when its length does
/// not fit in a `u32`, leaving `target` unchanged.
pub fn push_ssh_string(target: &mut Vec<u8>, value: &[u8]) -> (r: Result<(), String>)
    ensures
        r is Ok <==> value@.len() <= u32::MAX,
        r is Ok ==> final(target)@ == old(target)@ + ssh_string(value@),
        r is Err ==> final(target)@ == old(target)@,
{
    if value.len() > 0xffff_ffff {
        return Err(String::from_str("SSH agent 字符串超出协议边界"));
    }
    push_be_u32(target, value.len() as u32);
    let mut i: usize = 0;
    let ghost start = target@;
    while i < value.len()
        invariant
            i <= value@.len(),
            target@ == start + value@.subrange(0, i as int),
        decreases value@.len() - i,
    {
        target.push(value[i]);
        i = i + 1;
        assert(target@ =~= start + value@.subrange(0, i as int));
    }
    assert(value@.subrange(0, value@.len() as int) =~= value@);
    assert(target@ =~= old(target)@ + ssh_string(value@));
    Ok(())
}

/// Appends the four big-endian bytes of `n`.
pub fn push_be_u32(target: &mut Vec<u8>, n: u32)
    ensures
        final(target)@ == old(target)@ + be_u32_bytes(n as nat),
{
    reveal(be_u32_bytes);
    target.push((n / 16777216) as u8);
    target.push(((n / 65536) % 256) as u8);
    target.push(((n / 256) % 256) as u8);
    target.push((n % 256) as u8);
    assert(target@ =~= old(target)@ + be_u32_bytes(n as nat));
}

/// The key blob that a sign request asks the agent to use.
pub fn sign_request_key_blob(request: &[u8]) -> (r: Option<&[u8]>)
    ensures
        match r {
            Some(b) => request@.len() > 0 && request@[0] == SSH_AGENT_SIGN_REQUEST && (
            spec_read_string(request@, 1) matches Some((v, _)) && b@ == v),
            None => request@.len() == 0 || request@[0] != SSH_AGENT_SIGN_REQUEST
                || spec_read_string(request@, 1) is None,
        },
{
    if request.len() == 0 || request[0] != SSH_AGENT_SIGN_REQUEST {
        return None;
    }
    let mut offset: usize = 1;
    read_ssh_string(request, &mut offset)
}

/// Byte-for-byte equality of two byte sequences.
pub fn bytes_eq(a: &[u8], b: &[u8]) -> (r: bool)
    ensures
        r == (a@ == b@),
{
    if a.len() != b.len() {
        return false;
    }
    let mut i: usize = 0;
    while i < a.len()
        invariant
            a@.len() == b@.len(),
            i <= a@.len(),
            forall|k: int| 0 <= k < i ==> a@[k] == b@[k],
        decreases a@.len() - i,
    {
        if a[i] != b[i] {
            return false;
        }
        i = i + 1;
    }
    assert(a@ =~= b@);
    true
}

/// Parses `key` as an OpenSSH public key blob (`ssh_key::PublicKey::from_bytes`)
/// and formats its SHA-256 fingerprint (`ssh_key::PublicKey::fingerprint`,
/// displayed as `SHA256:` and unpadded base64). The contract only names the
/// result as a function of the blob.
#[verifier::external_body]
fn public_key_fingerprint(key: &[u8]) -> (r: Option<String>)
    ensures
        match r {
            Some(f) => public_key_blob_fingerprint(key@) == Some(f@),
            None => public_key_blob_fingerprint(key@) is None,
        },
{
    match ssh_key::PublicKey::from_bytes(key) {
        Ok(public_key) => Some(public_key.fingerprint(ssh_key::HashAlg::Sha256).to_string()),
        Err(_) => None,
    }
}

/// Parses `key` as an OpenSSH certificate blob (`ssh_key::Certificate::from_bytes`)
/// and formats the SHA-256 fingerprint of the certified key
/// (`ssh_key::public::KeyData::fingerprint`). The contract only names the
/// result as a function of the blob.
#[verifier::external_body]
fn certificate_fingerprint(key: &[u8]) -> (r: Option<String>)
    ensures
        match r {
            Some(f) => certificate_blob_fingerprint(key@) == Some(f@),
            None => certificate_blob_fingerprint(key@) is None,
        },
{
    match ssh_key::Certificate::from_bytes(key) {
        Ok(certificate) => Some(
            certificate.public_key().fingerprint(ssh_key::HashAlg::Sha256).to_string(),
        ),
        Err(_) => None,
    }
}

/// The SHA-256 fingerprint of an agent key blob.
pub fn agent_identity_blob_fingerprint(key: &[u8]) -> (r: Option<String>)
    ensures
        match r {
            Some(f) => blob_fingerprint(key@) == Some(f@),
            None => blob_fingerprint(key@) is None,
        },
{
    match public_key_fingerprint(key) {
        Some(f) => Some(f),
        None => certificate_fingerprint(key),
    }
}

/// Whether one identity reference admits the identity.
pub fn identity_ref_admits_exec(
    r: &IdentityRef,
    fingerprint: &Option<String>,
    comment: &[u8],
) -> (b: bool)
    ensures
        b == identity_ref_admits(*r, opt_view(*fingerprint), comment@),
{
    if let Some(expected) = &r.fingerprint_sha256 {
        let expected = trim_string(expected.as_str());
        if expected.unicode_len() > 0 {
            return match fingerprint {
                Some(f) => str_eq(f.as_str(), expected.as_str()),
                None => false,
            };
        }
    }
    if let Some(path) = &r.path {
        let trimmed = trim_string(path.as_str());
        if trimmed.unicode_len() > 0 {
            return bytes_eq(path.as_str().as_bytes(), comment);
        }
    }
    let label = trim_string(r.label.as_str());
    label.unicode_len() > 0 && bytes_eq(r.label.as_str().as_bytes(), comment)
}

/// Whether any identity reference admits the agent identity `(key, comment)`.
pub fn agent_identity_blob_matches(key: &[u8], comment: &[u8], identity_refs: &[IdentityRef]) -> (b: bool)
    ensures
        b == identity_selected(identity_refs@, key@, comment@),
{
    let fingerprint = agent_identity_blob_fingerprint(key);
    let ghost fp = opt_view(fingerprint);
    let mut i: usize = 0;
    while i < identity_refs.len()
        invariant
            i <= identity_refs@.len(),
            fp == blob_fingerprint(key@),
            fp == opt_view(fingerprint),
            forall|k: int| 0 <= k < i ==> !identity_ref_admits(#[trigger] identity_refs@[k], fp, comment@),
        decreases identity_refs@.len() - i,
    {
        if identity_ref_admits_exec(&identity_refs[i], &fingerprint, comment) {
            return true;
        }
        i = i + 1;
    }
    false
}

} // verus!

verus! {

pub proof fn lemma_prepend_step(
    parsed: Seq<(Seq<u8>, Seq<u8>)>,
    e: (Seq<u8>, Seq<u8>),
    p: IdentityListParse,
)
    ensures
        prepend_entries(parsed, prepend_entries(seq![e], p)) == prepend_entries(parsed.push(e), p),
{
    match p {
        IdentityListParse::Parsed(rest, end) => {
            assert(parsed + (seq![e] + rest) =~= parsed.push(e) + rest);
        },
        _ => {},
    }
}

pub proof fn lemma_select_push(
    refs: Seq<IdentityRef>,
    es: Seq<(Seq<u8>, Seq<u8>)>,
    e: (Seq<u8>, Seq<u8>),
)
    ensures
        select_entries(refs, es.push(e)) == if identity_selected(refs, e.0, e.1) {
            select_entries(refs, es).push(e)
        } else {
            select_entries(refs, es)
        },
{
    assert(es.push(e).drop_last() =~= es);
}

pub proof fn lemma_select_len(refs: Seq<IdentityRef>, es: Seq<(Seq<u8>, Seq<u8>)>)
    ensures
        select_entries(refs, es).len() <= es.len(),
    decreases es.len(),
{
    if es.len() > 0 {
        lemma_select_len(refs, es.drop_last());
    }
}

pub proof fn lemma_encode_prefix(es: Seq<(Seq<u8>, Seq<u8>)>, j: int)
    requires
        0 <= j < es.len(),
    ensures
        encode_entries(es.subrange(0, j + 1)) == encode_entries(es.subrange(0, j)) + ssh_string(
            es[j].0,
        ) + ssh_string(es[j].1),
{
    assert(es.subrange(0, j + 1).drop_last() =~= es.subrange(0, j));
}

/// Copies a byte slice into a vector.
pub fn bytes_to_vec(s: &[u8]) -> (v: Vec<u8>)
    ensures
        v@ == s@,
{
    let mut v: Vec<u8> = Vec::new();
    let mut i: usize = 0;
    while i < s.len()
        invariant
            i <= s@.len(),
            v@ == s@.subrange(0, i as int),
        decreases s@.len() - i,
    {
        v.push(s[i]);
        i = i + 1;
        assert(v@ =~= s@.subrange(0, i as int));
    }
    assert(v@ =~= s@);
    v
}

/// No two of the blobs hold the same bytes.
pub open spec fn distinct_blobs(v: Seq<Vec<u8>>) -> bool {
    forall|i: int, j: int| 0 <= i < j < v.len() ==> (#[trigger] v[i])@ != (#[trigger] v[j])@
}

/// One of the blobs holds the bytes `x`.
pub open spec fn holds_blob(v: Seq<Vec<u8>>, x: Seq<u8>) -> bool {
    exists|i: int| 0 <= i < v.len() && (#[trigger] v[i])@ == x
}

/// Adds `key` to a set of blobs unless it holds it already.
fn insert_blob(set: &mut Vec<Vec<u8>>, key: &[u8])
    requires
        distinct_blobs(old(set)@),
    ensures
        distinct_blobs(final(set)@),
        forall|x: Seq<u8>| holds_blob(final(set)@, x) <==> (holds_blob(old(set)@, x) || x == key@),
{
    let mut i: usize = 0;
    while i < set.len()
        invariant
            i <= set@.len(),
            set@ == old(set)@,
            distinct_blobs(set@),
            forall|k: int| 0 <= k < i ==> (#[trigger] set@[k])@ != key@,
        decreases set@.len() - i,
    {
        if bytes_eq(set[i].as_slice(), key) {
            assert(forall|x: Seq<u8>| x == key@ ==> holds_blob(set@, x));
            return;
        }
        i = i + 1;
    }
    let ghost before = set@;
    let k = bytes_to_vec(key);
    set.push(k);
    assert forall|x: Seq<u8>| holds_blob(set@, x) <==> (holds_blob(before, x) || x == key@) by {
        if holds_blob(set@, x) {
            let i = choose|i: int| 0 <= i < set@.len() && (#[trigger] set@[i])@ == x;
            if i < before.len() {
                assert(before[i] == set@[i]);
            }
        }
        if holds_blob(before, x) {
            let i = choose|i: int| 0 <= i < before.len() && (#[trigger] before[i])@ == x;
            assert(set@[i] == before[i]);
        }
        if x == key@ {
            assert(set@[before.len() as int]@ == x);
        }
    }
}

/// Narrows an agent identities answer to the identities that `identity_refs`
/// admit. Any other response passes through unchanged. Returns the rebuilt
/// answer and the set of key blobs that it lists, each once; a malformed
/// answer is an error.
pub fn filter_identity_response(response: &[u8], identity_refs: &[IdentityRef]) -> (r: Result<
    (Vec<u8>, Vec<Vec<u8>>),
    String,
>)
    ensures
        match filter_outcome(response@, identity_refs@) {
            FilterOutcome::PassThrough => r matches Ok((out, sel)) && out@ == response@
                && sel@.len() == 0,
            FilterOutcome::MissingCount => r matches Err(e) && e@
                == "SSH agent identities 响应缺少数量"@,
            FilterOutcome::CorruptKey => r matches Err(e) && e@
                == "SSH agent identities 响应包含损坏的公钥"@,
            FilterOutcome::CorruptComment => r matches Err(e) && e@
                == "SSH agent identities 响应包含损坏的注释"@,
            FilterOutcome::TrailingData => r matches Err(e) && e@
                == "SSH agent identities 响应包含尾随数据"@,
            FilterOutcome::Filtered(es) => r matches Ok((out, sel)) && out@ == identities_answer(es)
                && distinct_blobs(sel@) && forall|x: Seq<u8>|
                #[trigger] holds_blob(sel@, x) <==> exists|j: int| 0 <= j < es.len() && (#[trigger] es[j]).0
                    == x,
        },
{
    if response.len() == 0 || response[0] != SSH_AGENT_IDENTITIES_ANSWER {
        return Ok((bytes_to_vec(response), Vec::new()));
    }
    let mut offset: usize = 1;
    let count = match read_u32(response, &mut offset) {
        Some(c) => c,
        None => return Err(String::from_str("SSH agent identities 响应缺少数量")),
    };
    let ghost resp = response@;
    let ghost refs = identity_refs@;
    let ghost mut parsed: Seq<(Seq<u8>, Seq<u8>)> = seq![];
    let mut keys: Vec<Vec<u8>> = Vec::new();
    let mut comments: Vec<Vec<u8>> = Vec::new();
    let mut i: u32 = 0;
    while i < count
        invariant
            resp == response@,
            refs == identity_refs@,
            resp.len() > 0 && resp[0] == SSH_AGENT_IDENTITIES_ANSWER,
            spec_read_u32(resp, 1) == Some(count),
            i <= count,
            5 <= offset <= resp.len(),
            parsed.len() == i,
            parse_identity_list(resp, 5, count as nat) == prepend_entries(
                parsed,
                parse_identity_list(resp, offset as int, (count - i) as nat),
            ),
            keys@.len() == select_entries(refs, parsed).len(),
            comments@.len() == keys@.len(),
            forall|j: int|
                0 <= j < keys@.len() ==> (#[trigger] keys@[j])@ == select_entries(refs, parsed)[j].0
                    && comments@[j]@ == select_entries(refs, parsed)[j].1
                    && keys@[j]@.len() <= u32::MAX && comments@[j]@.len() <= u32::MAX,
        decreases count - i,
    {
        let ghost before = offset;
        let key = match read_ssh_string(response, &mut offset) {
            Some(k) => k,
            None => {
                return Err(String::from_str("SSH agent identities 响应包含损坏的公钥"));
            },
        };
        let comment = match read_ssh_string(response, &mut offset) {
            Some(c) => c,
            None => {
                return Err(String::from_str("SSH agent identities 响应包含损坏的注释"));
            },
        };
        let ghost e = (key@, comment@);
        proof {
            let n1 = spec_read_u32(resp, before as int)->0;
            assert(key@.len() == n1);
            let n2 = spec_read_u32(resp, before + 4 + n1)->0;
            assert(comment@.len() == n2);
            lemma_prepend_step(
                parsed,
                e,
                parse_identity_list(resp, offset as int, (count - i - 1) as nat),
            );
            lemma_select_push(refs, parsed, e);
        }
        let ghost old_keys = keys@;
        let ghost old_comments = comments@;
        if agent_identity_blob_matches(key, comment, identity_refs) {
            keys.push(bytes_to_vec(key));
            comments.push(bytes_to_vec(comment));
            assert(keys@ == old_keys.push(keys@.last()));
        }
        proof {
            parsed = parsed.push(e);
        }
        i = i + 1;
    }
    proof {
        assert(parsed + seq![] =~= parsed);
    }
    if offset != response.len() {
        return Err(String::from_str("SSH agent identities 响应包含尾随数据"));
    }
    let ghost sel = select_entries(refs, parsed);
    proof {
        lemma_select_len(refs, parsed);
    }
    let mut filtered: Vec<u8> = Vec::new();
    filtered.push(SSH_AGENT_IDENTITIES_ANSWER);
    push_be_u32(&mut filtered, keys.len() as u32);
    let mut j: usize = 0;
    while j < keys.len()
        invariant
            sel == select_entries(refs, parsed),
            keys@.len() == sel.len(),
            comments@.len() == sel.len(),
            sel.len() <= u32::MAX,
            j <= keys@.len(),
            forall|k: int|
                0 <= k < keys@.len() ==> (#[trigger] keys@[k])@ == sel[k].0 && comments@[k]@
                    == sel[k].1 && keys@[k]@.len() <= u32::MAX && comments@[k]@.len() <= u32::MAX,
            filtered@ == seq![SSH_AGENT_IDENTITIES_ANSWER] + be_u32_bytes(sel.len())
                + encode_entries(sel.subrange(0, j as int)),
        decreases keys@.len() - j,
    {
        proof {
            lemma_encode_prefix(sel, j as int);
        }
        let a = push_ssh_string(&mut filtered, keys[j].as_slice());
        let b = push_ssh_string(&mut filtered, comments[j].as_slice());
        j = j + 1;
        assert(filtered@ =~= seq![SSH_AGENT_IDENTITIES_ANSWER] + be_u32_bytes(sel.len())
            + encode_entries(sel.subrange(0, j as int)));
    }
    assert(sel.subrange(0, sel.len() as int) =~= sel);
    let mut blobs: Vec<Vec<u8>> = Vec::new();
    let mut m: usize = 0;
    while m < keys.len()
        invariant
            m <= keys@.len(),
            distinct_blobs(blobs@),
            forall|x: Seq<u8>|
                #[trigger] holds_blob(blobs@, x) <==> exists|k: int| 0 <= k < m && (#[trigger] keys@[k])@ == x,
        decreases keys@.len() - m,
    {
        let ghost before = blobs@;
        insert_blob(&mut blobs, keys[m].as_slice());
        assert forall|x: Seq<u8>|
            #[trigger] holds_blob(blobs@, x) <==> exists|k: int| 0 <= k < m + 1 && (#[trigger] keys@[k])@ == x by {
            if x == keys@[m as int]@ {
                assert(keys@[m as int]@ == x);
            }
            if exists|k: int| 0 <= k < m + 1 && (#[trigger] keys@[k])@ == x {
                let k = choose|k: int| 0 <= k < m + 1 && (#[trigger] keys@[k])@ == x;
                if k < m {
                    assert(holds_blob(before, x));
                }
            }
        }
        m = m + 1;
    }
    assert forall|x: Seq<u8>|
        #[trigger] holds_blob(blobs@, x) <==> exists|j: int| 0 <= j < sel.len() && (#[trigger] sel[j]).0 == x by {
        if holds_blob(blobs@, x) {
            let k = choose|k: int| 0 <= k < keys@.len() && (#[trigger] keys@[k])@ == x;
            assert(sel[k].0 == x);
        }
        if exists|j: int| 0 <= j < sel.len() && (#[trigger] sel[j]).0 == x {
            let j = choose|j: int| 0 <= j < sel.len() && (#[trigger] sel[j]).0 == x;
            assert(keys@[j]@ == x);
        }
    }
    Ok((filtered, blobs))
}

} // verus!

verus! {

/// An SSH string written after any prefix reads back as the same bytes,
/// whatever follows it.
pub proof fn lemma_ssh_string_roundtrip(prefix: Seq<u8>, v: Seq<u8>, suffix: Seq<u8>)
    requires
        v.len() <= u32::MAX,
    ensures
        spec_read_string(prefix + ssh_string(v) + suffix, prefix.len() as int) == Some(
            (v, (prefix.len() + 4 + v.len()) as int),
        ),
        ssh_string(v).len() == 4 + v.len(),
{
    lemma_be_u32_bytes_len(v.len());
    let s = prefix + ssh_string(v) + suffix;
    let p = prefix.len() as int;
    lemma_be_u32_roundtrip(v.len());
    let b = be_u32_bytes(v.len());
    assert(s[p] == b[0] && s[p + 1] == b[1] && s[p + 2] == b[2] && s[p + 3] == b[3]);
    assert(be_u32(s, p) == be_u32(b, 0));
    assert(s.subrange(p + 4, p + 4 + v.len()) =~= v);
}

pub proof fn lemma_encode_front(es: Seq<(Seq<u8>, Seq<u8>)>)
    requires
        es.len() > 0,
    ensures
        encode_entries(es) == ssh_string(es[0].0) + ssh_string(es[0].1) + encode_entries(
            es.drop_first(),
        ),
    decreases es.len(),
{
    if es.len() == 1 {
        assert(es.drop_last() =~= seq![]);
        assert(es.drop_first() =~= seq![]);
        assert(encode_entries(es) =~= ssh_string(es[0].0) + ssh_string(es[0].1) + encode_entries(
            es.drop_first(),
        ));
    } else {
        lemma_encode_front(es.drop_last());
        assert(es.drop_last()[0] == es[0]);
        assert(es.drop_last().drop_first() =~= es.drop_first().drop_last());
        assert(es.drop_first().last() == es.last());
        assert(encode_entries(es) =~= ssh_string(es[0].0) + ssh_string(es[0].1) + encode_entries(
            es.drop_first(),
        ));
    }
}

pub proof fn lemma_parse_step(s: Seq<u8>, p: int, k: Seq<u8>, c: Seq<u8>, n: nat)
    requires
        spec_read_string(s, p) == Some((k, p + 4 + k.len())),
        spec_read_string(s, p + 4 + k.len()) == Some((c, p + 8 + k.len() + c.len())),
    ensures
        parse_identity_list(s, p, n + 1) == prepend_entries(
            seq![(k, c)],
            parse_identity_list(s, p + 8 + k.len() + c.len(), n),
        ),
{
}

pub proof fn lemma_reads_pair(prefix: Seq<u8>, k: Seq<u8>, c: Seq<u8>, t: Seq<u8>)
    requires
        k.len() <= u32::MAX,
        c.len() <= u32::MAX,
    ensures
        spec_read_string(prefix + ssh_string(k) + ssh_string(c) + t, prefix.len() as int) == Some(
            (k, (prefix.len() + 4 + k.len()) as int),
        ),
        spec_read_string(prefix + ssh_string(k) + ssh_string(c) + t, (prefix.len() + 4 + k.len()) as int)
            == Some((c, (prefix.len() + 8 + k.len() + c.len()) as int)),
{
    let s = prefix + ssh_string(k) + ssh_string(c) + t;
    assert(s =~= prefix + ssh_string(k) + (ssh_string(c) + t));
    lemma_ssh_string_roundtrip(prefix, k, ssh_string(c) + t);
    lemma_ssh_string_roundtrip(prefix + ssh_string(k), c, t);
}

#[verifier::spinoff_prover]
pub proof fn lemma_parse_encoded(
    prefix: Seq<u8>,
    es: Seq<(Seq<u8>, Seq<u8>)>,
    suffix: Seq<u8>,
)
    requires
        entries_fit(es),
    ensures
        parse_identity_list(prefix + encode_entries(es) + suffix, prefix.len() as int, es.len())
            == IdentityListParse::Parsed(es, (prefix.len() + encode_entries(es).len()) as int),
    decreases es.len(),
{
    if es.len() == 0 {
        assert(es =~= seq![]);
    } else {
        lemma_encode_front(es);
        let k = es[0].0;
        let c = es[0].1;
        let rest = es.drop_first();
        assert(entries_fit(rest)) by {
            assert forall|i: int| 0 <= i < rest.len() implies (#[trigger] rest[i]).0.len()
                <= u32::MAX && rest[i].1.len() <= u32::MAX by {
                assert(rest[i] == es[i + 1]);
            }
        }
        let sk = ssh_string(k);
        let sc = ssh_string(c);
        let er = encode_entries(rest);
        lemma_be_u32_bytes_len(k.len());
        lemma_be_u32_bytes_len(c.len());
        lemma_reads_pair(prefix, k, c, er + suffix);
        let s0 = prefix + sk + sc + (er + suffix);
        let p = prefix.len() as int;
        lemma_parse_encoded(prefix + sk + sc, rest, suffix);
        assert(prefix + sk + sc + er + suffix =~= s0);
        lemma_parse_step(s0, p, k, c, rest.len());
        assert(prefix + encode_entries(es) + suffix =~= s0);
        assert(seq![(k, c)] + rest =~= es);
    }
}

/// A rebuilt identities answer is itself a well-formed answer that lists
/// exactly the given entries and nothing after them.
pub proof fn lemma_identities_answer_parses(es: Seq<(Seq<u8>, Seq<u8>)>)
    requires
        entries_fit(es),
        es.len() <= u32::MAX,
    ensures
        spec_read_u32(identities_answer(es), 1) == Some(es.len() as u32),
        parse_identity_list(identities_answer(es), 5, es.len()) == IdentityListParse::Parsed(
            es,
            identities_answer(es).len() as int,
        ),
{
    let a = identities_answer(es);
    let head = seq![SSH_AGENT_IDENTITIES_ANSWER] + be_u32_bytes(es.len());
    lemma_be_u32_roundtrip(es.len());
    assert(a[1] == be_u32_bytes(es.len())[0] && a[2] == be_u32_bytes(es.len())[1] && a[3]
        == be_u32_bytes(es.len())[2] && a[4] == be_u32_bytes(es.len())[3]);
    assert(be_u32(a, 1) == be_u32(be_u32_bytes(es.len()), 0));
    assert(a =~= head + encode_entries(es) + seq![]);
    lemma_parse_encoded(head, es, seq![]);
}

pub proof fn lemma_select_fits(refs: Seq<IdentityRef>, es: Seq<(Seq<u8>, Seq<u8>)>)
    requires
        entries_fit(es),
    ensures
        entries_fit(select_entries(refs, es)),
        forall|i: int|
            0 <= i < select_entries(refs, es).len() ==> identity_selected(
                refs,
                (#[trigger] select_entries(refs, es)[i]).0,
                select_entries(refs, es)[i].1,
            ),
    decreases es.len(),
{
    if es.len() > 0 {
        assert(entries_fit(es.drop_last())) by {
            assert forall|i: int| 0 <= i < es.drop_last().len() implies (
            #[trigger] es.drop_last()[i]).0.len() <= u32::MAX && es.drop_last()[i].1.len()
                <= u32::MAX by {
                assert(es.drop_last()[i] == es[i]);
            }
        }
        lemma_select_fits(refs, es.drop_last());
    }
}

pub proof fn lemma_select_all_selected(refs: Seq<IdentityRef>, es: Seq<(Seq<u8>, Seq<u8>)>)
    requires
        forall|i: int| 0 <= i < es.len() ==> identity_selected(refs, (#[trigger] es[i]).0, es[i].1),
    ensures
        select_entries(refs, es) == es,
    decreases es.len(),
{
    if es.len() > 0 {
        assert forall|i: int| 0 <= i < es.drop_last().len() implies identity_selected(
            refs,
            (#[trigger] es.drop_last()[i]).0,
            es.drop_last()[i].1,
        ) by {
            assert(es.drop_last()[i] == es[i]);
        }
        lemma_select_all_selected(refs, es.drop_last());
        assert(identity_selected(refs, es[es.len() - 1].0, es[es.len() - 1].1));
        assert(es.drop_last().push(es.last()) =~= es);
    }
}

pub proof fn lemma_parsed_entries_fit(s: Seq<u8>, off: int, count: nat)
    ensures
        parse_identity_list(s, off, count) matches IdentityListParse::Parsed(es, _) ==> entries_fit(
            es,
        ) && es.len() == count,
    decreases count,
{
    if count > 0 {
        if let Some((k, o1)) = spec_read_string(s, off) {
            if let Some((c, o2)) = spec_read_string(s, o1) {
                lemma_parsed_entries_fit(s, o2, (count - 1) as nat);
                if let IdentityListParse::Parsed(rest, e) = parse_identity_list(
                    s,
                    o2,
                    (count - 1) as nat,
                ) {
                    let es = seq![(k, c)] + rest;
                    assert forall|i: int| 0 <= i < es.len() implies (#[trigger] es[i]).0.len()
                        <= u32::MAX && es[i].1.len() <= u32::MAX by {
                        if i > 0 {
                            assert(es[i] == rest[i - 1]);
                        }
                    }
                }
            }
        }
    }
}

/// Filtering is idempotent: filtering an answer that was already filtered
/// through the same identity references returns it unchanged.
pub proof fn lemma_filter_idempotent(response: Seq<u8>, refs: Seq<IdentityRef>)
    requires
        filter_outcome(response, refs) is Filtered,
    ensures
        filter_outcome(identities_answer(filter_outcome(response, refs)->Filtered_0), refs)
            == filter_outcome(response, refs),
{
    let count = spec_read_u32(response, 1)->0;
    let es = parse_identity_list(response, 5, count as nat)->Parsed_0;
    lemma_parsed_entries_fit(response, 5, count as nat);
    let sel = select_entries(refs, es);
    lemma_select_fits(refs, es);
    lemma_select_len(refs, es);
    lemma_identities_answer_parses(sel);
    lemma_select_all_selected(refs, sel);
}

/// What the four header bytes of an agent frame announce: the payload
/// length, refused when it is zero or larger than
/// `MAX_FILTERED_AGENT_FRAME_BYTES`.
pub open spec fn frame_length(header: Seq<u8>) -> Result<nat, Seq<char>> {
    let n = be_u32(header, 0);
    if n == 0 || n > MAX_FILTERED_AGENT_FRAME_BYTES {
        Err("SSH agent 帧长度超出边界: "@ + crate::text::decimal(n as nat))
    } else {
        Ok(n as nat)
    }
}

/// Reads the payload length from the header of an agent frame.
pub fn agent_frame_length(header: &[u8]) -> (r: Result<usize, String>)
    requires
        header@.len() == 4,
    ensures
        match frame_length(header@) {
            Ok(n) => r == Ok::<usize, String>(n as usize),
            Err(e) => r matches Err(f) && f@ == e,
        },
{
    let mut offset: usize = 0;
    let n = match read_u32(header, &mut offset) {
        Some(n) => n,
        None => {
            assert(false);
            return Err(String::new());
        },
    };
    if n == 0 || n as usize > MAX_FILTERED_AGENT_FRAME_BYTES {
        let mut e = String::from_str("SSH agent 帧长度超出边界: ");
        let d = crate::text::u64_to_decimal(n as u64);
        crate::text::push_str(&mut e, d.as_str());
        return Err(e);
    }
    Ok(n as usize)
}

/// An agent frame: the payload's length as a big-endian `u32`, then the
/// payload; refused when the length does not fit.
pub fn agent_frame(payload: &[u8]) -> (r: Result<Vec<u8>, String>)
    ensures
        payload@.len() <= u32::MAX ==> (r matches Ok(v) && v@ == be_u32_bytes(payload@.len()) + payload@),
        payload@.len() > u32::MAX ==> (r matches Err(e) && e@ == "SSH agent 响应长度超出协议边界"@),
{
    if payload.len() > 0xffff_ffff {
        return Err(String::from_str("SSH agent 响应长度超出协议边界"));
    }
    let mut v: Vec<u8> = Vec::new();
    push_be_u32(&mut v, payload.len() as u32);
    let ghost start = v@;
    let mut i: usize = 0;
    while i < payload.len()
        invariant
            i <= payload@.len(),
            v@ == start + payload@.subrange(0, i as int),
        decreases payload@.len() - i,
    {
        v.push(payload[i]);
        i = i + 1;
        assert(v@ =~= start + payload@.subrange(0, i as int));
    }
    assert(payload@.subrange(0, payload@.len() as int) =~= payload@);
    assert(start =~= be_u32_bytes(payload@.len()));
    Ok(v)
}

/// A frame written for a payload that the reader accepts announces exactly
/// the payload's length.
pub proof fn lemma_frame_roundtrip(payload: Seq<u8>)
    requires
        0 < payload.len() <= MAX_FILTERED_AGENT_FRAME_BYTES,
    ensures
        frame_length((be_u32_bytes(payload.len()) + payload).subrange(0, 4)) == Ok::<nat, Seq<char>>(payload.len()),
{
    lemma_be_u32_roundtrip(payload.len());
    let f = be_u32_bytes(payload.len()) + payload;
    assert(f.subrange(0, 4) =~= be_u32_bytes(payload.len()));
}

} // verus!
