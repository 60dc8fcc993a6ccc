//! Checks of a Kerberos credential cache before GSSAPI authentication is
//! offered: which cache names point at a file, and what the file's kind,
//! size, principal and header must be. Opening and reading the file, and
//! asking the Kerberos library, happen outside; each step's outcome comes
//! here to be judged.
use vstd::prelude::*;
use crate::text::push_str;

verus! {

/// The bytes of `FILE:`, the prefix of a file cache name.
pub open spec fn file_cache_prefix() -> Seq<u8> {
    seq![70u8, 73u8, 76u8, 69u8, 58u8]
}

/// The file that a cache name points at: the rest after `FILE:`, or the
/// whole name when it has no type prefix; none for another cache type
/// (a name with a colon).
pub open spec fn cache_file_name(raw: Seq<u8>) -> Option<Seq<u8>> {
    if raw.len() >= 5 && raw.subrange(0, 5) == file_cache_prefix() {
        Some(raw.subrange(5, raw.len() as int))
    } else if raw.contains(58u8) {
        None
    } else {
        Some(raw)
    }
}

pub open spec fn empty_path_error() -> Seq<char> {
    "GSSAPI authentication refused: Kerberos FILE credential cache path is empty"@
}

fn has_file_prefix(raw: &[u8]) -> (r: bool)
    ensures
        r == (raw@.len() >= 5 && raw@.subrange(0, 5) == file_cache_prefix()),
{
    if raw.len() < 5 {
        return false;
    }
    let r = raw[0] == 70u8 && raw[1] == 73u8 && raw[2] == 76u8 && raw[3] == 69u8 && raw[4] == 58u8;
    assert(r ==> raw@.subrange(0, 5) =~= file_cache_prefix());
    assert(raw@.subrange(0, 5) == file_cache_prefix() ==> raw@.subrange(0, 5)[0] == 70u8 && raw@.subrange(0, 5)[4] == 58u8);
    r
}

fn contains_byte(raw: &[u8], b: u8) -> (r: bool)
    ensures
        r == raw@.contains(b),
{
    let mut i: usize = 0;
    while i < raw.len()
        invariant
            i <= raw.len(),
            forall|j: int| 0 <= j < i ==> raw@[j] != b,
        decreases raw.len() - i,
    {
        if raw[i] == b {
            assert(raw@[i as int] == b);
            return true;
        }
        i = i + 1;
    }
    false
}

fn copy_from(raw: &[u8], start: usize) -> (r: Vec<u8>)
    requires
        start <= raw@.len(),
    ensures
        r@ == raw@.subrange(start as int, raw@.len() as int),
{
    let mut out: Vec<u8> = Vec::new();
    let mut i = start;
    while i < raw.len()
        invariant
            start <= i <= raw.len(),
            out@ == raw@.subrange(start as int, i as int),
        decreases raw.len() - i,
    {
        out.push(raw[i]);
        i = i + 1;
        assert(out@ =~= raw@.subrange(start as int, i as int));
    }
    out
}

/// The file of the credential cache named `cache_name`, when there is one
/// to check: nothing is checked without a name or for a cache that is not a
/// file, and an empty file path is refused.
pub fn gssapi_credential_cache_file(cache_name: Option<&[u8]>) -> (r: Result<Option<Vec<u8>>, String>)
    ensures
        match cache_name {
            None => r matches Ok(None),
            Some(raw) => match cache_file_name(raw@) {
                None => r matches Ok(None),
                Some(f) => if f.len() == 0 {
                    r matches Err(e) && e@ == empty_path_error()
                } else {
                    r matches Ok(Some(v)) && v@ == f
                },
            },
        },
{
    let raw = match cache_name {
        None => return Ok(None),
        Some(raw) => raw,
    };
    let file = if has_file_prefix(raw) {
        copy_from(raw, 5)
    } else if contains_byte(raw, 58u8) {
        return Ok(None);
    } else {
        let f = copy_from(raw, 0);
        assert(raw@.subrange(0, raw@.len() as int) =~= raw@);
        f
    };
    if file.len() == 0 {
        return Err(
            String::from_str("GSSAPI authentication refused: Kerberos FILE credential cache path is empty"),
        );
    }
    Ok(Some(file))
}

/// How opening the cache file went.
#[derive(Clone, Debug, PartialEq, Eq)]
pub enum CacheOpenOutcome {
    Opened,
    NotFound,
    Failed(String),
}

/// A cache file that does not exist is left to the Kerberos library; one
/// that cannot be opened refuses authentication. Some verdict ends the
/// check; none lets it go on.
pub fn kerberos_cache_open_verdict(outcome: &CacheOpenOutcome) -> (r: Option<Result<(), String>>)
    ensures
        match *outcome {
            CacheOpenOutcome::Opened => r is None,
            CacheOpenOutcome::NotFound => r == Some(Ok::<(), String>(())),
            CacheOpenOutcome::Failed(error) => r matches Some(Err(e)) && e@
                == "GSSAPI authentication refused: Kerberos FILE credential cache cannot be opened: "@
                + error@,
        },
{
    match outcome {
        CacheOpenOutcome::Opened => None,
        CacheOpenOutcome::NotFound => Some(Ok(())),
        CacheOpenOutcome::Failed(error) => {
            let mut e = String::from_str(
                "GSSAPI authentication refused: Kerberos FILE credential cache cannot be opened: ",
            );
            push_str(&mut e, error.as_str());
            Some(Err(e))
        },
    }
}

/// The smallest cache file that can hold a header.
pub const MIN_KERBEROS_CACHE_BYTES: u64 = 16;

/// The opened cache must be a regular file of at least
/// `MIN_KERBEROS_CACHE_BYTES`; `metadata` is whether it is a regular file
/// and its length, or why they could not be read.
pub fn kerberos_cache_metadata_verdict(metadata: &Result<(bool, u64), String>) -> (r: Result<(), String>)
    ensures
        match *metadata {
            Err(error) => r matches Err(e) && e@
                == "GSSAPI authentication refused: Kerberos FILE credential cache metadata is unavailable: "@
                + error@,
            Ok((is_file, len)) => if !is_file {
                r matches Err(e) && e@
                    == "GSSAPI authentication refused: Kerberos FILE credential cache is not a regular file"@
            } else if len < MIN_KERBEROS_CACHE_BYTES {
                r matches Err(e) && e@
                    == "GSSAPI authentication refused: Kerberos FILE credential cache is truncated"@
            } else {
                r is Ok
            },
        },
{
    match metadata {
        Err(error) => {
            let mut e = String::from_str(
                "GSSAPI authentication refused: Kerberos FILE credential cache metadata is unavailable: ",
            );
            push_str(&mut e, error.as_str());
            Err(e)
        },
        Ok((is_file, len)) => {
            if !*is_file {
                Err(
                    String::from_str(
                        "GSSAPI authentication refused: Kerberos FILE credential cache is not a regular file",
                    ),
                )
            } else if *len < MIN_KERBEROS_CACHE_BYTES {
                Err(
                    String::from_str(
                        "GSSAPI authentication refused: Kerberos FILE credential cache is truncated",
                    ),
                )
            } else {
                Ok(())
            }
        },
    }
}

/// The cache name cannot be handed to the Kerberos library when it holds a
/// NUL byte.
pub fn kerberos_cache_name_verdict(cache_name: &[u8]) -> (r: Result<(), String>)
    ensures
        cache_name@.contains(0u8) ==> (r matches Err(e) && e@
            == "GSSAPI authentication refused: Kerberos FILE credential cache path contains NUL"@),
        !cache_name@.contains(0u8) ==> r is Ok,
{
    if contains_byte(cache_name, 0u8) {
        Err(
            String::from_str(
                "GSSAPI authentication refused: Kerberos FILE credential cache path contains NUL",
            ),
        )
    } else {
        Ok(())
    }
}

/// What the Kerberos library answered: whether a context could be made,
/// whether the cache could be resolved, and the status of reading its
/// principal (zero for success).
pub fn kerberos_principal_verdict(context_ready: bool, cache_resolved: bool, principal_status: i32) -> (r:
    Result<(), String>)
    ensures
        !context_ready ==> (r matches Err(e) && e@
            == "GSSAPI authentication refused: Kerberos credential context is unavailable"@),
        context_ready && !cache_resolved ==> (r matches Err(e) && e@
            == "GSSAPI authentication refused: Kerberos FILE credential cache cannot be resolved"@),
        context_ready && cache_resolved && principal_status != 0 ==> (r matches Err(e) && e@
            == "GSSAPI authentication refused: Kerberos FILE credential cache is invalid or unreadable"@),
        context_ready && cache_resolved && principal_status == 0 ==> r is Ok,
{
    if !context_ready {
        Err(String::from_str("GSSAPI authentication refused: Kerberos credential context is unavailable"))
    } else if !cache_resolved {
        Err(
            String::from_str(
                "GSSAPI authentication refused: Kerberos FILE credential cache cannot be resolved",
            ),
        )
    } else if principal_status != 0 {
        Err(
            String::from_str(
                "GSSAPI authentication refused: Kerberos FILE credential cache is invalid or unreadable",
            ),
        )
    } else {
        Ok(())
    }
}

/// A cache file header is the format version: byte 5, then 1 to 4.
pub open spec fn valid_cache_header(first: u8, second: u8) -> bool {
    first == 5 && 1 <= second <= 4
}

/// Judges the first two bytes of the cache file, or none when they could
/// not be read.
pub fn kerberos_cache_header_verdict(header: Option<(u8, u8)>) -> (r: Result<(), String>)
    ensures
        match header {
            None => r matches Err(e) && e@
                == "GSSAPI authentication refused: Kerberos FILE credential cache is truncated"@,
            Some((first, second)) => if valid_cache_header(first, second) {
                r is Ok
            } else {
                r matches Err(e) && e@
                    == "GSSAPI authentication refused: Kerberos FILE credential cache header is invalid"@
            },
        },
{
    match header {
        None => Err(
            String::from_str("GSSAPI authentication refused: Kerberos FILE credential cache is truncated"),
        ),
        Some((first, second)) => {
            if first == 5 && 1 <= second && second <= 4 {
                Ok(())
            } else {
                Err(
                    String::from_str(
                        "GSSAPI authentication refused: Kerberos FILE credential cache header is invalid",
                    ),
                )
            }
        },
    }
}

} // verus!
