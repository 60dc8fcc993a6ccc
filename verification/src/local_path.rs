//! Paths on this machine written relative to the user's home (`~`), the
//! choice of the home directory, and the shortening of text for logs.
use vstd::prelude::*;
use crate::text::{string_of, to_chars, trim, trim_bounds};

verus! {

/// A path separator after `~`: `/`, and also `\` on Windows.
pub open spec fn is_home_sep(c: char, windows: bool) -> bool {
    c == '/' || (windows && c == '\\')
}

/// The path starts with `~` followed by a separator, or is `~` itself.
pub open spec fn home_prefixed(path: Seq<char>, windows: bool) -> bool {
    path == seq!['~'] || (path.len() >= 2 && path[0] == '~' && (path[1] == '/' || (windows
        && path[1] == '\\')))
}

/// `s` without its leading separators.
pub open spec fn trim_leading_seps(s: Seq<char>, windows: bool) -> Seq<char>
    decreases s.len(),
{
    if s.len() > 0 && is_home_sep(s[0], windows) {
        trim_leading_seps(s.drop_first(), windows)
    } else {
        s
    }
}

/// `s` begins with an ASCII letter and a colon, like a Windows drive.
pub open spec fn has_drive_prefix(s: Seq<char>) -> bool {
    s.len() >= 2 && (('a' <= s[0] && s[0] <= 'z') || ('A' <= s[0] && s[0] <= 'Z')) && s[1]
        == ':'
}

/// The part of a home-relative path after `~` and its separators; none for
/// other paths, and none on Windows when that part names a drive.
pub open spec fn home_relative(path: Seq<char>, windows: bool) -> Option<Seq<char>> {
    if !home_prefixed(path, windows) {
        None
    } else {
        let rest = if path.len() == 1 {
            seq![]
        } else {
            path.skip(2)
        };
        let relative = trim_leading_seps(rest, windows);
        if windows && has_drive_prefix(relative) {
            None
        } else {
            Some(relative)
        }
    }
}

/// Whether the path is written relative to the home directory.
pub fn has_local_home_prefix(path: &str, windows: bool) -> (r: bool)
    ensures
        r == home_prefixed(path@, windows),
{
    let v = to_chars(path);
    if v.len() == 1 {
        proof {
            if v@[0] == '~' {
                assert(v@ =~= seq!['~']);
            }
        }
        return v[0] == '~';
    }
    v.len() >= 2 && v[0] == '~' && (v[1] == '/' || (windows && v[1] == '\\'))
}

fn skip_home_seps(v: &[char], lo: usize, windows: bool) -> (r: usize)
    requires
        lo <= v@.len(),
    ensures
        lo <= r <= v@.len(),
        trim_leading_seps(v@.subrange(lo as int, v@.len() as int), windows) == v@.subrange(
            r as int,
            v@.len() as int,
        ),
{
    let mut i = lo;
    while i < v.len() && (v[i] == '/' || (windows && v[i] == '\\'))
        invariant
            lo <= i <= v@.len(),
            trim_leading_seps(v@.subrange(lo as int, v@.len() as int), windows)
                == trim_leading_seps(v@.subrange(i as int, v@.len() as int), windows),
        decreases v@.len() - i,
    {
        assert(v@.subrange(i as int, v@.len() as int).drop_first() =~= v@.subrange(
            i + 1,
            v@.len() as int,
        ));
        i = i + 1;
    }
    i
}

/// The part of `path` below the home directory, when `path` is written
/// relative to it.
pub fn local_home_relative_path(path: &str, windows: bool) -> (r: Option<String>)
    ensures
        match home_relative(path@, windows) {
            Some(t) => r matches Some(s) && s@ == t,
            None => r is None,
        },
{
    let v = to_chars(path);
    if !has_local_home_prefix(path, windows) {
        return None;
    }
    let start: usize = if v.len() == 1 {
        1
    } else {
        2
    };
    let a = skip_home_seps(v.as_slice(), start, windows);
    proof {
        if v@.len() == 1 {
            assert(v@.subrange(1, 1) =~= Seq::<char>::empty());
        } else {
            assert(v@.subrange(2, v@.len() as int) =~= path@.skip(2));
        }
    }
    let n = v.len();
    if windows && n - a >= 2 && (('a' <= v[a] && v[a] <= 'z') || ('A' <= v[a] && v[a] <= 'Z'))
        && v[a + 1] == ':' {
        return None;
    }
    Some(string_of(v.as_slice(), a, n))
}

/// The home directory to use: on Windows the user profile, else `HOME`,
/// each falling back to the other.
pub fn preferred_native_home_path(
    home: Option<String>,
    user_profile: Option<String>,
    windows: bool,
) -> (r: Option<String>)
    ensures
        r == if windows {
            if user_profile is Some {
                user_profile
            } else {
                home
            }
        } else {
            if home is Some {
                home
            } else {
                user_profile
            }
        },
{
    if windows {
        match user_profile {
            Some(p) => Some(p),
            None => home,
        }
    } else {
        match home {
            Some(h) => Some(h),
            None => user_profile,
        }
    }
}

/// `base` is a Windows verbatim path (`\\?\` ...), whose joins std
/// normalizes.
pub open spec fn verbatim_path(base: Seq<char>) -> bool {
    base.len() >= 4 && base[0] == '\\' && base[1] == '\\' && base[2] == '?' && base[3] == '\\'
}

/// `relative` begins with a separator of either platform.
pub open spec fn starts_with_sep(relative: Seq<char>) -> bool {
    relative.len() > 0 && (relative[0] == '/' || relative[0] == '\\')
}

/// `base` is a bare Windows drive such as `C:`.
pub open spec fn bare_drive(base: Seq<char>) -> bool {
    base.len() == 2 && has_drive_prefix(base)
}

/// The joins of `relative` to `base` of which this platform's std makes
/// one. A `base` that is empty or ends in `/` takes `relative` directly. A
/// `base` that ends in `\`, or is a bare drive, takes it directly on
/// Windows and after a `/` elsewhere. Any other `base` takes it after the
/// platform's separator, `/` or (on Windows) `\`. On Windows a `relative`
/// that names a drive replaces `base`.
pub open spec fn joined_path(base: Seq<char>, relative: Seq<char>, r: Seq<char>) -> bool {
    ||| (has_drive_prefix(relative) && r == relative)
    ||| if base.len() == 0 || base.last() == '/' {
        r == base + relative
    } else if base.last() == '\\' || bare_drive(base) {
        r == base + relative || r == base + seq!['/'] + relative
    } else {
        r == base + seq!['/'] + relative || r == base + seq!['\\'] + relative
    }
}

/// `Path::join` of std, read back as text. Its documentation gives: a
/// relative `relative` is adjoined to `base`, with the platform's separator
/// added when `base` does not end in one (a bare Windows drive takes
/// none); an absolute one, or on Windows one with a prefix, replaces
/// `base`; under a Windows verbatim `base` the result is normalized. For a
/// non-verbatim `base` and a `relative` that starts with no separator the
/// result is stated as `joined_path`; which separator is `/` and which is
/// not depends on the platform the program runs on, and nothing is stated
/// of the other inputs.
#[verifier::external_body]
fn path_join(base: &str, relative: &str) -> (r: String)
    ensures
        !verbatim_path(base@) && !starts_with_sep(relative@) ==> joined_path(base@, relative@, r@),
{
    std::path::Path::new(base).join(relative).to_string_lossy().into_owned()
}

/// `r` is `path` expanded against `home`: for a home-relative `path` and a
/// known home, the part below `~` joined to the home directory; otherwise
/// `path` itself.
pub open spec fn expanded_as(path: Seq<char>, home: Option<Seq<char>>, windows: bool, r: Seq<char>) -> bool {
    match (home, home_relative(path, windows)) {
        (Some(h), Some(rel)) => !verbatim_path(h) && !starts_with_sep(rel) ==> joined_path(h, rel, r),
        _ => r == path,
    }
}

/// The view of an optional text.
pub open spec fn opt_str_view(o: Option<&str>) -> Option<Seq<char>> {
    match o {
        Some(s) => Some(s@),
        None => None,
    }
}

/// Expands a home-relative identity path against `home`: the part below
/// `~` joined to the home directory; other paths, and any path when no home
/// is known, come back unchanged.
pub fn expand_identity_path_with_home(path: &str, home: Option<&str>, windows: bool) -> (r: String)
    ensures
        expanded_as(path@, opt_str_view(home), windows, r@),
{
    let relative = local_home_relative_path(path, windows);
    match home {
        Some(h) => match relative {
            Some(rel) => {
                let rs = rel.as_str();
                assert(rs@ == rel@);
                path_join(h, rs)
            },
            None => String::from_str(path),
        },
        None => String::from_str(path),
    }
}

/// The destination text calls for joining the file name: it ends with a
/// separator of either platform.
pub open spec fn ends_with_sep(s: Seq<char>) -> bool {
    s.len() > 0 && (s.last() == '/' || s.last() == '\\')
}

/// The local file a download writes: the destination, trimmed and expanded
/// against `home`, itself; or the remote file's name `source_name` joined to
/// it when it is a directory (`destination_is_dir`) or `local_destination`
/// ends with a separator. Refused for a blank destination.
pub fn local_destination_file_path(
    local_destination: &str,
    home: Option<&str>,
    windows: bool,
    source_name: &str,
    destination_is_dir: bool,
) -> (r: Result<String, String>)
    ensures
        trim(local_destination@).len() == 0 ==> (r matches Err(e) && e@ == "本地目标路径不能为空"@),
        trim(local_destination@).len() > 0 ==> (r matches Ok(p) && exists|e: Seq<char>|
            #[trigger] expanded_as(trim(local_destination@), opt_str_view(home), windows, e) && if destination_is_dir
                || ends_with_sep(local_destination@) {
                !verbatim_path(e) && !starts_with_sep(source_name@) ==> joined_path(e, source_name@, p@)
            } else {
                p@ == e
            }),
{
    let trimmed = crate::text::trim_string(local_destination);
    if to_chars(trimmed.as_str()).len() == 0 {
        return Err(String::from_str("本地目标路径不能为空"));
    }
    let expanded = expand_identity_path_with_home(trimmed.as_str(), home, windows);
    let v = to_chars(local_destination);
    let ends_with_separator = v.len() > 0 && (v[v.len() - 1] == '/' || v[v.len() - 1] == '\\');
    if destination_is_dir || ends_with_separator {
        let p = path_join(expanded.as_str(), source_name);
        assert(expanded_as(trim(local_destination@), opt_str_view(home), windows, expanded@));
        Ok(p)
    } else {
        let p = expanded;
        assert(expanded_as(trim(local_destination@), opt_str_view(home), windows, p@));
        Ok(p)
    }
}

/// The number of bytes of a character in UTF-8.
pub open spec fn utf8_width(c: char) -> nat {
    let n = c as int;
    if n < 0x80 {
        1
    } else if n < 0x800 {
        2
    } else if n < 0x10000 {
        3
    } else {
        4
    }
}

/// The number of bytes of `s` in UTF-8.
pub open spec fn utf8_len(s: Seq<char>) -> nat
    decreases s.len(),
{
    if s.len() == 0 {
        0
    } else {
        utf8_len(s.drop_last()) + utf8_width(s.last())
    }
}

/// The most characters of `t` whose UTF-8 encoding fits in `limit` bytes.
pub open spec fn longest_fitting_prefix(t: Seq<char>, limit: nat) -> nat
    decreases t.len(),
{
    if utf8_len(t) <= limit || t.len() == 0 {
        t.len()
    } else {
        longest_fitting_prefix(t.drop_last(), limit)
    }
}

/// `value` trimmed, and cut after at most `limit` bytes at a character
/// boundary, with `...` appended, when it is longer.
pub open spec fn truncated_for_log(value: Seq<char>, limit: nat) -> Seq<char> {
    let t = trim(value);
    if utf8_len(t) <= limit {
        t
    } else {
        t.take(longest_fitting_prefix(t, limit) as int) + "..."@
    }
}

pub proof fn lemma_utf8_len_grows(s: Seq<char>, a: int, b: int)
    requires
        0 <= a <= b <= s.len(),
    ensures
        utf8_len(s.take(a)) <= utf8_len(s.take(b)),
    decreases b - a,
{
    if a < b {
        lemma_utf8_len_grows(s, a, b - 1);
        assert(s.take(b).drop_last() =~= s.take(b - 1));
    }
}

pub proof fn lemma_longest_fitting_prefix(t: Seq<char>, limit: nat, i: int)
    requires
        0 <= i <= t.len(),
        utf8_len(t.take(i)) <= limit,
        i == t.len() || utf8_len(t.take(i + 1)) > limit,
    ensures
        longest_fitting_prefix(t, limit) == i,
    decreases t.len(),
{
    assert(t.take(t.len() as int) =~= t);
    if i < t.len() {
        lemma_utf8_len_grows(t, i + 1, t.len() as int);
        let u = t.drop_last();
        assert(u.take(i) =~= t.take(i));
        if i + 1 <= u.len() {
            assert(u.take(i + 1) =~= t.take(i + 1));
        }
        lemma_longest_fitting_prefix(u, limit, i);
    }
}

fn char_utf8_width(c: char) -> (w: usize)
    ensures
        w == utf8_width(c),
{
    let n = c as u32;
    if n < 0x80 {
        1
    } else if n < 0x800 {
        2
    } else if n < 0x10000 {
        3
    } else {
        4
    }
}

/// Trims `value` and shortens it to at most `limit` bytes, cut at a
/// character boundary and marked with `...`.
pub fn truncate_for_log(value: &str, limit: usize) -> (r: String)
    ensures
        r@ == truncated_for_log(value@, limit as nat),
{
    let v = to_chars(value);
    let (a, b) = trim_bounds(v.as_slice(), 0, v.len());
    let ghost t = v@.subrange(a as int, b as int);
    proof {
        assert(v@.subrange(0, v@.len() as int) =~= value@);
    }
    let mut i = a;
    let mut used: usize = 0;
    while i < b && char_utf8_width(v[i]) <= limit - used
        invariant
            a <= i <= b <= v@.len(),
            t == v@.subrange(a as int, b as int),
            used <= limit,
            used == utf8_len(t.take(i - a)),
        decreases b - i,
    {
        let w = char_utf8_width(v[i]);
        proof {
            assert(t.take(i - a + 1).drop_last() =~= t.take(i - a));
        }
        used = used + w;
        i = i + 1;
    }
    proof {
        if i < b {
            assert(t.take(i - a + 1).drop_last() =~= t.take(i - a));
        }
        lemma_longest_fitting_prefix(t, limit as nat, i - a);
        assert(t.take(t.len() as int) =~= t);
        if i < b {
            lemma_utf8_len_grows(t, i - a + 1, t.len() as int);
        }
    }
    let mut s = string_of(v.as_slice(), a, i);
    if i == b {
        return s;
    }
    proof {
        assert(s@ =~= t.take(i - a));
    }
    crate::text::push_str(&mut s, "...");
    s
}

} // verus!
