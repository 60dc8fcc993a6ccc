//! Walking a remote path one directory at a time: the `/`-separated parts of
//! a path, the successive paths from its root down to it, and what each
//! step's attributes mean when directories are created along it or when it
//! must not pass through a symbolic link.
use vstd::prelude::*;
use crate::agent_auth::texts;
use crate::remote_path::{join_path, remote_join_path, trim_end_char, trim_end_char_bound};
use crate::text::{push_char, push_str, str_eq, to_chars};

verus! {

/// The parts of `s` between slashes, with `cur` the part read so far.
pub open spec fn segments_from(s: Seq<char>, cur: Seq<char>) -> Seq<Seq<char>>
    decreases s.len(),
{
    if s.len() == 0 {
        if cur.len() > 0 {
            seq![cur]
        } else {
            seq![]
        }
    } else if s[0] == '/' {
        (if cur.len() > 0 {
            seq![cur]
        } else {
            seq![]
        }) + segments_from(s.drop_first(), seq![])
    } else {
        segments_from(s.drop_first(), cur.push(s[0]))
    }
}

/// The non-empty parts of `s` between slashes.
pub open spec fn segments(s: Seq<char>) -> Seq<Seq<char>> {
    segments_from(s, seq![])
}

/// The paths reached from `start` by joining `parts` one after another;
/// with `skip_dot`, a `.` part does not move.
pub open spec fn walk(start: Seq<char>, parts: Seq<Seq<char>>, skip_dot: bool) -> Seq<Seq<char>>
    decreases parts.len(),
{
    if parts.len() == 0 {
        seq![]
    } else if skip_dot && parts[0] == seq!['.'] {
        walk(start, parts.drop_first(), skip_dot)
    } else {
        let next = join_path(start, parts[0]);
        seq![next] + walk(next, parts.drop_first(), skip_dot)
    }
}

/// Where a walk along `path` starts: the root for an absolute path, else
/// the current directory.
pub open spec fn walk_root(path: Seq<char>) -> Seq<char> {
    if path.len() > 0 && path[0] == '/' {
        seq!['/']
    } else {
        seq![]
    }
}

/// Every path from the root of `path` down to `path` itself.
pub open spec fn symlink_check_paths(path: Seq<char>) -> Seq<Seq<char>> {
    walk(walk_root(path), segments(path), false)
}

/// The directories to make sure of, in order, so that `path` exists as a
/// directory: none for the current directory or the root.
pub open spec fn directories_to_create(path: Seq<char>) -> Seq<Seq<char>> {
    let p = trim_end_char(path, '/');
    if p.len() == 0 || p == seq!['.'] || p == seq!['/'] {
        seq![]
    } else {
        walk(walk_root(p), segments(p), true)
    }
}

fn chars_to_string(v: &Vec<char>) -> (s: String)
    ensures
        s@ == v@,
{
    let mut s = String::new();
    let mut i: usize = 0;
    while i < v.len()
        invariant
            i <= v@.len(),
            s@ == v@.subrange(0, i as int),
        decreases v@.len() - i,
    {
        push_char(&mut s, v[i]);
        i = i + 1;
        assert(s@ =~= v@.subrange(0, i as int));
    }
    s
}

/// The non-empty parts of `v[0..hi]` between slashes.
fn segments_of(v: &[char], hi: usize) -> (r: Vec<String>)
    requires
        hi <= v@.len(),
    ensures
        texts(r@) == segments(v@.subrange(0, hi as int)),
{
    let mut out: Vec<String> = Vec::new();
    let mut cur: Vec<char> = Vec::new();
    let mut i: usize = 0;
    while i < hi
        invariant
            i <= hi <= v@.len(),
            segments(v@.subrange(0, hi as int)) == texts(out@) + segments_from(
                v@.subrange(i as int, hi as int),
                cur@,
            ),
        decreases hi - i,
    {
        let ghost rest = v@.subrange(i as int, hi as int);
        assert(rest.drop_first() =~= v@.subrange(i + 1, hi as int));
        assert(rest[0] == v@[i as int]);
        let ghost before = out@;
        if v[i] == '/' {
            if cur.len() > 0 {
                let s = chars_to_string(&cur);
                out.push(s);
                assert(texts(out@) =~= texts(before) + seq![cur@]);
            } else {
                assert(texts(out@) =~= texts(before) + Seq::<Seq<char>>::empty());
            }
            cur = Vec::new();
            assert(cur@ =~= Seq::<char>::empty());
        } else {
            cur.push(v[i]);
        }
        i = i + 1;
    }
    assert(v@.subrange(i as int, hi as int) =~= Seq::<char>::empty());
    if cur.len() > 0 {
        let ghost before = out@;
        let s = chars_to_string(&cur);
        out.push(s);
        assert(texts(out@) =~= texts(before) + seq![cur@]);
    } else {
        assert(texts(out@) =~= texts(out@) + Seq::<Seq<char>>::empty());
    }
    out
}

/// The paths from `start` along `parts`.
fn walk_parts(start: String, parts: &Vec<String>, skip_dot: bool) -> (r: Vec<String>)
    ensures
        texts(r@) == walk(start@, texts(parts@), skip_dot),
{
    let mut out: Vec<String> = Vec::new();
    let mut current = start;
    let mut k: usize = 0;
    proof {
        assert(texts(parts@).subrange(0, texts(parts@).len() as int) =~= texts(parts@));
        assert(texts(out@) =~= Seq::<Seq<char>>::empty());
    }
    while k < parts.len()
        invariant
            k <= parts@.len(),
            walk(start@, texts(parts@), skip_dot) == texts(out@) + walk(
                current@,
                texts(parts@).subrange(k as int, parts@.len() as int),
                skip_dot,
            ),
        decreases parts@.len() - k,
    {
        let ghost rest = texts(parts@).subrange(k as int, parts@.len() as int);
        assert(rest.drop_first() =~= texts(parts@).subrange(k + 1, parts@.len() as int));
        assert(rest[0] == parts@[k as int]@);
        let part = &parts[k];
        proof {
            reveal_strlit(".");
            assert("."@ =~= seq!['.']);
        }
        if skip_dot && str_eq(part.as_str(), ".") {
            assert(rest[0] == seq!['.']);
            assert(walk(current@, rest, skip_dot) == walk(current@, rest.drop_first(), skip_dot));
            k = k + 1;
        } else {
            assert(!(skip_dot && rest[0] == seq!['.']));
            let ghost before = out@;
            let ghost old_current = current@;
            let next = remote_join_path(current.as_str(), part.as_str());
            current = next.clone();
            out.push(next);
            assert(walk(old_current, rest, skip_dot) == seq![current@] + walk(current@, rest.drop_first(), skip_dot));
            assert(texts(out@) =~= texts(before) + seq![current@]);
            assert(texts(before) + (seq![current@] + walk(current@, rest.drop_first(), skip_dot))
                =~= texts(out@) + walk(current@, rest.drop_first(), skip_dot));
            k = k + 1;
        }
    }
    assert(texts(parts@).subrange(k as int, parts@.len() as int) =~= Seq::<Seq<char>>::empty());
    assert(texts(out@) + Seq::<Seq<char>>::empty() =~= texts(out@));
    out
}

/// Every path from the root of `path` down to `path`, each to be checked
/// for a symbolic link.
pub fn remote_symlink_check_paths(path: &str) -> (r: Vec<String>)
    ensures
        texts(r@) == symlink_check_paths(path@),
{
    let v = to_chars(path);
    assert(v@.subrange(0, v@.len() as int) =~= path@);
    let parts = segments_of(v.as_slice(), v.len());
    let root = if v.len() > 0 && v[0] == '/' {
        let mut s = String::new();
        push_char(&mut s, '/');
        assert(s@ =~= seq!['/']);
        s
    } else {
        String::new()
    };
    walk_parts(root, &parts, false)
}

/// The directories to create, parent first, so that `path` exists.
pub fn remote_directories_to_create(path: &str) -> (r: Vec<String>)
    ensures
        texts(r@) == directories_to_create(path@),
{
    let v = to_chars(path);
    assert(v@.subrange(0, v@.len() as int) =~= path@);
    let end = trim_end_char_bound(v.as_slice(), 0, v.len(), '/');
    let ghost p = v@.subrange(0, end as int);
    if end == 0 || (end == 1 && (v[0] == '.' || v[0] == '/')) {
        proof {
            if end == 1 {
                assert(p =~= seq![v@[0]]);
            }
        }
        return Vec::new();
    }
    proof {
        assert(p != seq!['.'] && p != seq!['/']) by {
            if p == seq!['.'] || p == seq!['/'] {
                assert(p.len() == 1 && p[0] == v@[0]);
            }
        }
    }
    let parts = segments_of(v.as_slice(), end);
    let root = if v[0] == '/' {
        let mut s = String::new();
        push_char(&mut s, '/');
        assert(s@ =~= seq!['/']);
        s
    } else {
        String::new()
    };
    assert(p[0] == v@[0]);
    walk_parts(root, &parts, true)
}

/// What reading the attributes of one step of a walk gave.
#[derive(Debug, PartialEq, Eq)]
pub enum WalkStepMetadata {
    Found { is_dir: bool, is_symlink: bool },
    Failed { error: String, exists: Result<bool, String> },
}

/// What to do at a step while directories are created.
#[derive(Clone, Copy, Debug, PartialEq, Eq, Structural)]
pub enum DirectoryStep {
    /// A plain directory is already there.
    Exists,
    /// Nothing is there: create the directory.
    Create,
}

/// Judges one step while directories are created along a path: a plain
/// directory is kept, a missing one is created, anything else fails.
pub fn sftp_directory_step_verdict(current: &str, metadata: &WalkStepMetadata) -> (r: Result<DirectoryStep, String>)
    ensures
        match *metadata {
            WalkStepMetadata::Found { is_dir, is_symlink } => if is_dir && !is_symlink {
                r == Ok::<DirectoryStep, String>(DirectoryStep::Exists)
            } else {
                r matches Err(e) && e@ == "SFTP 创建远端目录失败 "@ + current@ + ": 路径已存在但不是普通目录"@
            },
            WalkStepMetadata::Failed { error, exists } => match exists {
                Ok(false) => r == Ok::<DirectoryStep, String>(DirectoryStep::Create),
                Ok(true) => r matches Err(e) && e@ == "SFTP 创建远端目录失败 "@ + current@ + ": "@ + error@,
                Err(exists_error) => r matches Err(e) && e@ == "SFTP 创建远端目录失败 "@ + current@ + ": "@
                    + error@ + "; existence check failed: "@ + exists_error@,
            },
        },
{
    match metadata {
        WalkStepMetadata::Found { is_dir, is_symlink } => {
            if *is_dir && !*is_symlink {
                Ok(DirectoryStep::Exists)
            } else {
                let mut e = String::from_str("SFTP 创建远端目录失败 ");
                push_str(&mut e, current);
                push_str(&mut e, ": 路径已存在但不是普通目录");
                Err(e)
            }
        },
        WalkStepMetadata::Failed { error, exists } => {
            match exists {
                Ok(false) => Ok(DirectoryStep::Create),
                Ok(true) => {
                    let mut e = String::from_str("SFTP 创建远端目录失败 ");
                    push_str(&mut e, current);
                    push_str(&mut e, ": ");
                    push_str(&mut e, error.as_str());
                    Err(e)
                },
                Err(exists_error) => {
                    let mut e = String::from_str("SFTP 创建远端目录失败 ");
                    push_str(&mut e, current);
                    push_str(&mut e, ": ");
                    push_str(&mut e, error.as_str());
                    push_str(&mut e, "; existence check failed: ");
                    push_str(&mut e, exists_error.as_str());
                    Err(e)
                },
            }
        },
    }
}

/// A failed directory creation is forgiven when the directory turns out to
/// be there after all (made concurrently); `recheck` is its kind, as
/// directory and symbolic link, when it could be read.
pub fn sftp_directory_create_failure_verdict(current: &str, error: &str, recheck: Option<(bool, bool)>) -> (r:
    Result<(), String>)
    ensures
        recheck == Some((true, false)) ==> r is Ok,
        recheck != Some((true, false)) ==> (r matches Err(e) && e@ == "SFTP 创建远端目录失败 "@ + current@
            + ": "@ + error@),
{
    match recheck {
        Some((true, false)) => Ok(()),
        _ => {
            let mut e = String::from_str("SFTP 创建远端目录失败 ");
            push_str(&mut e, current);
            push_str(&mut e, ": ");
            push_str(&mut e, error);
            Err(e)
        },
    }
}

/// What to do after a step of the symbolic-link check.
#[derive(Clone, Copy, Debug, PartialEq, Eq, Structural)]
pub enum SymlinkStep {
    /// Go on with the next step.
    Continue,
    /// Nothing is there: the rest cannot be a link either.
    Stop,
}

/// Judges step `index` of `count` while a path must not pass through a
/// symbolic link; with `allow_final_symlink` the last step may be one.
/// `label` names the path in errors.
pub fn symlink_component_verdict(
    current: &str,
    index: usize,
    count: usize,
    allow_final_symlink: bool,
    label: &str,
    metadata: &WalkStepMetadata,
) -> (r: Result<SymlinkStep, String>)
    ensures
        match *metadata {
            WalkStepMetadata::Found { is_dir: _, is_symlink } => if is_symlink && !(allow_final_symlink && index
                + 1 == count) {
                r matches Err(e) && e@ == label@ + "不能经过符号链接: "@ + current@
            } else {
                r == Ok::<SymlinkStep, String>(SymlinkStep::Continue)
            },
            WalkStepMetadata::Failed { error, exists } => match exists {
                Ok(false) => r == Ok::<SymlinkStep, String>(SymlinkStep::Stop),
                Ok(true) => r matches Err(e) && e@ == "无法检查"@ + label@ + " "@ + current@ + ": "@ + error@,
                Err(exists_error) => r matches Err(e) && e@ == "无法检查"@ + label@ + " "@ + current@ + ": "@
                    + error@ + "; existence check failed: "@ + exists_error@,
            },
        },
{
    match metadata {
        WalkStepMetadata::Found { is_dir: _, is_symlink } => {
            let last = (index as u128) + 1 == (count as u128);
            if *is_symlink && !(allow_final_symlink && last) {
                let mut e = String::from_str(label);
                push_str(&mut e, "不能经过符号链接: ");
                push_str(&mut e, current);
                Err(e)
            } else {
                Ok(SymlinkStep::Continue)
            }
        },
        WalkStepMetadata::Failed { error, exists } => {
            match exists {
                Ok(false) => Ok(SymlinkStep::Stop),
                Ok(true) => {
                    let mut e = String::from_str("无法检查");
                    push_str(&mut e, label);
                    push_str(&mut e, " ");
                    push_str(&mut e, current);
                    push_str(&mut e, ": ");
                    push_str(&mut e, error.as_str());
                    Err(e)
                },
                Err(exists_error) => {
                    let mut e = String::from_str("无法检查");
                    push_str(&mut e, label);
                    push_str(&mut e, " ");
                    push_str(&mut e, current);
                    push_str(&mut e, ": ");
                    push_str(&mut e, error.as_str());
                    push_str(&mut e, "; existence check failed: ");
                    push_str(&mut e, exists_error.as_str());
                    Err(e)
                },
            }
        },
    }
}

} // verus!
