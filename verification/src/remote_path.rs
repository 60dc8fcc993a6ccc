//! Remote (SFTP) path arithmetic and the safety check on directory entry
//! names that a server returns.
use vstd::prelude::*;
use crate::text::{last_index_of, lemma_last_index_of, is_ctrl, push_char, push_str, string_of, to_chars, char_is_control};

verus! {

pub const MAX_SFTP_DIRECTORY_ENTRY_NAME_BYTES: usize = 4096;

/// `s` without any trailing `c`.
pub open spec fn trim_end_char(s: Seq<char>, c: char) -> Seq<char>
    decreases s.len(),
{
    if s.len() > 0 && s.last() == c {
        trim_end_char(s.drop_last(), c)
    } else {
        s
    }
}

/// `s` without any leading `c`.
pub open spec fn trim_start_char(s: Seq<char>, c: char) -> Seq<char>
    decreases s.len(),
{
    if s.len() > 0 && s[0] == c {
        trim_start_char(s.drop_first(), c)
    } else {
        s
    }
}

/// The temporary path that a resumable upload writes before renaming it
/// into place.
pub open spec fn resume_part_path(target: Seq<char>) -> Seq<char> {
    target + ".portmate-part"@
}

/// The parent directory of a remote path, ignoring trailing slashes.
pub open spec fn parent_path(path: Seq<char>) -> Option<Seq<char>> {
    let p = trim_end_char(path, '/');
    match last_index_of(p, '/') {
        None => None,
        Some(i) => if i == 0 {
            Some(seq!['/'])
        } else {
            Some(p.subrange(0, i))
        },
    }
}

/// `name` (without surrounding slashes) joined below `parent`.
pub open spec fn join_path(parent: Seq<char>, name: Seq<char>) -> Seq<char> {
    let n = trim_end_char(trim_start_char(name, '/'), '/');
    if parent.len() == 0 || parent == seq!['.'] {
        n
    } else if parent == seq!['/'] {
        seq!['/'] + n
    } else {
        trim_end_char(parent, '/') + seq!['/'] + n
    }
}

/// A directory entry name that stays inside the listed directory.
pub open spec fn safe_entry_name(name: Seq<char>) -> bool {
    &&& name.len() > 0
    &&& name != seq!['.']
    &&& name != seq!['.', '.']
    &&& vstd::utf8::encode_utf8(name).len() <= MAX_SFTP_DIRECTORY_ENTRY_NAME_BYTES
    &&& forall|i: int| 0 <= i < name.len() ==> !is_ctrl(#[trigger] name[i]) && name[i] != '/' && name[i] != '\\'
}

proof fn lemma_trim_end_step(s: Seq<char>, j: int, c: char)
    requires
        0 < j <= s.len(),
        s[j - 1] == c,
    ensures
        trim_end_char(s.subrange(0, j), c) == trim_end_char(s.subrange(0, j - 1), c),
{
    assert(s.subrange(0, j).drop_last() =~= s.subrange(0, j - 1));
}

proof fn lemma_trim_start_step(s: Seq<char>, i: int, c: char)
    requires
        0 <= i < s.len(),
        s[i] == c,
    ensures
        trim_start_char(s.subrange(i, s.len() as int), c) == trim_start_char(
            s.subrange(i + 1, s.len() as int),
            c,
        ),
{
    assert(s.subrange(i, s.len() as int).drop_first() =~= s.subrange(i + 1, s.len() as int));
}

/// End of `trim_end_char(v[lo..hi], c)`.
pub fn trim_end_char_bound(v: &[char], lo: usize, hi: usize, c: char) -> (r: usize)
    requires
        lo <= hi <= v@.len(),
    ensures
        lo <= r <= hi,
        trim_end_char(v@.subrange(lo as int, hi as int), c) == v@.subrange(lo as int, r as int),
{
    let mut j = hi;
    while j > lo && v[j - 1] == c
        invariant
            lo <= j <= hi <= v@.len(),
            trim_end_char(v@.subrange(lo as int, hi as int), c) == trim_end_char(
                v@.subrange(lo as int, j as int),
                c,
            ),
        decreases j - lo,
    {
        proof {
            let w = v@.subrange(lo as int, v@.len() as int);
            lemma_trim_end_step(w, j - lo, c);
            assert(w.subrange(0, j - lo) =~= v@.subrange(lo as int, j as int));
            assert(w.subrange(0, j - lo - 1) =~= v@.subrange(lo as int, j - 1));
        }
        j = j - 1;
    }
    proof {
        let t = v@.subrange(lo as int, j as int);
        if t.len() > 0 {
            assert(t.last() == v@[j - 1]);
        }
    }
    j
}

/// Start of `trim_start_char(v[lo..hi], c)`.
pub fn trim_start_char_bound(v: &[char], lo: usize, hi: usize, c: char) -> (r: usize)
    requires
        lo <= hi <= v@.len(),
    ensures
        lo <= r <= hi,
        trim_start_char(v@.subrange(lo as int, hi as int), c) == v@.subrange(r as int, hi as int),
{
    let mut i = lo;
    while i < hi && v[i] == c
        invariant
            lo <= i <= hi <= v@.len(),
            trim_start_char(v@.subrange(lo as int, hi as int), c) == trim_start_char(
                v@.subrange(i as int, hi as int),
                c,
            ),
        decreases hi - i,
    {
        proof {
            let w = v@.subrange(0, hi as int);
            lemma_trim_start_step(w, i as int, c);
            assert(w.subrange(i as int, hi as int) =~= v@.subrange(i as int, hi as int));
            assert(w.subrange(i + 1, hi as int) =~= v@.subrange(i + 1, hi as int));
        }
        i = i + 1;
    }
    proof {
        let t = v@.subrange(i as int, hi as int);
        if t.len() > 0 {
            assert(t[0] == v@[i as int]);
        }
    }
    i
}

/// Position of the last `c` in `v[0..hi]`.
pub fn last_index_of_char(v: &[char], hi: usize, c: char) -> (r: Option<usize>)
    requires
        hi <= v@.len(),
    ensures
        match last_index_of(v@.subrange(0, hi as int), c) {
            Some(i) => r == Some(i as usize),
            None => r is None,
        },
{
    let mut j = hi;
    while j > 0 && v[j - 1] != c
        invariant
            j <= hi <= v@.len(),
            last_index_of(v@.subrange(0, hi as int), c) == last_index_of(
                v@.subrange(0, j as int),
                c,
            ),
        decreases j,
    {
        proof {
            assert(v@.subrange(0, j as int).drop_last() =~= v@.subrange(0, j - 1));
        }
        j = j - 1;
    }
    if j == 0 {
        proof {
            assert(v@.subrange(0, 0) =~= Seq::<char>::empty());
        }
        None
    } else {
        Some(j - 1)
    }
}

/// The temporary path that a resumable transfer writes next to `target`.
pub fn remote_resume_part_path(target: &str) -> (r: String)
    ensures
        r@ == resume_part_path(target@),
{
    let mut r = String::from_str(target);
    push_str(&mut r, ".portmate-part");
    r
}

/// The parent of a remote path; `None` for a bare name.
pub fn remote_parent_path(path: &str) -> (r: Option<String>)
    ensures
        match parent_path(path@) {
            Some(p) => r matches Some(s) && s@ == p,
            None => r is None,
        },
{
    let v = to_chars(path);
    let end = trim_end_char_bound(v.as_slice(), 0, v.len(), '/');
    assert(v@.subrange(0, v@.len() as int) =~= path@);
    match last_index_of_char(v.as_slice(), end, '/') {
        None => None,
        Some(index) => {
            proof {
                lemma_last_index_of(v@.subrange(0, end as int), '/');
            }
            if index == 0 {
                let mut s = String::new();
                push_char(&mut s, '/');
                assert(s@ =~= seq!['/']);
                Some(s)
            } else {
                assert(v@.subrange(0, end as int).subrange(0, index as int) =~= v@.subrange(
                    0,
                    index as int,
                ));
                Some(string_of(v.as_slice(), 0, index))
            }
        },
    }
}

/// `name` joined below `parent`, with exactly one separating slash.
pub fn remote_join_path(parent: &str, name: &str) -> (r: String)
    ensures
        r@ == join_path(parent@, name@),
{
    let nv = to_chars(name);
    let a = trim_start_char_bound(nv.as_slice(), 0, nv.len(), '/');
    let b = trim_end_char_bound(nv.as_slice(), a, nv.len(), '/');
    assert(nv@.subrange(0, nv@.len() as int) =~= name@);
    let pv = to_chars(parent);
    let ghost n = nv@.subrange(a as int, b as int);
    if pv.len() == 0 || (pv.len() == 1 && pv[0] == '.') {
        proof {
            if pv@.len() == 1 {
                assert(parent@ =~= seq!['.']);
            }
        }
        return string_of(nv.as_slice(), a, b);
    }
    if pv.len() == 1 && pv[0] == '/' {
        let mut s = String::new();
        push_char(&mut s, '/');
        push_chars_range(&mut s, nv.as_slice(), a, b);
        proof {
            assert(parent@ =~= seq!['/']);
            assert(s@ =~= seq!['/'] + n);
        }
        return s;
    }
    proof {
        assert(parent@ != seq!['.']) by {
            if parent@ == seq!['.'] {
                assert(pv@.len() == 1 && pv@[0] == '.');
            }
        }
        assert(parent@ != seq!['/']) by {
            if parent@ == seq!['/'] {
                assert(pv@.len() == 1 && pv@[0] == '/');
            }
        }
    }
    let pe = trim_end_char_bound(pv.as_slice(), 0, pv.len(), '/');
    assert(pv@.subrange(0, pv@.len() as int) =~= parent@);
    let mut s = string_of(pv.as_slice(), 0, pe);
    push_char(&mut s, '/');
    push_chars_range(&mut s, nv.as_slice(), a, b);
    s
}

fn push_chars_range(s: &mut String, v: &[char], lo: usize, hi: usize)
    requires
        lo <= hi <= v@.len(),
    ensures
        final(s)@ == old(s)@ + v@.subrange(lo as int, hi as int),
{
    crate::text::push_chars(s, v, lo, hi);
}

/// Rejects a directory entry name that is empty, `.` or `..`, longer than
/// the byte limit, or holds a control character or a path separator.
pub fn validate_sftp_directory_entry_name(name: &str) -> (r: Result<(), String>)
    ensures
        r is Ok <==> safe_entry_name(name@),
        r matches Err(e) ==> e@ == "SFTP 服务端返回了不安全的目录项名称"@,
{
    let v = to_chars(name);
    let bytes = name.as_bytes().len();
    let unsafe_name = v.len() == 0 || (v.len() == 1 && v[0] == '.') || (v.len() == 2 && v[0] == '.'
        && v[1] == '.') || bytes > MAX_SFTP_DIRECTORY_ENTRY_NAME_BYTES || has_unsafe_char(
        v.as_slice(),
    );
    proof {
        if v@.len() == 1 && v@[0] == '.' {
            assert(name@ =~= seq!['.']);
        }
        if v@.len() == 2 && v@[0] == '.' && v@[1] == '.' {
            assert(name@ =~= seq!['.', '.']);
        }
        if name@ == seq!['.'] {
            assert(v@.len() == 1 && v@[0] == '.');
        }
        if name@ == seq!['.', '.'] {
            assert(v@.len() == 2 && v@[0] == '.' && v@[1] == '.');
        }
    }
    proof {
        if !unsafe_name {
            assert forall|i: int| 0 <= i < name@.len() implies !is_ctrl(#[trigger] name@[i])
                && name@[i] != '/' && name@[i] != '\\' by {
                assert(v@[i] == name@[i]);
            }
        }
    }
    if unsafe_name {
        return Err(String::from_str("SFTP 服务端返回了不安全的目录项名称"));
    }
    Ok(())
}

fn has_unsafe_char(v: &[char]) -> (r: bool)
    ensures
        r == exists|i: int| 0 <= i < v@.len() && (is_ctrl(#[trigger] v@[i]) || v@[i] == '/' || v@[i] == '\\'),
{
    let mut i: usize = 0;
    while i < v.len()
        invariant
            i <= v@.len(),
            forall|k: int| 0 <= k < i ==> !is_ctrl(#[trigger] v@[k]) && v@[k] != '/' && v@[k] != '\\',
        decreases v@.len() - i,
    {
        if char_is_control(v[i]) || v[i] == '/' || v[i] == '\\' {
            return true;
        }
        i = i + 1;
    }
    false
}

proof fn lemma_last_slash_before(x: Seq<char>, n: Seq<char>)
    requires
        forall|i: int| 0 <= i < n.len() ==> n[i] != '/',
    ensures
        last_index_of(x + seq!['/'] + n, '/') == Some(x.len() as int),
    decreases n.len(),
{
    let s = x + seq!['/'] + n;
    if n.len() > 0 {
        assert(s.last() == n.last());
        assert(s.drop_last() =~= x + seq!['/'] + n.drop_last());
        lemma_last_slash_before(x, n.drop_last());
    } else {
        assert(s.last() == '/');
    }
}

proof fn lemma_trim_absent(n: Seq<char>, c: char)
    requires
        forall|i: int| 0 <= i < n.len() ==> n[i] != c,
    ensures
        trim_end_char(n, c) == n,
        trim_start_char(n, c) == n,
{
}

/// A directory entry with a safe name, joined below a directory, has that
/// directory (without trailing slashes, `/` for the root) as its parent:
/// listing a directory cannot lead outside it.
pub proof fn lemma_join_then_parent(parent: Seq<char>, name: Seq<char>)
    requires
        safe_entry_name(name),
        parent.len() > 0,
        parent != seq!['.'],
    ensures
        parent_path(join_path(parent, name)) == Some(
            if trim_end_char(parent, '/').len() == 0 {
                seq!['/']
            } else {
                trim_end_char(parent, '/')
            },
        ),
{
    lemma_trim_absent(name, '/');
    let t = if parent == seq!['/'] {
        Seq::<char>::empty()
    } else {
        trim_end_char(parent, '/')
    };
    if parent == seq!['/'] {
        assert(seq!['/'].drop_last() =~= Seq::<char>::empty());
        assert(trim_end_char(parent, '/') == trim_end_char(Seq::<char>::empty(), '/'));
    }
    let joined = t + seq!['/'] + name;
    assert(join_path(parent, name) == joined) by {
        if parent == seq!['/'] {
            assert(seq!['/'] + name =~= Seq::<char>::empty() + seq!['/'] + name);
        }
    }
    assert(joined.last() == name.last());
    assert(trim_end_char(joined, '/') == joined);
    lemma_last_slash_before(t, name);
    if t.len() > 0 {
        assert(joined.subrange(0, t.len() as int) =~= t);
    }
}

} // verus!
