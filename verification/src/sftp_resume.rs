//! Decisions of resumable SFTP transfers: what a remote file's attributes
//! say about it, where a transfer goes, from which offset a partial file is
//! resumed, how two prefixes are compared chunk by chunk, and how a
//! finished partial file replaces its target. Reading, writing and the
//! SFTP requests themselves happen outside; their outcomes come here.
use vstd::prelude::*;
use crate::remote_path::{join_path, parent_path, remote_join_path, remote_parent_path};
use crate::text::{push_str, str_eq, trim, trim_string, to_chars};

verus! {

/// What reading a remote path's attributes gave: its kind and length, or
/// the error, together with whether the path exists after all.
#[derive(Debug, PartialEq, Eq)]
pub enum RemoteFileMetadata {
    Found { is_symlink: bool, is_regular: bool, len: u64 },
    Failed { error: String, exists: Result<bool, String> },
}

/// The size of a regular remote file at `path`, none when there is no file
/// there; `label` names the file in errors.
pub open spec fn regular_file_size(metadata: RemoteFileMetadata, path: Seq<char>, label: Seq<char>) -> Result<
    Option<u64>,
    Seq<char>,
> {
    match metadata {
        RemoteFileMetadata::Found { is_symlink, is_regular, len } => if is_symlink {
            Err(label + "不能是符号链接: "@ + path)
        } else if !is_regular {
            Err(label + "不是普通文件: "@ + path)
        } else {
            Ok(Some(len))
        },
        RemoteFileMetadata::Failed { error, exists } => match exists {
            Err(exists_error) => Err(label + "无法读取远端属性 "@ + path + ": "@ + error@
                + "; existence check failed: "@ + exists_error@),
            Ok(true) => Err(label + "无法读取远端属性 "@ + path + ": "@ + error@),
            Ok(false) => Ok(None),
        },
    }
}

pub open spec fn size_result_view(r: Result<Option<u64>, String>) -> Result<Option<u64>, Seq<char>> {
    match r {
        Ok(s) => Ok(s),
        Err(e) => Err(e@),
    }
}

/// Judges the attributes of a remote file that a transfer reads or resumes.
pub fn sftp_regular_file_size_verdict(metadata: &RemoteFileMetadata, path: &str, label: &str) -> (r: Result<
    Option<u64>,
    String,
>)
    ensures
        size_result_view(r) == regular_file_size(*metadata, path@, label@),
{
    match metadata {
        RemoteFileMetadata::Found { is_symlink, is_regular, len } => {
            if *is_symlink {
                let mut e = String::from_str(label);
                push_str(&mut e, "不能是符号链接: ");
                push_str(&mut e, path);
                Err(e)
            } else if !*is_regular {
                let mut e = String::from_str(label);
                push_str(&mut e, "不是普通文件: ");
                push_str(&mut e, path);
                Err(e)
            } else {
                Ok(Some(*len))
            }
        },
        RemoteFileMetadata::Failed { error, exists } => {
            match exists {
                Ok(false) => Ok(None),
                Ok(true) => {
                    let mut e = String::from_str(label);
                    push_str(&mut e, "无法读取远端属性 ");
                    push_str(&mut e, path);
                    push_str(&mut e, ": ");
                    push_str(&mut e, error.as_str());
                    Err(e)
                },
                Err(exists_error) => {
                    let mut e = String::from_str(label);
                    push_str(&mut e, "无法读取远端属性 ");
                    push_str(&mut e, path);
                    push_str(&mut e, ": ");
                    push_str(&mut e, error.as_str());
                    push_str(&mut e, "; existence check failed: ");
                    push_str(&mut e, exists_error.as_str());
                    Err(e)
                },
            }
        },
    }
}

/// Where an existing partial file leaves a transfer of `total` bytes.
#[derive(Clone, Copy, Debug, PartialEq, Eq, Structural)]
pub enum ResumeStart {
    /// No partial file: start from the beginning.
    Fresh,
    /// Resume after this many bytes, once they are found to agree.
    Resume(u64),
    /// The partial file is larger than the source: remove it and start over.
    DiscardOversized,
}

pub open spec fn resume_start(part_size: Option<u64>, total: u64) -> ResumeStart {
    match part_size {
        None => ResumeStart::Fresh,
        Some(size) => if size <= total {
            ResumeStart::Resume(size)
        } else {
            ResumeStart::DiscardOversized
        },
    }
}

/// How a partial file of `part_size` bytes (none when absent) is used for a
/// transfer of `total` bytes.
pub fn sftp_resume_start(part_size: Option<u64>, total: u64) -> (r: ResumeStart)
    ensures
        r == resume_start(part_size, total),
{
    match part_size {
        None => ResumeStart::Fresh,
        Some(size) => if size <= total {
            ResumeStart::Resume(size)
        } else {
            ResumeStart::DiscardOversized
        },
    }
}

/// The offset a transfer continues from once the partial file's prefix was
/// compared with the source: all of it when they agree, else nothing.
pub fn resume_offset_after_prefix_check(offset: u64, prefix_agrees: bool) -> (r: u64)
    ensures
        r == if prefix_agrees {
            offset
        } else {
            0
        },
{
    if prefix_agrees {
        offset
    } else {
        0
    }
}

/// A read that ends early while two prefixes are compared means that they
/// differ; any other read failure is an error.
pub fn prefix_read_mismatch_or_error(unexpected_eof: bool, error: &str, label: &str) -> (r: Result<bool, String>)
    ensures
        unexpected_eof ==> r == Ok::<bool, String>(false),
        !unexpected_eof ==> (r matches Err(e) && e@ == "读取"@ + label@ + "前缀失败: "@ + error@),
{
    if unexpected_eof {
        Ok(false)
    } else {
        let mut e = String::from_str("读取");
        push_str(&mut e, label);
        push_str(&mut e, "前缀失败: ");
        push_str(&mut e, error);
        Err(e)
    }
}

/// The comparison of the first `length` bytes of two files, read chunk by
/// chunk; `compared` bytes have been found equal so far.
#[derive(Clone, Copy, Debug, PartialEq, Eq, Structural)]
pub struct PrefixComparison {
    pub length: u64,
    pub compared: u64,
}

impl PrefixComparison {
    pub open spec fn wf(self) -> bool {
        self.compared <= self.length
    }

    /// The size of the next chunk for a buffer of `buffer_len` bytes.
    pub open spec fn chunk_len(self, buffer_len: usize) -> int {
        if self.length - self.compared <= buffer_len {
            self.length - self.compared
        } else {
            buffer_len as int
        }
    }

    /// A comparison of the first `length` bytes.
    pub fn new(length: u64) -> (r: Self)
        ensures
            r.length == length,
            r.compared == 0,
            r.wf(),
    {
        PrefixComparison { length, compared: 0 }
    }

    /// The size of the next chunk to read into buffers of `buffer_len`
    /// bytes; none once the whole prefix agrees.
    pub fn next_chunk(&self, buffer_len: usize) -> (r: Option<usize>)
        requires
            self.wf(),
        ensures
            self.compared == self.length ==> r is None,
            self.compared < self.length ==> r == Some(self.chunk_len(buffer_len) as usize),
    {
        if self.compared >= self.length {
            return None;
        }
        let remaining = self.length - self.compared;
        if remaining <= buffer_len as u64 {
            Some(remaining as usize)
        } else {
            Some(buffer_len)
        }
    }

    /// Compares one chunk read from each side; on agreement the chunk
    /// counts as compared.
    pub fn compare_chunk(&mut self, left: &[u8], right: &[u8]) -> (equal: bool)
        requires
            old(self).wf(),
            left@.len() == right@.len(),
            old(self).compared + left@.len() <= old(self).length,
        ensures
            equal == (left@ == right@),
            final(self).wf(),
            final(self).length == old(self).length,
            equal ==> final(self).compared == old(self).compared + left@.len(),
            !equal ==> *final(self) == *old(self),
    {
        let mut i: usize = 0;
        while i < left.len()
            invariant
                i <= left@.len(),
                left@.len() == right@.len(),
                *self == *old(self),
                old(self).wf(),
                forall|j: int| 0 <= j < i ==> left@[j] == right@[j],
            decreases left@.len() - i,
        {
            if left[i] != right[i] {
                return false;
            }
            i = i + 1;
        }
        assert(left@ =~= right@);
        self.compared = self.compared + left.len() as u64;
        true
    }
}

/// What finishing a resumable upload does once the partial file holds all
/// bytes: the partial file must still be there, and an existing target is
/// removed before the partial file takes its name. The result tells whether
/// the target must be removed first.
pub fn sftp_finalize_resume_plan(temp_size: Option<u64>, target_size: Option<u64>, temp: &str) -> (r: Result<
    bool,
    String,
>)
    ensures
        temp_size is None ==> (r matches Err(e) && e@ == "SFTP 断点文件不存在: "@ + temp@),
        temp_size is Some ==> r == Ok::<bool, String>(target_size is Some),
{
    match temp_size {
        None => {
            let mut e = String::from_str("SFTP 断点文件不存在: ");
            push_str(&mut e, temp);
            Err(e)
        },
        Some(_) => Ok(target_size.is_some()),
    }
}

/// The first step towards the remote file of a transfer: a destination
/// ending in a slash is a directory to create, and the file goes inside it;
/// any other destination has to be looked at.
#[derive(Clone, Debug, PartialEq, Eq)]
pub enum DestinationStep {
    /// Create this directory; the file is the path given.
    IntoDirectory { directory: String, file: String },
    /// Read the attributes of this path.
    Inspect(String),
}

pub open spec fn ends_with_slash(s: Seq<char>) -> bool {
    s.len() > 0 && s.last() == '/'
}

/// Begins choosing the remote file that `source_name` goes to at
/// `remote_destination`.
pub fn sftp_destination_first_step(remote_destination: &str, source_name: &str) -> (r: Result<
    DestinationStep,
    String,
>)
    ensures
        trim(remote_destination@).len() == 0 ==> (r matches Err(e) && e@ == "SFTP 远端目标路径不能为空"@),
        trim(remote_destination@).len() > 0 && ends_with_slash(trim(remote_destination@)) ==> (r matches Ok(
            DestinationStep::IntoDirectory { directory, file },
        ) && directory@ == trim(remote_destination@) && file@ == join_path(
            trim(remote_destination@),
            source_name@,
        )),
        trim(remote_destination@).len() > 0 && !ends_with_slash(trim(remote_destination@)) ==> (r matches Ok(
            DestinationStep::Inspect(path),
        ) && path@ == trim(remote_destination@)),
{
    let destination = trim_string(remote_destination);
    let v = to_chars(destination.as_str());
    if v.len() == 0 {
        return Err(String::from_str("SFTP 远端目标路径不能为空"));
    }
    if v[v.len() - 1] == '/' {
        let file = remote_join_path(destination.as_str(), source_name);
        return Ok(DestinationStep::IntoDirectory { directory: destination, file });
    }
    Ok(DestinationStep::Inspect(destination))
}

/// What reading the destination's attributes gave.
#[derive(Debug, PartialEq, Eq)]
pub enum DestinationMetadata {
    Found { is_dir: bool },
    Failed { error: String, exists: Result<bool, String> },
}

/// Where a transfer writes once the destination was looked at.
#[derive(Clone, Debug, PartialEq, Eq)]
pub struct DestinationPlan {
    /// The remote file to write.
    pub file: String,
    /// A directory to create first, if any.
    pub create_directory: Option<String>,
}

/// The parent directory to create before writing `destination`: none for
/// a bare name, the current directory or the root.
pub open spec fn parent_to_create(destination: Seq<char>) -> Option<Seq<char>> {
    match parent_path(destination) {
        Some(p) => if p == "."@ || p == "/"@ {
            None
        } else {
            Some(p)
        },
        None => None,
    }
}

/// Ends the choice of the remote file once the attributes of
/// `destination` are known: an existing directory receives the file under
/// `source_name`; otherwise `destination` itself is the file, after its
/// parent directory is created, unless it exists but cannot be read.
pub fn sftp_destination_after_metadata(
    destination: &str,
    source_name: &str,
    metadata: &DestinationMetadata,
) -> (r: Result<DestinationPlan, String>)
    ensures
        match *metadata {
            DestinationMetadata::Found { is_dir: true } => r matches Ok(p) && p.file@ == join_path(
                destination@,
                source_name@,
            ) && p.create_directory is None,
            DestinationMetadata::Failed { error, exists: Ok(true) } => r matches Err(e) && e@
                == "SFTP 无法读取远端目标属性 "@ + destination@ + ": "@ + error@,
            DestinationMetadata::Failed { error, exists: Err(exists_error) } => r matches Err(e) && e@
                == "SFTP 无法读取远端目标属性 "@ + destination@ + ": "@ + error@
                + "; existence check failed: "@ + exists_error@,
            _ => r matches Ok(p) && p.file@ == destination@ && match parent_to_create(destination@) {
                Some(d) => p.create_directory matches Some(c) && c@ == d,
                None => p.create_directory is None,
            },
        },
{
    match metadata {
        DestinationMetadata::Found { is_dir: true } => {
            return Ok(
                DestinationPlan {
                    file: remote_join_path(destination, source_name),
                    create_directory: None,
                },
            );
        },
        DestinationMetadata::Found { is_dir: false } => {},
        DestinationMetadata::Failed { error, exists } => {
            match exists {
                Ok(false) => {},
                Ok(true) => {
                    let mut e = String::from_str("SFTP 无法读取远端目标属性 ");
                    push_str(&mut e, destination);
                    push_str(&mut e, ": ");
                    push_str(&mut e, error.as_str());
                    return Err(e);
                },
                Err(exists_error) => {
                    let mut e = String::from_str("SFTP 无法读取远端目标属性 ");
                    push_str(&mut e, destination);
                    push_str(&mut e, ": ");
                    push_str(&mut e, error.as_str());
                    push_str(&mut e, "; existence check failed: ");
                    push_str(&mut e, exists_error.as_str());
                    return Err(e);
                },
            }
        },
    }
    let create_directory = match remote_parent_path(destination) {
        Some(parent) => {
            proof {
                reveal_strlit(".");
                reveal_strlit("/");
            }
            if str_eq(parent.as_str(), ".") || str_eq(parent.as_str(), "/") {
                None
            } else {
                Some(parent)
            }
        },
        None => None,
    };
    Ok(DestinationPlan { file: String::from_str(destination), create_directory })
}

} // verus!
