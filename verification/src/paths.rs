//! Where Slumber keeps its state: the state directory, the daemon socket,
//! the jobs directory and the directory of each job.
//!
//! The environment is read by the caller and handed over as optional text.
use crate::text::{chars_of, join_path, path_join, starts_with};
use vstd::prelude::*;

verus! {

/// Why a location could not be determined.
#[derive(Debug, Clone, PartialEq, Eq)]
pub enum PathError {
    /// `SLUMBER_HOME` is set to a relative path.
    StateDirNotAbsolute,
    /// `SLUMBER_SOCKET` is set to a relative path.
    SocketNotAbsolute,
    /// Neither `SLUMBER_HOME` nor `HOME` is set.
    HomeNotSet,
    /// A job identifier is not of the form `job_` followed by ASCII letters,
    /// digits and underscores.
    InvalidJobId,
}

/// Whether a path is absolute (on Unix: it begins with `/`).
pub open spec fn is_absolute(p: Seq<char>) -> bool {
    p.len() > 0 && p[0] == '/'
}

/// Whether `p` is absolute (`Path::is_absolute` on Unix).
pub fn path_is_absolute(p: &str) -> (b: bool)
    ensures
        b == is_absolute(p@),
{
    let v = chars_of(p);
    v.len() > 0 && v[0] == '/'
}

/// The state directory that the environment selects: `SLUMBER_HOME` when it
/// is set (it must be absolute), otherwise `.slumber` under `HOME`.
pub open spec fn state_dir_spec(slumber_home: Option<Seq<char>>, home: Option<Seq<char>>) -> Result<
    Seq<char>,
    PathError,
> {
    match slumber_home {
        Some(p) => if is_absolute(p) {
            Ok(p)
        } else {
            Err(PathError::StateDirNotAbsolute)
        },
        None => match home {
            Some(h) => Ok(join_path(h, seq!['.', 's', 'l', 'u', 'm', 'b', 'e', 'r'])),
            None => Err(PathError::HomeNotSet),
        },
    }
}

/// The view of an optional string.
pub open spec fn opt_view(o: Option<&str>) -> Option<Seq<char>> {
    match o {
        Some(s) => Some(s@),
        None => None,
    }
}

/// The state directory, from the values of `SLUMBER_HOME` and `HOME`.
pub fn state_dir(slumber_home: Option<&str>, home: Option<&str>) -> (r: Result<String, PathError>)
    ensures
        match state_dir_spec(opt_view(slumber_home), opt_view(home)) {
            Ok(p) => r matches Ok(q) && q@ == p,
            Err(e) => r == Err::<String, PathError>(e),
        },
{
    match slumber_home {
        Some(p) => {
            if path_is_absolute(p) {
                Ok(p.to_owned())
            } else {
                Err(PathError::StateDirNotAbsolute)
            }
        },
        None => match home {
            Some(h) => {
                let p = path_join(h, ".slumber");
                proof {
                    reveal_strlit(".slumber");
                }
                Ok(p)
            },
            None => Err(PathError::HomeNotSet),
        },
    }
}

/// The socket that the environment selects: `SLUMBER_SOCKET` when it is set
/// (it must be absolute), else `slumber/slumber.sock` under
/// `XDG_RUNTIME_DIR` when that is set, else `slumber.sock` in the state
/// directory.
pub open spec fn socket_path_spec(
    slumber_socket: Option<Seq<char>>,
    runtime_dir: Option<Seq<char>>,
    slumber_home: Option<Seq<char>>,
    home: Option<Seq<char>>,
) -> Result<Seq<char>, PathError> {
    match slumber_socket {
        Some(p) => if is_absolute(p) {
            Ok(p)
        } else {
            Err(PathError::SocketNotAbsolute)
        },
        None => match runtime_dir {
            Some(d) => Ok(join_path(d, "slumber/slumber.sock"@)),
            None => match state_dir_spec(slumber_home, home) {
                Ok(state) => Ok(join_path(state, "slumber.sock"@)),
                Err(e) => Err(e),
            },
        },
    }
}

/// The daemon socket, from the values of `SLUMBER_SOCKET`,
/// `XDG_RUNTIME_DIR`, `SLUMBER_HOME` and `HOME`.
pub fn socket_path(
    slumber_socket: Option<&str>,
    runtime_dir: Option<&str>,
    slumber_home: Option<&str>,
    home: Option<&str>,
) -> (r: Result<String, PathError>)
    ensures
        match socket_path_spec(
            opt_view(slumber_socket),
            opt_view(runtime_dir),
            opt_view(slumber_home),
            opt_view(home),
        ) {
            Ok(p) => r matches Ok(q) && q@ == p,
            Err(e) => r == Err::<String, PathError>(e),
        },
{
    match slumber_socket {
        Some(p) => {
            if path_is_absolute(p) {
                Ok(p.to_owned())
            } else {
                Err(PathError::SocketNotAbsolute)
            }
        },
        None => match runtime_dir {
            Some(d) => Ok(path_join(d, "slumber/slumber.sock")),
            None => match state_dir(slumber_home, home) {
                Ok(state) => Ok(path_join(state.as_str(), "slumber.sock")),
                Err(e) => Err(e),
            },
        },
    }
}

/// The directory that holds one directory per job.
pub open spec fn jobs_dir_spec(state: Seq<char>) -> Seq<char> {
    join_path(state, "jobs"@)
}

/// The jobs directory inside the state directory `state`.
pub fn jobs_dir(state: &str) -> (p: String)
    ensures
        p@ == jobs_dir_spec(state@),
{
    path_join(state, "jobs")
}

/// Whether a character may stand in a job identifier: an ASCII letter or
/// digit, or `_`.
pub open spec fn is_id_char(c: char) -> bool {
    ('a' <= c && c <= 'z') || ('A' <= c && c <= 'Z') || ('0' <= c && c <= '9') || c == '_'
}

/// Whether `id` is a job identifier: `job_` followed by letters, digits and
/// underscores only. Nothing else may name a job directory or stand in a
/// remote shell command.
pub open spec fn valid_job_id(id: Seq<char>) -> bool {
    &&& starts_with(id, "job_"@)
    &&& forall|i: int| 0 <= i < id.len() ==> is_id_char(#[trigger] id[i])
}

/// Whether `id` is a valid job identifier.
pub fn is_valid_job_id(id: &str) -> (b: bool)
    ensures
        b == valid_job_id(id@),
{
    let v = chars_of(id);
    let prefix = chars_of("job_");
    if !crate::text::matches_at(v.as_slice(), prefix.as_slice(), 0) {
        return false;
    }
    let mut i: usize = 0;
    while i < v.len()
        invariant
            i <= v@.len(),
            v@ == id@,
            forall|k: int| 0 <= k < i ==> is_id_char(#[trigger] v@[k]),
        decreases v@.len() - i,
    {
        let c = v[i];
        if !(('a' <= c && c <= 'z') || ('A' <= c && c <= 'Z') || ('0' <= c && c <= '9') || c
            == '_') {
            return false;
        }
        i = i + 1;
    }
    true
}

/// The directory of the job `job_id`, when `job_id` is a valid identifier.
pub open spec fn job_dir_spec(state: Seq<char>, job_id: Seq<char>) -> Result<Seq<char>, PathError> {
    if valid_job_id(job_id) {
        Ok(join_path(jobs_dir_spec(state), job_id))
    } else {
        Err(PathError::InvalidJobId)
    }
}

/// The directory of the job `job_id` inside the state directory `state`;
/// refuses an identifier that is not a valid job identifier.
pub fn job_dir(state: &str, job_id: &str) -> (r: Result<String, PathError>)
    ensures
        match job_dir_spec(state@, job_id@) {
            Ok(p) => r matches Ok(q) && q@ == p,
            Err(e) => r == Err::<String, PathError>(e),
        },
{
    if !is_valid_job_id(job_id) {
        return Err(PathError::InvalidJobId);
    }
    let jobs = jobs_dir(state);
    Ok(path_join(jobs.as_str(), job_id))
}

/// A file inside the directory of the job `job_id`.
pub fn job_file(state: &str, job_id: &str, name: &str) -> (r: Result<String, PathError>)
    ensures
        match job_dir_spec(state@, job_id@) {
            Ok(p) => r matches Ok(q) && q@ == join_path(p, name@),
            Err(e) => r == Err::<String, PathError>(e),
        },
{
    match job_dir(state, job_id) {
        Ok(dir) => Ok(path_join(dir.as_str(), name)),
        Err(e) => Err(e),
    }
}

/// Whether an existing directory is private enough to hold Slumber's
/// state: a directory, owned by the effective user, with no permission bits
/// for group or others.
pub fn private_dir_ok(is_dir: bool, owner_uid: u32, euid: u32, mode: u32) -> (b: bool)
    ensures
        b == (is_dir && owner_uid == euid && mode & 0o077 == 0),
{
    is_dir && owner_uid == euid && mode & 0o077 == 0
}

} // verus!
