//! The decisions of the series commands that surround the core: which
//! version to generate or send, which reference an interdiff replays on, and
//! which git commands delete a series.
use vstd::prelude::*;
use crate::commands::{push_all, push_str};
use crate::error::SeriesError;
use crate::version_store::names_of;

verus! {

/// The version a new patch set gets: the requested one, else the one after
/// the latest; nothing when the branch has no version directory yet.
pub fn resolve_version(requested: Option<u64>, latest: Option<u64>) -> (r: Result<
    Option<u64>,
    SeriesError,
>)
    ensures
        requested is Some ==> r == Ok::<Option<u64>, SeriesError>(requested),
        requested is None && latest is None ==> r == Ok::<Option<u64>, SeriesError>(None),
        requested is None ==> (latest matches Some(v) ==> (v < u64::MAX ==> r == Ok::<
            Option<u64>,
            SeriesError,
        >(Some((v + 1) as u64))) && (v == u64::MAX ==> r == Err::<Option<u64>, SeriesError>(
            SeriesError::VersionOverflow,
        ))),
{
    match requested {
        Some(v) => Ok(Some(v)),
        None => match latest {
            None => Ok(None),
            Some(v) => match crate::version_store::next_version(Some(v)) {
                Ok(n) => Ok(Some(n)),
                Err(e) => Err(e),
            },
        },
    }
}

/// The number of the directory a new patch set is written to.
pub fn directory_version(version: Option<u64>) -> (r: u64)
    ensures
        r == match version {
            Some(v) => v,
            None => 1,
        },
{
    match version {
        Some(v) => v,
        None => 1,
    }
}

/// The version a send uses: the requested one, else the latest.
pub fn send_version(requested: Option<u64>, latest: Option<u64>, branch: &str) -> (r: Result<
    u64,
    SeriesError,
>)
    ensures
        requested matches Some(v) ==> r == Ok::<u64, SeriesError>(v),
        requested is None ==> (latest matches Some(v) ==> r == Ok::<u64, SeriesError>(v)),
        requested is None && latest is None ==> (r matches Err(SeriesError::NoPatchSetForBranch(b))
            && b@ == branch@),
{
    match requested {
        Some(v) => Ok(v),
        None => match latest {
            Some(v) => Ok(v),
            None => Err(SeriesError::NoPatchSetForBranch(String::from_str(branch))),
        },
    }
}

/// The arguments of the mail sending: the configured extra arguments, then
/// the version directory.
pub fn send_args(extra: &Vec<String>, version_dir: &str) -> (r: Vec<String>)
    ensures
        names_of(r@) == seq!["send-email"@] + names_of(extra@) + seq![version_dir@],
{
    let mut r: Vec<String> = Vec::new();
    push_str(&mut r, "send-email");
    push_all(&mut r, extra);
    push_str(&mut r, version_dir);
    assert(names_of(r@) =~= seq!["send-email"@] + names_of(extra@) + seq![version_dir@]);
    r
}

/// The reference an older version is replayed on: the one given, else the
/// configured one, else `origin/master`.
pub fn interdiff_base(given: Option<String>, configured: Option<String>) -> (r: String)
    ensures
        given matches Some(g) ==> r@ == g@,
        given is None ==> (configured matches Some(c) ==> r@ == c@),
        given is None && configured is None ==> r@ == "origin/master"@,
{
    match given {
        Some(g) => g,
        None => match configured {
            Some(c) => c,
            None => String::from_str("origin/master"),
        },
    }
}

/// Whether an entry of the patch directory is a branch's directory rather
/// than the configuration file.
pub fn is_branch_entry(name: &str) -> (r: bool)
    ensures
        r == (name@ != "config.toml"@),
{
    let s = crate::text::chars_of(name);
    let c = crate::text::chars_of("config.toml");
    proof {
        reveal_strlit("config.toml");
    }
    if s.len() != c.len() {
        return true;
    }
    let same = crate::text::occurs_at_exec(&s, &c, 0);
    proof {
        if same {
            assert(s@ =~= s@.subrange(0, c@.len() as int));
        } else {
            assert(s@.subrange(0, c@.len() as int) =~= s@);
        }
    }
    !same
}

/// The git commands that delete a series, in order: the remote branch when
/// there is one and the deletion is not local only, a switch away from the
/// branch when it is checked out, then the branch itself (`-D` when forced).
pub fn delete_commands(
    branch: &str,
    current: &str,
    has_remote: bool,
    local_only: bool,
    force: bool,
    fallback: Option<&str>,
) -> (r: Vec<Vec<String>>)
    ensures
        r@.len() == 1 + (if has_remote && !local_only { 1int } else { 0 }) + (if branch@ == current@ {
            1int
        } else {
            0
        }),
        has_remote && !local_only ==> names_of(r@[0]@) == seq!["push"@, "-d"@, "origin"@, branch@],
        branch@ == current@ ==> names_of(r@[r@.len() - 2]@) == seq![
            "switch"@,
            match fallback {
                Some(f) => f@,
                None => "master"@,
            },
        ],
        names_of(r@.last()@) == seq![
            "branch"@,
            if force {
                "-D"@
            } else {
                "-d"@
            },
            branch@,
        ],
{
    let mut r: Vec<Vec<String>> = Vec::new();
    if has_remote && !local_only {
        let mut c: Vec<String> = Vec::new();
        push_str(&mut c, "push");
        push_str(&mut c, "-d");
        push_str(&mut c, "origin");
        push_str(&mut c, branch);
        assert(names_of(c@) =~= seq!["push"@, "-d"@, "origin"@, branch@]);
        r.push(c);
    }
    let b = crate::text::chars_of(branch);
    let cur = crate::text::chars_of(current);
    let same = b.len() == cur.len() && crate::text::occurs_at_exec(&b, &cur, 0);
    proof {
        if b@.len() == cur@.len() {
            assert(b@.subrange(0, cur@.len() as int) =~= b@);
        }
    }
    if same {
        let mut c: Vec<String> = Vec::new();
        push_str(&mut c, "switch");
        match fallback {
            Some(f) => push_str(&mut c, f),
            None => push_str(&mut c, "master"),
        }
        r.push(c);
    }
    let mut c: Vec<String> = Vec::new();
    push_str(&mut c, "branch");
    push_str(&mut c, if force { "-D" } else { "-d" });
    push_str(&mut c, branch);
    r.push(c);
    r
}

} // verus!
