//! The argument vectors handed to the version-control executable, and how its
//! outcome is read.
use vstd::prelude::*;
use crate::error::SeriesError;
use crate::cover_letter::{cover_letter_suffix, is_cover_letter_name};
use crate::text::{chars_of, has_suffix, lex_le, string_of, trim_end, trim_end_chars};
use crate::version_store::{decimal_of, names_of, version_name};

verus! {

/// The entries of an older version that are replayed for an interdiff: all
/// but the cover letter, in the order given.
pub open spec fn replayed(names: Seq<Seq<char>>) -> Seq<Seq<char>> {
    names.filter(|n: Seq<char>| !has_suffix(n, cover_letter_suffix()))
}

/// Arguments that run `args` in the repository at `root`.
pub open spec fn in_repo(root: Seq<char>, args: Seq<Seq<char>>) -> Seq<Seq<char>> {
    seq!["-C"@, root] + args
}

/// Arguments of the patch generation into `dir`.
pub open spec fn format_patch_spec(
    dir: Seq<char>,
    version: Option<u64>,
    component: Seq<char>,
    interdiff: Option<Seq<char>>,
    extra: Seq<Seq<char>>,
) -> Seq<Seq<char>> {
    let head = seq!["format-patch"@, "-o"@, dir];
    let tagged = match version {
        Some(v) => head + seq!["-v"@, decimal_of(v as nat)],
        None => head,
    };
    let prefixed = tagged + seq!["--subject-prefix=PATCH "@ + component, "--cover-letter"@];
    let annotated = match interdiff {
        Some(r) => prefixed + seq!["--interdiff="@ + r],
        None => prefixed,
    };
    annotated + extra
}

/// Relies on `[String]::sort`: `String`'s order compares the UTF-8 bytes,
/// which orders as the characters' code points; the sort permutes the items.
#[verifier::external_body]
fn sort_strings(v: &mut Vec<String>)
    ensures
        names_of(final(v)@).to_multiset() == names_of(old(v)@).to_multiset(),
        final(v)@.len() == old(v)@.len(),
        forall|i: int, j: int|
            0 <= i < j < final(v)@.len() ==> lex_le(#[trigger] final(v)@[i]@, #[trigger] final(v)@[j]@),
{
    v.sort();
}

pub(crate) fn push_str(v: &mut Vec<String>, s: &str)
    ensures
        final(v)@.len() == old(v)@.len() + 1,
        names_of(final(v)@) == names_of(old(v)@).push(s@),
{
    let ghost old_v = v@;
    v.push(String::from_str(s));
    assert(names_of(v@) =~= names_of(old_v).push(s@));
}

pub(crate) fn push_all(v: &mut Vec<String>, extra: &Vec<String>)
    ensures
        names_of(final(v)@) == names_of(old(v)@) + names_of(extra@),
{
    let ghost old_v = v@;
    let mut k: usize = 0;
    while k < extra.len()
        invariant
            k <= extra@.len(),
            names_of(v@) == names_of(old_v) + names_of(extra@.subrange(0, k as int)),
        decreases extra@.len() - k,
    {
        push_str(v, extra[k].as_str());
        assert(names_of(extra@.subrange(0, k + 1)) =~= names_of(extra@.subrange(0, k as int)).push(
            extra@[k as int]@,
        ));
        k = k + 1;
    }
    assert(extra@.subrange(0, k as int) =~= extra@);
}

/// The arguments that run `args` in the repository at `root`.
pub fn git_in(root: &str, args: &Vec<String>) -> (r: Vec<String>)
    ensures
        names_of(r@) == in_repo(root@, names_of(args@)),
{
    let mut r: Vec<String> = Vec::new();
    push_str(&mut r, "-C");
    push_str(&mut r, root);
    push_all(&mut r, args);
    proof {
        reveal_strlit("-C");
    }
    assert(names_of(r@) =~= in_repo(root@, names_of(args@)));
    r
}

/// The result of a finished git run, from its exit status and its combined
/// output: the output without trailing white space, as a failure when the
/// exit status says so.
pub fn backend_result(success: bool, output: &str) -> (r: Result<String, SeriesError>)
    ensures
        success ==> (r matches Ok(s) && s@ == trim_end(output@)),
        !success ==> (r matches Err(SeriesError::BackendFailure(m)) && m@ == trim_end(output@)),
{
    let t = trim_end_chars(&chars_of(output));
    let s = string_of(t.as_slice());
    if success {
        Ok(s)
    } else {
        Err(SeriesError::BackendFailure(s))
    }
}

/// The arguments of the patch generation into `dir`: the version tag when a
/// version is given, the subject prefix with the component, the cover letter,
/// the interdiff reference when one is given, then the caller's own flags.
pub fn format_patch_args(
    dir: &str,
    version: Option<u64>,
    component: &str,
    interdiff: Option<&str>,
    extra: &Vec<String>,
) -> (r: Vec<String>)
    ensures
        names_of(r@) == format_patch_spec(
            dir@,
            version,
            component@,
            match interdiff {
                Some(i) => Some(i@),
                None => None,
            },
            names_of(extra@),
        ),
{
    let mut r: Vec<String> = Vec::new();
    push_str(&mut r, "format-patch");
    push_str(&mut r, "-o");
    push_str(&mut r, dir);
    match version {
        Some(v) => {
            push_str(&mut r, "-v");
            let name = version_name(v);
            push_str(&mut r, name.as_str());
        },
        None => {},
    }
    let prefix = String::from_str("--subject-prefix=PATCH ").concat(component);
    push_str(&mut r, prefix.as_str());
    push_str(&mut r, "--cover-letter");
    match interdiff {
        Some(i) => {
            let flag = String::from_str("--interdiff=").concat(i);
            push_str(&mut r, flag.as_str());
        },
        None => {},
    }
    push_all(&mut r, extra);
    let ghost spec_r = format_patch_spec(
        dir@,
        version,
        component@,
        match interdiff {
            Some(i) => Some(i@),
            None => None,
        },
        names_of(extra@),
    );
    assert(names_of(r@) =~= spec_r);
    r
}

/// The entries of an older version to replay for an interdiff: every entry
/// but the cover letter, sorted by name.
pub fn replay_order(names: &Vec<String>) -> (r: Vec<String>)
    ensures
        names_of(r@).to_multiset() == replayed(names_of(names@)).to_multiset(),
        forall|i: int, j: int| 0 <= i < j < r@.len() ==> lex_le(#[trigger] r@[i]@, #[trigger] r@[j]@),
{
    let mut kept: Vec<String> = Vec::new();
    let mut k: usize = 0;
    while k < names.len()
        invariant
            k <= names@.len(),
            names_of(kept@) == replayed(names_of(names@.subrange(0, k as int))),
        decreases names@.len() - k,
    {
        let ghost before = names_of(names@.subrange(0, k as int));
        assert(names_of(names@.subrange(0, k + 1)) =~= before.push(names@[k as int]@));
        proof {
            let pred = |n: Seq<char>| !has_suffix(n, cover_letter_suffix());
            Seq::filter_distributes_over_add(before, seq![names@[k as int]@], pred);
            reveal(Seq::filter);
            assert(seq![names@[k as int]@].drop_last() =~= Seq::<Seq<char>>::empty());
            assert(Seq::<Seq<char>>::empty().filter(pred) =~= Seq::<Seq<char>>::empty());
            assert(seq![names@[k as int]@].filter(pred) =~= if pred(names@[k as int]@) {
                seq![names@[k as int]@]
            } else {
                Seq::<Seq<char>>::empty()
            });
            assert(before + seq![names@[k as int]@] =~= before.push(names@[k as int]@));
        }
        if !is_cover_letter_name(names[k].as_str()) {
            push_str(&mut kept, names[k].as_str());
        }
        k = k + 1;
    }
    assert(names@.subrange(0, k as int) =~= names@);
    sort_strings(&mut kept);
    kept
}

} // verus!
