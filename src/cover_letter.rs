//! The cover letter: the per-branch template the operator edits, its parse
//! into a title and a body, and their binding into the generated cover-letter
//! patch of a version.
use vstd::prelude::*;
use crate::error::SeriesError;
use crate::text::{
    append_chars, chars_of, find_from, has_suffix, occurs_at, replace_all, replace_all_chars,
    replace_first, replace_first_chars, slice_of, string_of, trim, trim_chars,
};

verus! {

/// Subject placeholder in a generated cover-letter patch.
pub open spec fn subject_marker() -> Seq<char> {
    "*** SUBJECT HERE ***"@
}

/// Blurb placeholder in a generated cover-letter patch.
pub open spec fn blurb_marker() -> Seq<char> {
    "*** BLURB HERE ***"@
}

/// Suffix of the generated cover-letter patch's file name.
pub open spec fn cover_letter_suffix() -> Seq<char> {
    "cover-letter.patch"@
}

pub open spec fn title_prefix() -> Seq<char> {
    "Title: "@
}

/// The position of the first line break of `s`; meaningful when there is one.
pub open spec fn first_newline(s: Seq<char>) -> int {
    choose|i: int| 0 <= i < s.len() && s[i] == '\n' && forall|j: int| 0 <= j < i ==> s[j] != '\n'
}

pub open spec fn has_newline(s: Seq<char>) -> bool {
    exists|i: int| 0 <= i < s.len() && s[i] == '\n'
}

/// The first line of `s`, without its line break.
pub open spec fn first_line(s: Seq<char>) -> Seq<char> {
    s.subrange(0, first_newline(s))
}

/// What follows the first line break of `s`.
pub open spec fn after_first_line(s: Seq<char>) -> Seq<char> {
    s.subrange(first_newline(s) + 1, s.len() as int)
}

/// The title and body an edited template holds, or why it holds none.
pub open spec fn parsed_cover_letter(s: Seq<char>) -> Result<(Seq<char>, Seq<char>), SeriesError> {
    if !has_newline(s) {
        Err(SeriesError::MissingTitleNewline)
    } else if !occurs_at(first_line(s), title_prefix(), 0) {
        Err(SeriesError::MissingTitlePrefix)
    } else {
        Ok(
            (
                trim(first_line(s).subrange(title_prefix().len() as int, first_line(s).len() as int)),
                trim(after_first_line(s)),
            ),
        )
    }
}

/// The template written for a branch before the operator first edits it.
pub open spec fn template_text(branch: Seq<char>, ci_link: Option<Seq<char>>) -> Seq<char> {
    let head = "Title: \n\nBranch: "@ + branch + "\n"@;
    match ci_link {
        Some(link) => head + "CI: "@ + link + "\n"@,
        None => head,
    }
}

/// The generated cover letter with the subject and blurb placeholders
/// each replaced once, by the title and the body.
pub open spec fn bound_text(content: Seq<char>, title: Seq<char>, body: Seq<char>) -> Seq<char> {
    replace_first(replace_first(content, subject_marker(), title), blurb_marker(), body)
}

/// The CI link: the template with its `${component}`, `${branch}` and, when a
/// job is given, `${ci_job}` tokens substituted.
pub open spec fn ci_link_text(
    template: Seq<char>,
    component: Seq<char>,
    branch: Seq<char>,
    job: Option<Seq<char>>,
) -> Seq<char> {
    let t = replace_all(
        replace_all(template, "${component}"@, component),
        "${branch}"@,
        branch,
    );
    match job {
        Some(j) => replace_all(t, "${ci_job}"@, j),
        None => t,
    }
}

/// `s` with every trailing copy of a non-empty `suffix` removed.
pub open spec fn trim_suffixes(s: Seq<char>, suffix: Seq<char>) -> Seq<char>
    decreases s.len(),
{
    if suffix.len() > 0 && has_suffix(s, suffix) {
        trim_suffixes(s.subrange(0, s.len() - suffix.len()), suffix)
    } else {
        s
    }
}

/// Number of names that end with the cover-letter suffix.
pub open spec fn count_cover_letters(names: Seq<Seq<char>>) -> nat
    decreases names.len(),
{
    if names.len() == 0 {
        0
    } else {
        count_cover_letters(names.drop_last()) + if has_suffix(names.last(), cover_letter_suffix()) {
            1nat
        } else {
            0nat
        }
    }
}

proof fn lemma_no_newline(s: Seq<char>)
    requires
        forall|j: int| 0 <= j ==> !occurs_at(s, seq!['\n'], j),
    ensures
        !has_newline(s),
{
    assert forall|i: int| 0 <= i < s.len() implies s[i] != '\n' by {
        if s[i] == '\n' {
            assert(s.subrange(i, i + 1) =~= seq!['\n']);
            assert(occurs_at(s, seq!['\n'], i));
        }
    }
}

proof fn lemma_first_newline(s: Seq<char>, i: int)
    requires
        occurs_at(s, seq!['\n'], i),
        forall|j: int| 0 <= j < i ==> !occurs_at(s, seq!['\n'], j),
    ensures
        has_newline(s),
        first_newline(s) == i,
{
    assert(s.subrange(i, i + 1)[0] == s[i]);
    assert forall|j: int| 0 <= j < i implies s[j] != '\n' by {
        if s[j] == '\n' {
            assert(s.subrange(j, j + 1) =~= seq!['\n']);
            assert(occurs_at(s, seq!['\n'], j));
        }
    }
    assert(has_newline(s));
    let c = first_newline(s);
    if c < i {
        assert(s[c] == '\n');
    } else if c > i {
        assert(s[i] == '\n');
    }
}

/// Splits an edited template into its title and its body, both trimmed.
pub fn parse_cover_letter(content: &str) -> (r: Result<(String, String), SeriesError>)
    ensures
        match (r, parsed_cover_letter(content@)) {
            (Ok((t, b)), Ok((ts, bs))) => t@ == ts && b@ == bs,
            (Err(e), Err(es)) => e == es,
            _ => false,
        },
{
    let s = chars_of(content);
    let nl: Vec<char> = vec!['\n'];
    assert(nl@ =~= seq!['\n']);
    match find_from(&s, &nl, 0) {
        None => {
            proof {
                lemma_no_newline(s@);
            }
            Err(SeriesError::MissingTitleNewline)
        },
        Some(i) => {
            proof {
                lemma_first_newline(s@, i as int);
            }
            let line = slice_of(&s, 0, i);
            let prefix = chars_of("Title: ");
            proof {
                reveal_strlit("Title: ");
            }
            let n = s.len();
            if !crate::text::occurs_at_exec(&line, &prefix, 0) {
                return Err(SeriesError::MissingTitlePrefix);
            }
            let title = trim_chars(&slice_of(&line, prefix.len(), line.len()));
            let body = trim_chars(&slice_of(&s, i + 1, n));
            Ok((string_of(title.as_slice()), string_of(body.as_slice())))
        },
    }
}

/// The template for a branch that has none yet.
pub fn cover_letter_template(branch: &str, ci_link: Option<&str>) -> (r: String)
    ensures
        r@ == template_text(
            branch@,
            match ci_link {
                Some(l) => Some(l@),
                None => None,
            },
        ),
{
    let mut v = chars_of("Title: \n\nBranch: ");
    append_chars(&mut v, &chars_of(branch));
    append_chars(&mut v, &chars_of("\n"));
    match ci_link {
        Some(link) => {
            append_chars(&mut v, &chars_of("CI: "));
            append_chars(&mut v, &chars_of(link));
            append_chars(&mut v, &chars_of("\n"));
        },
        None => {},
    }
    string_of(v.as_slice())
}

/// Writes the title and the body into a generated cover letter, each over
/// its placeholder, and nothing else.
pub fn bind_cover_letter(content: &str, title: &str, body: &str) -> (r: String)
    ensures
        r@ == bound_text(content@, title@, body@),
{
    let s = chars_of(content);
    let with_subject = replace_first_chars(&s, &chars_of("*** SUBJECT HERE ***"), &chars_of(title));
    let bound = replace_first_chars(&with_subject, &chars_of("*** BLURB HERE ***"), &chars_of(body));
    string_of(bound.as_slice())
}

proof fn lemma_replace_first_at(s: Seq<char>, pat: Seq<char>, rep: Seq<char>, i: int)
    requires
        occurs_at(s, pat, i),
        forall|j: int| 0 <= j < i ==> !occurs_at(s, pat, j),
    ensures
        replace_first(s, pat, rep) == s.subrange(0, i) + rep + s.subrange(i + pat.len(), s.len() as int),
{
    assert(crate::text::contains(s, pat));
    let c = choose|c: int|
        occurs_at(s, pat, c) && forall|j: int| 0 <= j < c ==> !occurs_at(s, pat, j);
    assert(occurs_at(s, pat, c) && forall|j: int| 0 <= j < c ==> !occurs_at(s, pat, j));
    assert(c == i);
}

/// Binding changes a generated cover letter only at its placeholders: where
/// the subject placeholder first occurs after `a` and the blurb placeholder
/// first occurs after `b`, the result is `a`, the title, `b`, the body and
/// `c`, with nothing else altered.
pub proof fn lemma_bind_replaces_markers_only(
    a: Seq<char>,
    b: Seq<char>,
    c: Seq<char>,
    title: Seq<char>,
    body: Seq<char>,
)
    requires
        forall|j: int|
            0 <= j < a.len() ==> !occurs_at(
                a + subject_marker() + b + blurb_marker() + c,
                subject_marker(),
                j,
            ),
        forall|j: int|
            0 <= j < a.len() + title.len() + b.len() ==> !occurs_at(
                a + title + b + blurb_marker() + c,
                blurb_marker(),
                j,
            ),
    ensures
        bound_text(a + subject_marker() + b + blurb_marker() + c, title, body) == a + title + b
            + body + c,
{
    let s = a + subject_marker() + b + blurb_marker() + c;
    let sm = subject_marker();
    let bm = blurb_marker();
    assert(s.subrange(a.len() as int, (a.len() + sm.len()) as int) =~= sm);
    lemma_replace_first_at(s, sm, title, a.len() as int);
    assert(s.subrange(0, a.len() as int) =~= a);
    assert(s.subrange((a.len() + sm.len()) as int, s.len() as int) =~= b + bm + c);
    let t = a + title + b + bm + c;
    assert(replace_first(s, sm, title) =~= t);
    let k = (a.len() + title.len() + b.len()) as int;
    assert(t.subrange(k, k + bm.len()) =~= bm);
    lemma_replace_first_at(t, bm, body, k);
    assert(t.subrange(0, k) =~= a + title + b);
    assert(t.subrange(k + bm.len(), t.len() as int) =~= c);
    assert(t.subrange(0, k) + body + t.subrange(k + bm.len(), t.len() as int) =~= a + title + b
        + body + c);
}

/// Whether `name` is the file name of a generated cover letter.
pub fn is_cover_letter_name(name: &str) -> (r: bool)
    ensures
        r == has_suffix(name@, cover_letter_suffix()),
{
    let s = chars_of(name);
    let suffix = chars_of("cover-letter.patch");
    if suffix.len() > s.len() {
        return false;
    }
    crate::text::occurs_at_exec(&s, &suffix, s.len() - suffix.len())
}

/// The generated cover letter among a version directory's entries: it must be
/// the only entry whose name ends with the cover-letter suffix.
pub fn find_cover_letter(names: &Vec<String>) -> (r: Result<String, SeriesError>)
    ensures
        count_cover_letters(crate::version_store::names_of(names@)) == 0 <==> r == Err::<
            String,
            SeriesError,
        >(SeriesError::CoverLetterNotFound),
        count_cover_letters(crate::version_store::names_of(names@)) > 1 <==> r == Err::<
            String,
            SeriesError,
        >(SeriesError::AmbiguousCoverLetter),
        r matches Ok(n) ==> count_cover_letters(crate::version_store::names_of(names@)) == 1
            && has_suffix(n@, cover_letter_suffix()) && exists|i: int|
            0 <= i < names@.len() && names@[i]@ == n@,
{
    let mut found: Option<usize> = None;
    let mut i: usize = 0;
    while i < names.len()
        invariant
            i <= names@.len(),
            count_cover_letters(crate::version_store::names_of(names@.subrange(0, i as int))) <= 1,
            match found {
                None => count_cover_letters(crate::version_store::names_of(names@.subrange(0, i as int))) == 0,
                Some(k) => count_cover_letters(crate::version_store::names_of(names@.subrange(0, i as int))) == 1
                    && k < i && has_suffix(names@[k as int]@, cover_letter_suffix()),
            },
        decreases names@.len() - i,
    {
        assert(crate::version_store::names_of(names@.subrange(0, i + 1)).drop_last()
            =~= crate::version_store::names_of(names@.subrange(0, i as int)));
        if is_cover_letter_name(names[i].as_str()) {
            if found.is_some() {
                proof {
                    lemma_count_prefix_monotone(names@, i + 1);
                }
                return Err(SeriesError::AmbiguousCoverLetter);
            }
            found = Some(i);
        }
        i = i + 1;
    }
    assert(names@.subrange(0, i as int) =~= names@);
    match found {
        None => Err(SeriesError::CoverLetterNotFound),
        Some(k) => Ok(names[k].clone()),
    }
}

proof fn lemma_count_prefix_monotone(names: Seq<String>, i: int)
    requires
        0 <= i <= names.len(),
    ensures
        count_cover_letters(crate::version_store::names_of(names.subrange(0, i)))
            <= count_cover_letters(crate::version_store::names_of(names)),
    decreases names.len() - i,
{
    if i < names.len() {
        lemma_count_prefix_monotone(names.drop_last(), i);
        assert(names.drop_last().subrange(0, i) =~= names.subrange(0, i));
        assert(crate::version_store::names_of(names).drop_last()
            =~= crate::version_store::names_of(names.drop_last()));
    } else {
        assert(names.subrange(0, i) =~= names);
    }
}

/// The CI link for a branch, from the configured template.
pub fn ci_link(template: &str, component: &str, branch: &str, job: Option<&str>) -> (r: String)
    ensures
        r@ == ci_link_text(
            template@,
            component@,
            branch@,
            match job {
                Some(j) => Some(j@),
                None => None,
            },
        ),
{
    proof {
        reveal_strlit("${component}");
        reveal_strlit("${branch}");
        reveal_strlit("${ci_job}");
    }
    let t = replace_all_chars(&chars_of(template), &chars_of("${component}"), &chars_of(component));
    let t = replace_all_chars(&t, &chars_of("${branch}"), &chars_of(branch));
    let t = match job {
        Some(j) => replace_all_chars(&t, &chars_of("${ci_job}"), &chars_of(j)),
        None => t,
    };
    string_of(t.as_slice())
}

/// The component a remote url names: the url without the configured base,
/// and without any trailing `.git`.
pub fn component_from_url(url: &str, base: &str) -> (r: Result<String, SeriesError>)
    ensures
        occurs_at(url@, base@, 0) <==> r is Ok,
        r matches Ok(c) ==> c@ == trim_suffixes(
            url@.subrange(base@.len() as int, url@.len() as int),
            ".git"@,
        ),
        r matches Err(e) ==> e matches SeriesError::RemoteOutsideUrlBase(m) && m@ == url@,
{
    let u = chars_of(url);
    let b = chars_of(base);
    if !crate::text::occurs_at_exec(&u, &b, 0) {
        return Err(SeriesError::RemoteOutsideUrlBase(string_of(u.as_slice())));
    }
    let mut rest = slice_of(&u, b.len(), u.len());
    let suffix = chars_of(".git");
    proof {
        reveal_strlit(".git");
    }
    while suffix.len() <= rest.len() && crate::text::occurs_at_exec(
        &rest,
        &suffix,
        rest.len() - suffix.len(),
    )
        invariant
            suffix@ == ".git"@,
            suffix@.len() == 4,
            trim_suffixes(rest@, suffix@) == trim_suffixes(
                u@.subrange(b@.len() as int, u@.len() as int),
                suffix@,
            ),
        decreases rest@.len(),
    {
        let n = rest.len();
        rest = slice_of(&rest, 0, n - suffix.len());
    }
    Ok(string_of(rest.as_slice()))
}

} // verus!
