//! The version store: a branch directory holds one directory per version,
//! named by the version number in decimal, and the branch's cover-letter
//! template.
use vstd::prelude::*;
use crate::error::SeriesError;
use crate::text::{chars_of, lemma_lex_total, lemma_lex_trans, lex_le, lex_le_chars};

verus! {

/// Name of the per-branch cover-letter template inside a branch directory.
pub open spec fn template_name() -> Seq<char> {
    seq!['c', 'o', 'v', 'e', 'r', '-', 'l', 'e', 't', 't', 'e', 'r']
}

pub open spec fn is_digit(c: char) -> bool {
    '0' <= c && c <= '9'
}

pub open spec fn digit_value(c: char) -> int {
    c as int - '0' as int
}

pub open spec fn digit_char(d: nat) -> char {
    if d == 0 { '0' } else if d == 1 { '1' } else if d == 2 { '2' } else if d == 3 { '3' }
    else if d == 4 { '4' } else if d == 5 { '5' } else if d == 6 { '6' } else if d == 7 { '7' }
    else if d == 8 { '8' } else { '9' }
}

/// The number that a string of decimal digits denotes.
pub open spec fn decimal_value(s: Seq<char>) -> nat
    decreases s.len(),
{
    if s.len() == 0 {
        0
    } else {
        (decimal_value(s.drop_last()) * 10 + digit_value(s.last())) as nat
    }
}

/// `s` is a non-empty run of decimal digits.
pub open spec fn is_decimal(s: Seq<char>) -> bool {
    s.len() > 0 && forall|i: int| 0 <= i < s.len() ==> is_digit(#[trigger] s[i])
}

/// `s` names a version: decimal digits whose value fits in 64 bits.
pub open spec fn is_version_name(s: Seq<char>) -> bool {
    is_decimal(s) && decimal_value(s) <= u64::MAX
}

/// The decimal digits of `n`, without leading zeros.
pub open spec fn decimal_of(n: nat) -> Seq<char>
    decreases n,
{
    if n < 10 {
        seq![digit_char(n)]
    } else {
        decimal_of(n / 10).push(digit_char(n % 10))
    }
}

/// The version number an entry contributes to the latest version: the template
/// contributes nothing.
pub open spec fn entry_version(name: Seq<char>) -> nat {
    if name == template_name() {
        0
    } else {
        decimal_value(name)
    }
}

/// The largest version among the entries, `0` when there is none.
pub open spec fn max_version(names: Seq<Seq<char>>) -> nat
    decreases names.len(),
{
    if names.len() == 0 {
        0
    } else {
        let rest = max_version(names.drop_last());
        let v = entry_version(names.last());
        if v > rest {
            v
        } else {
            rest
        }
    }
}

/// An entry is acceptable in a branch directory: the template or a version.
pub open spec fn is_valid_entry(name: Seq<char>) -> bool {
    name == template_name() || is_version_name(name)
}

pub open spec fn names_of(names: Seq<String>) -> Seq<Seq<char>> {
    names.map_values(|s: String| s@)
}

proof fn lemma_decimal_of(n: nat)
    ensures
        is_decimal(decimal_of(n)),
        decimal_value(decimal_of(n)) == n,
    decreases n,
{
    if n >= 10 {
        lemma_decimal_of(n / 10);
        let s = decimal_of(n);
        assert(s.drop_last() =~= decimal_of(n / 10));
        assert(is_decimal(s)) by {
            assert forall|i: int| 0 <= i < s.len() implies is_digit(#[trigger] s[i]) by {
                if i < s.len() - 1 {
                    assert(s[i] == decimal_of(n / 10)[i]);
                }
            }
        }
        assert(n == (n / 10) * 10 + n % 10);
        assert(digit_value(digit_char(n % 10)) == n % 10);
        assert(s.last() == digit_char(n % 10));
        assert(decimal_value(s) == decimal_value(s.drop_last()) * 10 + digit_value(s.last()));
    } else {
        assert(digit_value(digit_char(n)) == n);
        assert(decimal_of(n).drop_last() =~= Seq::<char>::empty());
        assert(decimal_value(Seq::<char>::empty()) == 0);
    }
}

/// Parsing the name of a version directory gives back its number.
pub proof fn lemma_version_name_round_trip(v: u64)
    ensures
        is_version_name(decimal_of(v as nat)),
        decimal_value(decimal_of(v as nat)) == v,
{
    lemma_decimal_of(v as nat);
}

/// The version number that a directory name denotes, if it denotes one.
pub fn parse_version(name: &str) -> (r: Option<u64>)
    ensures
        r is Some <==> is_version_name(name@),
        r matches Some(v) ==> v == decimal_value(name@),
{
    let cs = crate::text::chars_of(name);
    if cs.len() == 0 {
        return None;
    }
    let mut value: u64 = 0;
    let mut i: usize = 0;
    while i < cs.len()
        invariant
            i <= cs@.len(),
            cs@ == name@,
            forall|k: int| 0 <= k < i ==> is_digit(#[trigger] cs@[k]),
            value == decimal_value(cs@.subrange(0, i as int)),
        decreases cs@.len() - i,
    {
        let c = cs[i];
        assert(cs@.subrange(0, i + 1).drop_last() =~= cs@.subrange(0, i as int));
        if c < '0' || c > '9' {
            assert(!is_digit(name@[i as int]));
            return None;
        }
        let d = (c as u32 - '0' as u32) as u64;
        if value > (u64::MAX - d) / 10 {
            proof {
                let ghost vi = value as int;
                let ghost di = d as int;
                assert(vi * 10 + di > u64::MAX) by (nonlinear_arith)
                    requires
                        vi > (u64::MAX - di) / 10,
                        0 <= di < 10,
                ;
                if is_decimal(cs@) {
                    lemma_prefix_value_bound(cs@, i as int + 1);
                }
            }
            return None;
        }
        value = value * 10 + d;
        i = i + 1;
    }
    assert(cs@.subrange(0, i as int) =~= cs@);
    Some(value)
}

proof fn lemma_prefix_value_bound(s: Seq<char>, i: int)
    requires
        0 <= i <= s.len(),
        forall|k: int| 0 <= k < s.len() ==> is_digit(#[trigger] s[k]),
    ensures
        decimal_value(s.subrange(0, i)) <= decimal_value(s),
    decreases s.len() - i,
{
    if i < s.len() {
        lemma_prefix_value_bound(s.drop_last(), if i < s.len() { i } else { i - 1 });
        assert(s.drop_last().subrange(0, i) =~= s.subrange(0, i));
    } else {
        assert(s.subrange(0, i) =~= s);
    }
}

fn digits_of(v: u64) -> (r: Vec<char>)
    ensures
        r@ == decimal_of(v as nat),
    decreases v,
{
    let d = char_of_digit(v % 10);
    if v < 10 {
        vec![d]
    } else {
        let mut r = digits_of(v / 10);
        r.push(d);
        r
    }
}

fn char_of_digit(d: u64) -> (c: char)
    requires
        d < 10,
    ensures
        c == digit_char(d as nat),
{
    if d == 0 { '0' } else if d == 1 { '1' } else if d == 2 { '2' } else if d == 3 { '3' }
    else if d == 4 { '4' } else if d == 5 { '5' } else if d == 6 { '6' } else if d == 7 { '7' }
    else if d == 8 { '8' } else { '9' }
}

/// The name of the directory that holds version `v`.
pub fn version_name(v: u64) -> (r: String)
    ensures
        r@ == decimal_of(v as nat),
{
    let d = digits_of(v);
    crate::text::string_of(d.as_slice())
}

fn is_template(name: &String) -> (r: bool)
    ensures
        r == (name@ == template_name()),
{
    let cs = crate::text::chars_of(name.as_str());
    let t = crate::text::chars_of("cover-letter");
    proof {
        reveal_strlit("cover-letter");
    }
    if cs.len() != t.len() {
        return false;
    }
    let mut i: usize = 0;
    while i < cs.len()
        invariant
            cs@.len() == t@.len(),
            t@ == template_name(),
            cs@ == name@,
            i <= cs@.len(),
            forall|k: int| 0 <= k < i ==> cs@[k] == t@[k],
        decreases cs@.len() - i,
    {
        if cs[i] != t[i] {
            return false;
        }
        i = i + 1;
    }
    assert(cs@ =~= t@);
    true
}

/// The latest version of a branch, from the names of its directory's entries:
/// nothing for an empty directory, otherwise the largest version, `0` when
/// only the template is there. An entry that is neither is a corrupt store;
/// the lexically least such name is reported, whatever the listing order.
pub fn latest_version(names: &Vec<String>) -> (r: Result<Option<u64>, SeriesError>)
    ensures
        names@.len() == 0 ==> r == Ok::<Option<u64>, SeriesError>(None),
        names@.len() > 0 && (forall|i: int| 0 <= i < names@.len() ==> is_valid_entry(#[trigger] names@[i]@))
            ==> r == Ok::<Option<u64>, SeriesError>(Some(max_version(names_of(names@)) as u64)),
        (exists|i: int| 0 <= i < names@.len() && !is_valid_entry(#[trigger] names@[i]@)) <==> r is Err,
        r matches Err(e) ==> e matches SeriesError::CorruptVersionStore(n) && !is_valid_entry(n@)
            && (exists|i: int| 0 <= i < names@.len() && #[trigger] names@[i]@ == n@)
            && forall|j: int|
            0 <= j < names@.len() && !is_valid_entry(#[trigger] names@[j]@) ==> lex_le(n@, names@[j]@),
{
    if names.len() == 0 {
        return Ok(None);
    }
    let mut best: u64 = 0;
    let mut worst: Option<usize> = None;
    let mut i: usize = 0;
    while i < names.len()
        invariant
            i <= names@.len(),
            match worst {
                None => forall|k: int| 0 <= k < i ==> is_valid_entry(#[trigger] names@[k]@),
                Some(w) => w < i && !is_valid_entry(names@[w as int]@) && forall|k: int|
                    0 <= k < i && !is_valid_entry(#[trigger] names@[k]@) ==> lex_le(
                        names@[w as int]@,
                        names@[k]@,
                    ),
            },
            worst is None ==> best == max_version(names_of(names@.subrange(0, i as int))),
        decreases names@.len() - i,
    {
        let name = &names[i];
        assert(names_of(names@.subrange(0, i + 1)).drop_last() =~= names_of(names@.subrange(0, i as int)));
        let valid = if is_template(name) {
            true
        } else {
            match parse_version(name.as_str()) {
                None => false,
                Some(v) => {
                    if v > best {
                        best = v;
                    }
                    true
                },
            }
        };
        assert(valid == is_valid_entry(names@[i as int]@));
        if !valid {
            match worst {
                None => {
                    proof {
                        lemma_lex_total(names@[i as int]@, names@[i as int]@);
                    }
                    worst = Some(i);
                },
                Some(w) => {
                    let here = chars_of(name.as_str());
                    let least = chars_of(names[w].as_str());
                    if lex_le_chars(&here, &least) {
                        proof {
                            assert forall|k: int|
                                0 <= k < i + 1 && !is_valid_entry(#[trigger] names@[k]@) implies lex_le(
                                names@[i as int]@,
                                names@[k]@,
                            ) by {
                                if k < i {
                                    lemma_lex_trans(names@[i as int]@, names@[w as int]@, names@[k]@);
                                }
                                lemma_lex_total(names@[i as int]@, names@[i as int]@);
                            }
                        }
                        worst = Some(i);
                    } else {
                        proof {
                            lemma_lex_total(names@[i as int]@, names@[w as int]@);
                        }
                    }
                },
            }
        }
        i = i + 1;
    }
    assert(names@.subrange(0, i as int) =~= names@);
    match worst {
        None => Ok(Some(best)),
        Some(w) => Err(SeriesError::CorruptVersionStore(names[w].clone())),
    }
}

/// The version that follows the latest one, `1` when there is none.
pub fn next_version(latest: Option<u64>) -> (r: Result<u64, SeriesError>)
    ensures
        latest is None ==> r == Ok::<u64, SeriesError>(1),
        latest matches Some(v) ==> (v < u64::MAX ==> r == Ok::<u64, SeriesError>((v + 1) as u64)),
        latest matches Some(v) ==> (v == u64::MAX ==> r == Err::<u64, SeriesError>(SeriesError::VersionOverflow)),
{
    match latest {
        None => Ok(1),
        Some(v) => if v < u64::MAX {
            Ok(v + 1)
        } else {
            Err(SeriesError::VersionOverflow)
        },
    }
}

/// What must happen to a version directory before a patch set is written to it.
#[derive(Debug, Clone, Copy, PartialEq, Eq)]
pub enum Allocation {
    /// The directory does not exist yet: create it.
    Create,
    /// The directory exists and replacing it was asked for: remove it, then create it.
    Replace,
}

/// Decides how version `v` is allocated: an existing directory is a conflict
/// unless `force` is set, in which case it is removed first.
pub fn allocate(v: u64, exists: bool, force: bool) -> (r: Result<Allocation, SeriesError>)
    ensures
        !exists ==> r == Ok::<Allocation, SeriesError>(Allocation::Create),
        exists && force ==> r == Ok::<Allocation, SeriesError>(Allocation::Replace),
        exists && !force ==> r == Err::<Allocation, SeriesError>(SeriesError::VersionConflict(v)),
{
    if !exists {
        Ok(Allocation::Create)
    } else if force {
        Ok(Allocation::Replace)
    } else {
        Err(SeriesError::VersionConflict(v))
    }
}

} // verus!
