//! Format and command resolution. Both lookups must resolve to exactly one
//! match; anything else is an error, never a silent pick: a silently chosen
//! command could delete or overwrite the wrong files.

use vstd::prelude::*;

use crate::catalog::{
    FileFormat, count_matching, format_matches, lemma_count_matching_at_least_two,
    lemma_unique_match,
};
use crate::strutil::str_eq;

verus! {

/// Why a resolution failed: the source extension belongs to no format or to
/// several, or the requested conversion has no applicable command template
/// or several.
#[derive(Debug, Clone, Copy, PartialEq, Eq, Structural)]
pub enum ResolveError {
    UnknownFormat,
    AmbiguousFormat,
    NoTransformation,
    AmbiguousTransformation,
}

/// What `format_for_extension` must return: the index of the single format
/// that lists `ext`, or the error that says whether none or several do.
pub open spec fn format_resolution_post(
    formats: Seq<FileFormat>,
    ext: Seq<char>,
    r: Result<usize, ResolveError>,
) -> bool {
    match r {
        Ok(i) => count_matching(formats, ext) == 1 && i < formats.len() && format_matches(
            formats[i as int],
            ext,
        ),
        Err(e) => (e == ResolveError::UnknownFormat && count_matching(formats, ext) == 0) || (e
            == ResolveError::AmbiguousFormat && count_matching(formats, ext) >= 2),
    }
}

/// The index of the first format of the catalog with the given name, or
/// `-1` if none carries it.
pub open spec fn first_named(formats: Seq<FileFormat>, name: Seq<char>) -> int
    decreases formats.len(),
{
    if formats.len() == 0 {
        -1
    } else if formats[0].name@ == name {
        0
    } else {
        let r = first_named(formats.subrange(1, formats.len() as int), name);
        if r == -1 {
            -1
        } else {
            r + 1
        }
    }
}

/// A transformation entry applies to a target extension when the first
/// format carrying the entry's target name lists that extension.
pub open spec fn transformation_applies(
    formats: Seq<FileFormat>,
    entry: (String, String),
    ext: Seq<char>,
) -> bool {
    let i = first_named(formats, entry.0@);
    i >= 0 && format_matches(formats[i], ext)
}

/// How many transformation entries apply to the target extension.
pub open spec fn count_applying(
    formats: Seq<FileFormat>,
    transfos: Seq<(String, String)>,
    ext: Seq<char>,
) -> nat
    decreases transfos.len(),
{
    if transfos.len() == 0 {
        0
    } else {
        count_applying(formats, transfos.drop_last(), ext) + (if transformation_applies(
            formats,
            transfos.last(),
            ext,
        ) {
            1nat
        } else {
            0nat
        })
    }
}

/// What `command_for` must return: the command template of the single
/// applying transformation, or the error that says whether none or several
/// apply.
pub open spec fn command_resolution_post(
    formats: Seq<FileFormat>,
    transfos: Seq<(String, String)>,
    ext: Seq<char>,
    r: Result<String, ResolveError>,
) -> bool {
    match r {
        Ok(cmd) => count_applying(formats, transfos, ext) == 1 && exists|k: int|
            0 <= k < transfos.len() && transformation_applies(formats, #[trigger] transfos[k], ext)
                && cmd@ == transfos[k].1@,
        Err(e) => (e == ResolveError::NoTransformation && count_applying(formats, transfos, ext)
            == 0) || (e == ResolveError::AmbiguousTransformation && count_applying(
            formats,
            transfos,
            ext,
        ) >= 2),
    }
}

/// Whether `f` lists `ext` among its member extensions.
fn members_contain(f: &FileFormat, ext: &str) -> (r: bool)
    ensures
        r == format_matches(*f, ext@),
{
    let n = f.members.len();
    let mut i: usize = 0;
    while i < n
        invariant
            n == f.members@.len(),
            i <= n,
            forall|k: int| 0 <= k < i ==> f.members@[k]@ != ext@,
        decreases n - i,
    {
        if str_eq(f.members[i].as_str(), ext) {
            return true;
        }
        i = i + 1;
    }
    false
}

/// Resolves the extension to the index of the one format that lists it.
/// Fails with `UnknownFormat` when no format does and with
/// `AmbiguousFormat` when two or more do.
pub fn format_for_extension(formats: &Vec<FileFormat>, ext: &str) -> (r: Result<
    usize,
    ResolveError,
>)
    ensures
        format_resolution_post(formats@, ext@, r),
{
    let n = formats.len();
    let mut count: usize = 0;
    let mut found: usize = 0;
    let mut i: usize = 0;
    while i < n
        invariant
            n == formats@.len(),
            i <= n,
            count == count_matching(formats@.subrange(0, i as int), ext@),
            count <= i,
            count >= 1 ==> found < i && format_matches(formats@[found as int], ext@),
        decreases n - i,
    {
        proof {
            assert(formats@.subrange(0, i + 1).drop_last() =~= formats@.subrange(0, i as int));
            assert(formats@.subrange(0, i + 1).last() == formats@[i as int]);
        }
        if members_contain(&formats[i], ext) {
            count = count + 1;
            found = i;
        }
        i = i + 1;
    }
    proof {
        assert(formats@.subrange(0, n as int) =~= formats@);
    }
    if count == 0 {
        Err(ResolveError::UnknownFormat)
    } else if count == 1 {
        Ok(found)
    } else {
        Err(ResolveError::AmbiguousFormat)
    }
}

/// The index of the first format with the given name, if any.
fn find_first_named(formats: &Vec<FileFormat>, name: &str) -> (r: Option<usize>)
    ensures
        match r {
            Some(i) => i < formats@.len() && first_named(formats@, name@) == i,
            None => first_named(formats@, name@) == -1,
        },
{
    let n = formats.len();
    let mut i: usize = 0;
    while i < n
        invariant
            n == formats@.len(),
            i <= n,
            forall|k: int| 0 <= k < i ==> (#[trigger] formats@[k]).name@ != name@,
        decreases n - i,
    {
        if str_eq(formats[i].name.as_str(), name) {
            proof {
                lemma_first_named_at(formats@, name@, i as int);
            }
            return Some(i);
        }
        i = i + 1;
    }
    proof {
        lemma_first_named_none(formats@, name@);
    }
    None
}

/// `first_named` is pinned down by a name match with no earlier one.
proof fn lemma_first_named_at(formats: Seq<FileFormat>, name: Seq<char>, i: int)
    requires
        0 <= i < formats.len(),
        formats[i].name@ == name,
        forall|k: int| 0 <= k < i ==> (#[trigger] formats[k]).name@ != name,
    ensures
        first_named(formats, name) == i,
    decreases formats.len(),
{
    if i > 0 {
        let rest = formats.subrange(1, formats.len() as int);
        assert(rest[i - 1] == formats[i]);
        assert forall|k: int| 0 <= k < i - 1 implies (#[trigger] rest[k]).name@ != name by {
            assert(rest[k] == formats[k + 1]);
        }
        lemma_first_named_at(rest, name, i - 1);
    }
}

/// Without a name match there is no first named format.
proof fn lemma_first_named_none(formats: Seq<FileFormat>, name: Seq<char>)
    requires
        forall|k: int| 0 <= k < formats.len() ==> (#[trigger] formats[k]).name@ != name,
    ensures
        first_named(formats, name) == -1,
    decreases formats.len(),
{
    if formats.len() > 0 {
        let rest = formats.subrange(1, formats.len() as int);
        assert forall|k: int| 0 <= k < rest.len() implies (#[trigger] rest[k]).name@ != name by {
            assert(rest[k] == formats[k + 1]);
        }
        lemma_first_named_none(rest, name);
    }
}

/// Whether the transformation entry converts into a format that lists the
/// target extension.
fn entry_applies(formats: &Vec<FileFormat>, entry: &(String, String), target_ext: &str) -> (r:
    bool)
    ensures
        r == transformation_applies(formats@, *entry, target_ext@),
{
    match find_first_named(formats, entry.0.as_str()) {
        Some(i) => members_contain(&formats[i], target_ext),
        None => false,
    }
}

/// Resolves the one command template of `source` that converts into a
/// format listing `target_ext`. Fails with `NoTransformation` when no entry
/// applies and with `AmbiguousTransformation` when two or more do.
pub fn command_for(formats: &Vec<FileFormat>, source: &FileFormat, target_ext: &str) -> (r: Result<
    String,
    ResolveError,
>)
    ensures
        command_resolution_post(formats@, source.transformations@, target_ext@, r),
{
    let n = source.transformations.len();
    let mut count: usize = 0;
    let mut found: Option<String> = None;
    let ghost transfos = source.transformations@;
    let mut i: usize = 0;
    while i < n
        invariant
            n == transfos.len(),
            transfos == source.transformations@,
            i <= n,
            count == count_applying(formats@, transfos.subrange(0, i as int), target_ext@),
            count <= i,
            count >= 1 ==> match found {
                Some(cmd) => exists|k: int|
                    0 <= k < i && transformation_applies(formats@, #[trigger] transfos[k],
                        target_ext@) && cmd@ == transfos[k].1@,
                None => false,
            },
            count == 0 ==> found is None,
        decreases n - i,
    {
        proof {
            assert(transfos.subrange(0, i + 1).drop_last() =~= transfos.subrange(0, i as int));
            assert(transfos.subrange(0, i + 1).last() == transfos[i as int]);
        }
        if entry_applies(formats, &source.transformations[i], target_ext) {
            count = count + 1;
            found = Some(source.transformations[i].1.clone());
        }
        i = i + 1;
    }
    proof {
        assert(transfos.subrange(0, n as int) =~= transfos);
    }
    if count == 1 {
        Ok(found.unwrap())
    } else if count == 0 {
        Err(ResolveError::NoTransformation)
    } else {
        Err(ResolveError::AmbiguousTransformation)
    }
}

/// Resolution is deterministic: two results that both satisfy the
/// format-resolution contract for the same catalog and extension are the
/// same result, so resolving twice yields the same format.
pub proof fn lemma_format_resolution_deterministic(
    formats: Seq<FileFormat>,
    ext: Seq<char>,
    r1: Result<usize, ResolveError>,
    r2: Result<usize, ResolveError>,
)
    requires
        format_resolution_post(formats, ext, r1),
        format_resolution_post(formats, ext, r2),
    ensures
        r1 == r2,
{
    match (r1, r2) {
        (Ok(i), Ok(j)) => {
            lemma_unique_match(formats, ext, i as int, j as int);
        },
        _ => {},
    }
}

/// Ambiguity is detected, never resolved silently: a catalog in which two
/// formats both list the extension cannot resolve it to any format.
pub proof fn lemma_ambiguous_extension_fails(
    formats: Seq<FileFormat>,
    ext: Seq<char>,
    i: int,
    j: int,
    r: Result<usize, ResolveError>,
)
    requires
        0 <= i < j < formats.len(),
        format_matches(formats[i], ext),
        format_matches(formats[j], ext),
        format_resolution_post(formats, ext, r),
    ensures
        r == Err::<usize, ResolveError>(ResolveError::AmbiguousFormat),
{
    lemma_count_matching_at_least_two(formats, ext, i, j);
}

} // verus!
