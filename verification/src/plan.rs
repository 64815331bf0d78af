//! Destination planning: from a source path and the destination argument,
//! the output path and target extension for the transfer, under the three
//! destination shapes: an existing directory, a path that fully names a
//! file, and a path that gives only a directory or an extension.

use vstd::prelude::*;

use crate::paths::{spec_decompose, split_extension};
use crate::strutil::str_eq;

verus! {

/// What one source file becomes: where it goes, which extensions are
/// involved, and whether a format conversion is needed at all.
#[derive(Debug)]
pub struct ConversionPlan {
    pub source_path: String,
    pub dest_path: String,
    pub source_extension: String,
    pub target_extension: String,
    pub needs_conversion: bool,
}

/// Joining a file name to a directory: nothing before the name when the
/// directory is empty, and no doubled separator when the directory already
/// ends in one.
pub open spec fn spec_join(dir: Seq<char>, name: Seq<char>) -> Seq<char> {
    if dir.len() == 0 {
        name
    } else if dir.last() == '/' {
        dir + name
    } else {
        dir + seq!['/'] + name
    }
}

/// The extension the output file must have. A directory destination keeps
/// the source extension; a destination without a file name takes the
/// destination's extension if it has one, else the source's; a destination
/// that fully names a file dictates its own extension.
pub open spec fn spec_target_extension(source: Seq<char>, dest: Seq<char>, dest_is_dir: bool)
    -> Seq<char> {
    let se = spec_decompose(source).2;
    if dest_is_dir {
        se
    } else {
        let d = spec_decompose(dest);
        if d.1.len() == 0 {
            if d.2.len() > 0 {
                d.2
            } else {
                se
            }
        } else {
            d.2
        }
    }
}

/// The output path. A directory destination receives the source's file
/// name; a destination without a file name receives the source's stem with
/// the target extension; a destination that names a file is taken as
/// given.
pub open spec fn spec_dest_path(source: Seq<char>, dest: Seq<char>, dest_is_dir: bool)
    -> Seq<char> {
    let s = spec_decompose(source);
    if dest_is_dir {
        spec_join(dest, s.1 + s.2)
    } else {
        let d = spec_decompose(dest);
        if d.1.len() == 0 {
            spec_join(d.0, s.1 + spec_target_extension(source, dest, dest_is_dir))
        } else {
            spec_join(d.0, d.1 + d.2)
        }
    }
}

/// A plan is right for its inputs when every field is the planned value and
/// the conversion flag records exactly whether the extensions differ.
pub open spec fn plan_matches(
    p: ConversionPlan,
    source: Seq<char>,
    dest: Seq<char>,
    dest_is_dir: bool,
) -> bool {
    &&& p.source_path@ == source
    &&& p.source_extension@ == spec_decompose(source).2
    &&& p.target_extension@ == spec_target_extension(source, dest, dest_is_dir)
    &&& p.dest_path@ == spec_dest_path(source, dest, dest_is_dir)
    &&& p.needs_conversion == (spec_decompose(source).2 != spec_target_extension(
        source,
        dest,
        dest_is_dir,
    ))
}

/// Joins a file name to a directory as `spec_join` says.
fn join_path(dir: &str, name: &str) -> (r: String)
    ensures
        r@ == spec_join(dir@, name@),
{
    let n = dir.unicode_len();
    if n == 0 {
        name.to_owned()
    } else if dir.get_char(n - 1) == '/' {
        let mut out = dir.to_owned();
        out.append(name);
        out
    } else {
        let mut out = dir.to_owned();
        out.append("/");
        out.append(name);
        proof {
            reveal_strlit("/");
            assert("/"@ =~= seq!['/']);
            assert(dir@ + "/"@ + name@ =~= dir@ + seq!['/'] + name@);
        }
        out
    }
}

/// Plans one source file against the destination argument. `dest_is_dir`
/// says whether the destination names an existing directory, which the
/// caller must have checked on the file system.
pub fn plan_one(source: &str, dest: &str, dest_is_dir: bool) -> (p: ConversionPlan)
    ensures
        plan_matches(p, source@, dest@, dest_is_dir),
{
    let (_, source_stem, source_ext) = split_extension(source);
    if dest_is_dir {
        let mut file_name = source_stem;
        file_name.append(source_ext.as_str());
        let dest_path = join_path(dest, file_name.as_str());
        ConversionPlan {
            source_path: source.to_owned(),
            dest_path,
            source_extension: source_ext.clone(),
            target_extension: source_ext,
            needs_conversion: false,
        }
    } else {
        let (end_dir, end_name, end_ext) = split_extension(dest);
        if end_name.unicode_len() == 0 {
            let target_ext = if end_ext.unicode_len() > 0 {
                end_ext
            } else {
                source_ext.clone()
            };
            let mut file_name = source_stem;
            file_name.append(target_ext.as_str());
            let dest_path = join_path(end_dir.as_str(), file_name.as_str());
            let needs_conversion = !str_eq(source_ext.as_str(), target_ext.as_str());
            ConversionPlan {
                source_path: source.to_owned(),
                dest_path,
                source_extension: source_ext,
                target_extension: target_ext,
                needs_conversion,
            }
        } else {
            let mut file_name = end_name;
            file_name.append(end_ext.as_str());
            let dest_path = join_path(end_dir.as_str(), file_name.as_str());
            let needs_conversion = !str_eq(source_ext.as_str(), end_ext.as_str());
            ConversionPlan {
                source_path: source.to_owned(),
                dest_path,
                source_extension: source_ext,
                target_extension: end_ext,
                needs_conversion,
            }
        }
    }
}

/// Plans every source file of a run against the one destination argument.
pub fn plan_all(sources: &Vec<String>, dest: &str, dest_is_dir: bool) -> (plans: Vec<
    ConversionPlan,
>)
    ensures
        plans@.len() == sources@.len(),
        forall|i: int|
            0 <= i < sources@.len() ==> plan_matches(
                #[trigger] plans@[i],
                sources@[i]@,
                dest@,
                dest_is_dir,
            ),
{
    let mut plans: Vec<ConversionPlan> = Vec::new();
    let n = sources.len();
    let mut i: usize = 0;
    while i < n
        invariant
            n == sources@.len(),
            i <= n,
            plans@.len() == i,
            forall|k: int|
                0 <= k < i ==> plan_matches(#[trigger] plans@[k], sources@[k]@, dest@, dest_is_dir),
        decreases n - i,
    {
        let p = plan_one(sources[i].as_str(), dest, dest_is_dir);
        plans.push(p);
        i = i + 1;
    }
    plans
}

/// A directory destination never asks for a conversion: the plan keeps the
/// source extension and places the file, under its own name, inside the
/// directory.
pub proof fn lemma_directory_destination(
    p: ConversionPlan,
    source: Seq<char>,
    dest: Seq<char>,
)
    requires
        plan_matches(p, source, dest, true),
    ensures
        p.needs_conversion == false,
        p.target_extension@ == spec_decompose(source).2,
        p.dest_path@ == spec_join(dest, spec_decompose(source).1 + spec_decompose(source).2),
{
}

} // verus!
