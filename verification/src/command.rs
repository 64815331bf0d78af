//! Command-template handling and transformation dispatch. A template is a
//! space-delimited token sequence whose first token names the executable;
//! among the remaining tokens, `{s}` stands for the resolved source path and
//! `{e}` for the resolved destination path, and every other token is literal
//! argument text. Dispatch decides whether a plan is a plain transfer or an
//! external command, and whether the source may be removed afterwards.

use vstd::prelude::*;

use crate::catalog::{FileFormat, count_matching, format_matches};
use crate::plan::{ConversionPlan, plan_matches};
use crate::resolve::{
    ResolveError, command_for, command_resolution_post, count_applying, format_for_extension,
    format_resolution_post, transformation_applies,
};
use crate::strutil::str_eq;

verus! {

/// The index of the first space in `s`, or `-1` if `s` has none.
pub open spec fn first_space(s: Seq<char>) -> int
    decreases s.len(),
{
    if s.len() == 0 {
        -1
    } else if s[0] == ' ' {
        0
    } else {
        let r = first_space(s.subrange(1, s.len() as int));
        if r == -1 {
            -1
        } else {
            r + 1
        }
    }
}

/// `first_space` is pinned down by a space with none before it, or by the
/// absence of spaces.
proof fn lemma_first_space_at(s: Seq<char>, j: int)
    requires
        -1 <= j < s.len(),
        j >= 0 ==> s[j] == ' ' && (forall|k: int| 0 <= k < j ==> s[k] != ' '),
        j == -1 ==> forall|k: int| 0 <= k < s.len() ==> s[k] != ' ',
    ensures
        first_space(s) == j,
    decreases s.len(),
{
    if s.len() == 0 {
    } else if s[0] == ' ' {
        assert(j == 0);
    } else {
        let rest = s.subrange(1, s.len() as int);
        assert(forall|k: int| 0 <= k < rest.len() ==> rest[k] == s[k + 1]);
        if j == -1 {
            lemma_first_space_at(rest, -1);
        } else {
            lemma_first_space_at(rest, j - 1);
        }
    }
}

/// `first_space` lies in bounds and marks a space when non-negative.
proof fn lemma_first_space_props(s: Seq<char>)
    ensures
        -1 <= first_space(s) < s.len(),
        first_space(s) >= 0 ==> s[first_space(s)] == ' ',
    decreases s.len(),
{
    if s.len() == 0 {
    } else if s[0] == ' ' {
    } else {
        lemma_first_space_props(s.subrange(1, s.len() as int));
    }
}

/// The tokens of a template: the pieces between spaces, in order. Splitting
/// keeps empty pieces, so the result always has at least one token.
pub open spec fn split_spaces(s: Seq<char>) -> Seq<Seq<char>>
    decreases s.len(),
    via split_spaces_decreases
{
    let i = first_space(s);
    if i == -1 {
        seq![s]
    } else {
        seq![s.subrange(0, i)] + split_spaces(s.subrange(i + 1, s.len() as int))
    }
}

#[via_fn]
proof fn split_spaces_decreases(s: Seq<char>) {
    lemma_first_space_props(s);
}

/// The `{s}` placeholder for the source path.
pub open spec fn placeholder_source() -> Seq<char> {
    seq!['{', 's', '}']
}

/// The `{e}` placeholder for the destination path.
pub open spec fn placeholder_dest() -> Seq<char> {
    seq!['{', 'e', '}']
}

/// One token after placeholder substitution.
pub open spec fn substitute_token(tok: Seq<char>, src: Seq<char>, dst: Seq<char>) -> Seq<char> {
    if tok == placeholder_source() {
        src
    } else if tok == placeholder_dest() {
        dst
    } else {
        tok
    }
}

/// The full argument vector a template resolves to: the executable named by
/// the first token, then the remaining tokens with placeholders substituted.
pub open spec fn spec_build_command(template: Seq<char>, src: Seq<char>, dst: Seq<char>) -> Seq<
    Seq<char>,
> {
    let toks = split_spaces(template);
    seq![toks[0]] + toks.subrange(1, toks.len() as int).map_values(
        |t: Seq<char>| substitute_token(t, src, dst),
    )
}

/// Splits `template` into its space-delimited tokens.
fn tokenize(template: &str) -> (toks: Vec<String>)
    ensures
        toks@.map_values(|t: String| t@) == split_spaces(template@),
{
    let n = template.unicode_len();
    proof {
        assert(template@.subrange(0, n as int) =~= template@);
    }
    let mut toks: Vec<String> = Vec::new();
    let mut start: usize = 0;
    let mut done = false;
    while !done
        invariant
            n == template@.len(),
            !done ==> start <= n,
            !done ==> split_spaces(template@) =~= toks@.map_values(|t: String| t@) + split_spaces(
                template@.subrange(start as int, n as int),
            ),
            done ==> toks@.map_values(|t: String| t@) =~= split_spaces(template@),
        decreases n - start + (if done { 0int } else { 1int }),
    {
        // The next space at or after `start`, if any.
        let mut sp: usize = start;
        while sp < n && template.get_char(sp) != ' '
            invariant
                start <= sp <= n,
                n == template@.len(),
                forall|k: int| start <= k < sp ==> template@[k] != ' ',
            decreases n - sp,
        {
            sp = sp + 1;
        }
        let ghost suffix = template@.subrange(start as int, n as int);
        let tok = template.substring_char(start, sp).to_owned();
        proof {
            assert(forall|k: int| 0 <= k < suffix.len() ==> suffix[k] == template@[start + k]);
        }
        if sp < n {
            proof {
                lemma_first_space_at(suffix, sp - start);
                assert(suffix.subrange(0, sp - start) =~= template@.subrange(
                    start as int,
                    sp as int,
                ));
                assert(suffix.subrange(sp - start + 1, suffix.len() as int) =~= template@.subrange(
                    sp + 1,
                    n as int,
                ));
            }
            toks.push(tok);
            proof {
                assert(toks@.map_values(|t: String| t@) =~= toks@.drop_last().map_values(
                    |t: String| t@,
                ) + seq![template@.subrange(start as int, sp as int)]);
            }
            start = sp + 1;
        } else {
            proof {
                lemma_first_space_at(suffix, -1);
                assert(suffix =~= template@.subrange(start as int, n as int));
            }
            toks.push(tok);
            proof {
                assert(toks@.map_values(|t: String| t@) =~= toks@.drop_last().map_values(
                    |t: String| t@,
                ) + seq![suffix]);
            }
            done = true;
        }
    }
    toks
}

/// Resolves a template against the planned source and destination paths:
/// the executable first, then the arguments with `{s}` and `{e}` replaced
/// by the paths.
pub fn build_command(template: &str, source_path: &str, dest_path: &str) -> (argv: Vec<String>)
    ensures
        argv@.map_values(|s: String| s@) == spec_build_command(template@, source_path@, dest_path@),
        argv@.len() >= 1,
{
    let toks = tokenize(template);
    let ghost spec_toks = split_spaces(template@);
    proof {
        assert(spec_toks.len() >= 1) by {
            lemma_first_space_props(template@);
        }
        assert(toks@.len() == spec_toks.len());
    }
    let mut argv: Vec<String> = Vec::new();
    argv.push(toks[0].clone());
    let n = toks.len();
    let ghost expected = spec_build_command(template@, source_path@, dest_path@);
    proof {
        assert(expected =~= seq![spec_toks[0]] + spec_toks.subrange(1, spec_toks.len() as int)
            .map_values(|t: Seq<char>| substitute_token(t, source_path@, dest_path@)));
        assert(argv@.map_values(|s: String| s@) =~= expected.subrange(0, 1));
    }
    let mut i: usize = 1;
    while i < n
        invariant
            1 <= i <= n,
            n == toks@.len(),
            n == spec_toks.len(),
            toks@.map_values(|t: String| t@) == spec_toks,
            expected == spec_build_command(template@, source_path@, dest_path@),
            expected =~= seq![spec_toks[0]] + spec_toks.subrange(1, spec_toks.len() as int)
                .map_values(|t: Seq<char>| substitute_token(t, source_path@, dest_path@)),
            argv@.len() == i,
            argv@.map_values(|s: String| s@) =~= expected.subrange(0, i as int),
        decreases n - i,
    {
        proof {
            assert(toks@.map_values(|t: String| t@)[i as int] == toks@[i as int]@);
            assert(expected[i as int] == substitute_token(
                spec_toks[i as int],
                source_path@,
                dest_path@,
            ));
        }
        let tok = &toks[i];
        if str_eq(tok.as_str(), "{s}") {
            proof {
                reveal_strlit("{s}");
                assert("{s}"@ =~= placeholder_source());
            }
            argv.push(source_path.to_owned());
        } else if str_eq(tok.as_str(), "{e}") {
            proof {
                reveal_strlit("{s}");
                reveal_strlit("{e}");
                assert("{s}"@ =~= placeholder_source());
                assert("{e}"@ =~= placeholder_dest());
            }
            argv.push(dest_path.to_owned());
        } else {
            proof {
                reveal_strlit("{s}");
                reveal_strlit("{e}");
                assert("{s}"@ =~= placeholder_source());
                assert("{e}"@ =~= placeholder_dest());
            }
            argv.push(tok.clone());
        }
        proof {
            assert(argv@.map_values(|s: String| s@) =~= argv@.drop_last().map_values(
                |s: String| s@,
            ) + seq![argv@.last()@]);
            assert(argv@.map_values(|s: String| s@) =~= expected.subrange(0, i + 1));
        }
        i = i + 1;
    }
    proof {
        assert(expected.subrange(0, n as int) =~= expected);
    }
    argv
}

/// What a plan dispatches to: a plain file transfer, or an external command
/// given by its argument vector.
#[derive(Debug)]
pub enum Action {
    Transfer,
    Run(Vec<String>),
}

/// What `prepare_conversion` must return. A plan without a conversion is a
/// plain transfer, whatever the catalog holds. A plan with one resolves the
/// source extension to its single format, that format's transformations to
/// the single applying command template, and that template to the argument
/// vector; each resolution failure surfaces as its own error.
pub open spec fn prepare_post(
    plan: ConversionPlan,
    formats: Seq<FileFormat>,
    r: Result<Action, ResolveError>,
) -> bool {
    let se = plan.source_extension@;
    let te = plan.target_extension@;
    match r {
        Ok(a) => match a {
            Action::Transfer => !plan.needs_conversion,
            Action::Run(argv) => plan.needs_conversion && exists|i: int, k: int|
                #![auto]
                0 <= i < formats.len() && format_matches(formats[i], se) && count_matching(
                    formats,
                    se,
                ) == 1 && 0 <= k < formats[i].transformations@.len() && transformation_applies(
                    formats,
                    formats[i].transformations@[k],
                    te,
                ) && count_applying(formats, formats[i].transformations@, te) == 1
                    && argv@.map_values(|s: String| s@) == spec_build_command(
                    formats[i].transformations@[k].1@,
                    plan.source_path@,
                    plan.dest_path@,
                ),
        },
        Err(e) => plan.needs_conversion && ((e == ResolveError::UnknownFormat && count_matching(
            formats,
            se,
        ) == 0) || (e == ResolveError::AmbiguousFormat && count_matching(formats, se) >= 2) || (
        count_matching(formats, se) == 1 && exists|i: int|
            #![auto]
            0 <= i < formats.len() && format_matches(formats[i], se) && ((e
                == ResolveError::NoTransformation && count_applying(
                formats,
                formats[i].transformations@,
                te,
            ) == 0) || (e == ResolveError::AmbiguousTransformation && count_applying(
                formats,
                formats[i].transformations@,
                te,
            ) >= 2)))),
    }
}

/// Decides what a plan dispatches to: a plain transfer when no conversion
/// is needed, else the resolved external command.
pub fn prepare_conversion(plan: &ConversionPlan, formats: &Vec<FileFormat>) -> (r: Result<
    Action,
    ResolveError,
>)
    ensures
        prepare_post(*plan, formats@, r),
{
    if !plan.needs_conversion {
        return Ok(Action::Transfer);
    }
    let fi = match format_for_extension(formats, plan.source_extension.as_str()) {
        Ok(i) => i,
        Err(e) => {
            return Err(e);
        },
    };
    let cmd = match command_for(formats, &formats[fi], plan.target_extension.as_str()) {
        Ok(c) => c,
        Err(e) => {
            return Err(e);
        },
    };
    let argv = build_command(cmd.as_str(), plan.source_path.as_str(), plan.dest_path.as_str());
    Ok(Action::Run(argv))
}

/// The source file may be removed only after the work succeeded, and only
/// when the run asked for removal: a failed conversion never costs the
/// source.
pub fn should_delete_source(succeeded: bool, delete_source: bool) -> (r: bool)
    ensures
        r == (succeeded && delete_source),
{
    succeeded && delete_source
}

/// A plan whose source and target extensions agree never dispatches to an
/// external command, whatever the catalog holds: the round trip is a plain
/// transfer.
pub proof fn lemma_identical_extensions_plain_transfer(
    p: ConversionPlan,
    source: Seq<char>,
    dest: Seq<char>,
    dest_is_dir: bool,
    formats: Seq<FileFormat>,
    r: Result<Action, ResolveError>,
)
    requires
        plan_matches(p, source, dest, dest_is_dir),
        p.source_extension@ == p.target_extension@,
        prepare_post(p, formats, r),
    ensures
        r == Ok::<Action, ResolveError>(Action::Transfer),
{
    assert(!p.needs_conversion);
    match r {
        Ok(a) => match a {
            Action::Transfer => {},
            Action::Run(_) => {
                assert(false);
            },
        },
        Err(_) => {
            assert(false);
        },
    }
}

} // verus!
