//! The destructive-operation confirmation guard. A run that removes source
//! files and has `warn_dangerous` set asks once before touching any file:
//! a trimmed, case-insensitive `y` proceeds, `n` aborts the whole run,
//! anything else asks again, and input that ends without a decisive answer
//! aborts too — only an affirmative answer lets a destructive run touch
//! files. The guard is all-or-nothing, not per file.

use vstd::prelude::*;

verus! {

/// What one response line means at the confirmation prompt.
#[derive(Debug, Clone, Copy, PartialEq, Eq, Structural)]
pub enum Response {
    Yes,
    No,
    Unrecognized,
}

/// A character the prompt ignores at the ends of a response line: the
/// Unicode white-space characters, the set that `str::trim` removes.
pub open spec fn is_space_char(c: char) -> bool {
    ||| c == '\t'
    ||| c == '\n'
    ||| c == '\u{000B}'
    ||| c == '\u{000C}'
    ||| c == '\r'
    ||| c == ' '
    ||| c == '\u{0085}'
    ||| c == '\u{00A0}'
    ||| c == '\u{1680}'
    ||| c == '\u{2000}'
    ||| c == '\u{2001}'
    ||| c == '\u{2002}'
    ||| c == '\u{2003}'
    ||| c == '\u{2004}'
    ||| c == '\u{2005}'
    ||| c == '\u{2006}'
    ||| c == '\u{2007}'
    ||| c == '\u{2008}'
    ||| c == '\u{2009}'
    ||| c == '\u{200A}'
    ||| c == '\u{2028}'
    ||| c == '\u{2029}'
    ||| c == '\u{202F}'
    ||| c == '\u{205F}'
    ||| c == '\u{3000}'
}

/// `s` without its leading whitespace.
pub open spec fn strip_leading_spaces(s: Seq<char>) -> Seq<char>
    decreases s.len(),
{
    if s.len() > 0 && is_space_char(s[0]) {
        strip_leading_spaces(s.subrange(1, s.len() as int))
    } else {
        s
    }
}

/// `s` without its trailing whitespace.
pub open spec fn strip_trailing_spaces(s: Seq<char>) -> Seq<char>
    decreases s.len(),
{
    if s.len() > 0 && is_space_char(s.last()) {
        strip_trailing_spaces(s.drop_last())
    } else {
        s
    }
}

/// `s` with whitespace removed from both ends.
pub open spec fn spec_trim(s: Seq<char>) -> Seq<char> {
    strip_trailing_spaces(strip_leading_spaces(s))
}

/// The meaning of a response line: `y`/`Y` and `n`/`N` after trimming are
/// decisive, anything else is not.
pub open spec fn spec_response(line: Seq<char>) -> Response {
    let t = spec_trim(line);
    if t.len() == 1 && (t[0] == 'y' || t[0] == 'Y') {
        Response::Yes
    } else if t.len() == 1 && (t[0] == 'n' || t[0] == 'N') {
        Response::No
    } else {
        Response::Unrecognized
    }
}

/// Whether the responses, read in order, let the run proceed: the first
/// decisive one decides. A run whose input ends without a decision is
/// refused — only an affirmative answer can let a destructive run touch
/// files.
pub open spec fn spec_confirmation_scan(responses: Seq<Seq<char>>) -> bool
    decreases responses.len(),
{
    if responses.len() == 0 {
        false
    } else {
        match spec_response(responses[0]) {
            Response::Yes => true,
            Response::No => false,
            Response::Unrecognized => spec_confirmation_scan(responses.subrange(
                1,
                responses.len() as int,
            )),
        }
    }
}

/// Whether the run proceeds: the prompt only stands when the run both removes
/// sources and has `warn_dangerous` set; otherwise the run proceeds
/// unasked.
pub open spec fn spec_confirmation(delete_source: bool, warn_dangerous: bool, responses: Seq<Seq<char>>)
    -> bool {
    if delete_source && warn_dangerous {
        spec_confirmation_scan(responses)
    } else {
        true
    }
}

/// `strip_leading_spaces` keeps exactly the suffix from the first
/// non-whitespace character.
proof fn lemma_strip_leading_spaces_at(s: Seq<char>, a: int)
    requires
        0 <= a <= s.len(),
        forall|i: int| 0 <= i < a ==> is_space_char(s[i]),
        a == s.len() || !is_space_char(s[a]),
    ensures
        strip_leading_spaces(s) == s.subrange(a, s.len() as int),
    decreases s.len(),
{
    if a > 0 {
        let rest = s.subrange(1, s.len() as int);
        assert(forall|i: int| 0 <= i < rest.len() ==> rest[i] == s[i + 1]);
        lemma_strip_leading_spaces_at(rest, a - 1);
        assert(rest.subrange(a - 1, rest.len() as int) =~= s.subrange(a, s.len() as int));
    } else {
        if s.len() > 0 && is_space_char(s[0]) {
            assert(false);
        }
        assert(s =~= s.subrange(0, s.len() as int));
    }
}

/// `strip_trailing_spaces` keeps exactly the prefix up to the last
/// non-whitespace character.
proof fn lemma_strip_trailing_spaces_at(s: Seq<char>, b: int)
    requires
        0 <= b <= s.len(),
        forall|i: int| b <= i < s.len() ==> is_space_char(s[i]),
        b == 0 || !is_space_char(s[b - 1]),
    ensures
        strip_trailing_spaces(s) == s.subrange(0, b),
    decreases s.len(),
{
    if s.len() > b {
        lemma_strip_trailing_spaces_at(s.drop_last(), b);
        assert(s.drop_last().subrange(0, b) =~= s.subrange(0, b));
    } else {
        assert(s =~= s.subrange(0, b));
    }
}

/// Whether the prompt ignores this character at the ends of a line.
fn is_space(c: char) -> (r: bool)
    ensures
        r == is_space_char(c),
{
    c == '\t' || c == '\n' || c == '\u{000B}' || c == '\u{000C}' || c == '\r' || c == ' '
        || c == '\u{0085}' || c == '\u{00A0}' || c == '\u{1680}' || c == '\u{2000}'
        || c == '\u{2001}' || c == '\u{2002}' || c == '\u{2003}' || c == '\u{2004}'
        || c == '\u{2005}' || c == '\u{2006}' || c == '\u{2007}' || c == '\u{2008}'
        || c == '\u{2009}' || c == '\u{200A}' || c == '\u{2028}' || c == '\u{2029}'
        || c == '\u{202F}' || c == '\u{205F}' || c == '\u{3000}'
}

/// Reads one response line: trimmed, case-insensitive `y` or `n` are
/// decisive, everything else asks again.
pub fn classify_response(line: &str) -> (r: Response)
    ensures
        r == spec_response(line@),
{
    let n = line.unicode_len();

    // The first non-whitespace character.
    let mut a: usize = 0;
    while a < n && is_space(line.get_char(a))
        invariant
            a <= n,
            n == line@.len(),
            forall|i: int| 0 <= i < a ==> is_space_char(line@[i]),
        decreases n - a,
    {
        a = a + 1;
    }
    proof {
        lemma_strip_leading_spaces_at(line@, a as int);
    }
    let ghost led = line@.subrange(a as int, n as int);

    // The last non-whitespace character at or after it.
    let mut b: usize = n;
    while b > a && is_space(line.get_char(b - 1))
        invariant
            a <= b <= n,
            n == line@.len(),
            forall|i: int| b <= i < n ==> is_space_char(line@[i]),
        decreases b,
    {
        b = b - 1;
    }
    proof {
        assert(forall|i: int| 0 <= i < led.len() ==> led[i] == line@[a + i]);
        lemma_strip_trailing_spaces_at(led, b - a);
        assert(spec_trim(line@) =~= line@.subrange(a as int, b as int));
    }

    if b - a == 1 {
        let c = line.get_char(a);
        if c == 'y' || c == 'Y' {
            Response::Yes
        } else if c == 'n' || c == 'N' {
            Response::No
        } else {
            Response::Unrecognized
        }
    } else {
        Response::Unrecognized
    }
}

/// Runs the confirmation over a sequence of response lines, first decisive answer
/// deciding, as `spec_confirmation` says.
pub fn confirmation_outcome(delete_source: bool, warn_dangerous: bool, responses: &Vec<String>)
    -> (proceed: bool)
    ensures
        proceed == spec_confirmation(delete_source, warn_dangerous, responses@.map_values(|s: String| s@)),
{
    if !(delete_source && warn_dangerous) {
        return true;
    }
    let ghost lines = responses@.map_values(|s: String| s@);
    let n = responses.len();
    proof {
        assert(lines.subrange(0, n as int) =~= lines);
    }
    let mut i: usize = 0;
    while i < n
        invariant
            delete_source,
            warn_dangerous,
            i <= n,
            n == responses@.len(),
            lines == responses@.map_values(|s: String| s@),
            spec_confirmation_scan(lines) == spec_confirmation_scan(lines.subrange(i as int, n as int)),
            forall|k: int| 0 <= k < i ==> spec_response(#[trigger] lines[k]) == Response::Unrecognized,
        decreases n - i,
    {
        let ghost rest = lines.subrange(i as int, n as int);
        proof {
            assert(lines[i as int] == responses@[i as int]@);
            assert(rest[0] == lines[i as int]);
            assert(rest.subrange(1, rest.len() as int) =~= lines.subrange(i + 1, n as int));
        }
        match classify_response(responses[i].as_str()) {
            Response::Yes => {
                return true;
            },
            Response::No => {
                return false;
            },
            Response::Unrecognized => {},
        }
        i = i + 1;
    }
    proof {
        assert(lines.subrange(n as int, n as int) =~= Seq::<Seq<char>>::empty());
    }
    false
}

/// Input that ends without a decisive answer aborts the run: when the
/// prompt stands and no response is decisive, the run is refused.
pub proof fn lemma_exhausted_input_aborts(
    delete_source: bool,
    warn_dangerous: bool,
    responses: Seq<Seq<char>>,
)
    requires
        delete_source,
        warn_dangerous,
        forall|k: int|
            0 <= k < responses.len() ==> spec_response(#[trigger] responses[k])
                == Response::Unrecognized,
    ensures
        spec_confirmation(delete_source, warn_dangerous, responses) == false,
    decreases responses.len(),
{
    if responses.len() > 0 {
        let rest = responses.subrange(1, responses.len() as int);
        assert forall|k: int| 0 <= k < rest.len() implies spec_response(#[trigger] rest[k])
            == Response::Unrecognized by {
            assert(rest[k] == responses[k + 1]);
        }
        lemma_exhausted_input_aborts(delete_source, warn_dangerous, rest);
    }
}

/// A negative answer aborts the whole run: when the prompt stands and the
/// first decisive response is `n`, the run is refused, whatever follows.
pub proof fn lemma_negative_response_aborts(
    delete_source: bool,
    warn_dangerous: bool,
    responses: Seq<Seq<char>>,
    i: int,
)
    requires
        delete_source,
        warn_dangerous,
        0 <= i < responses.len(),
        spec_response(responses[i]) == Response::No,
        forall|k: int| 0 <= k < i ==> spec_response(#[trigger] responses[k]) == Response::Unrecognized,
    ensures
        spec_confirmation(delete_source, warn_dangerous, responses) == false,
    decreases i,
{
    if i == 0 {
    } else {
        let rest = responses.subrange(1, responses.len() as int);
        assert(rest[i - 1] == responses[i]);
        assert forall|k: int| 0 <= k < i - 1 implies spec_response(#[trigger] rest[k])
            == Response::Unrecognized by {
            assert(rest[k] == responses[k + 1]);
        }
        lemma_negative_response_aborts(delete_source, warn_dangerous, rest, i - 1);
    }
}

} // verus!
