//! Path decomposition: a path string splits into a directory part, a file
//! stem, and a file extension.
//!
//! The rules, over well-formed UTF-8 path strings:
//! - `.` and `..` decompose to `(path, "", "")`.
//! - Trailing `/` separators are ignored: `a/b/` decomposes as `a/b` does.
//! - A trailing `.` path component is ignored too, as the platform's path
//!   parsing drops it: `a/.` decomposes as `a` does.
//! - A file name of `..` has neither stem nor extension: `a/..` decomposes
//!   to `("a", "", "")`.
//! - The directory is everything before the last separator, with its own
//!   trailing separators stripped; a path whose directory part consists of
//!   separators alone has directory `/`; a path without a separator has
//!   directory `""`.
//! - The file name splits at its last dot, unless that dot is its first
//!   character: `bar.txt` has stem `bar` and extension `.txt`, while `.txt`
//!   has no extension by that rule.
//! - Dotfile ambiguity: when the rule above leaves no extension but the stem
//!   begins with a dot, the stem is taken as the extension instead, and the
//!   stem is left empty (the stem must be non-empty for this to apply). A
//!   bare `.png` argument therefore means "the png extension, unnamed".
//!
//! The function is total: every string decomposes, no errors.

use vstd::prelude::*;

verus! {

/// The longest prefix of `s` that does not end in a `/` separator.
pub open spec fn strip_trailing_seps(s: Seq<char>) -> Seq<char>
    decreases s.len(),
{
    if s.len() > 0 && s.last() == '/' {
        strip_trailing_seps(s.drop_last())
    } else {
        s
    }
}

/// Stripping trailing separators never lengthens a string.
proof fn lemma_strip_trailing_seps_len(s: Seq<char>)
    ensures
        strip_trailing_seps(s).len() <= s.len(),
    decreases s.len(),
{
    if s.len() > 0 && s.last() == '/' {
        lemma_strip_trailing_seps_len(s.drop_last());
    }
}

/// `s` without trailing separators and without trailing `.` path
/// components: the platform's path parsing drops a final `.` component, so
/// `a/.` names what `a` names.
pub open spec fn drop_dot_segments(s: Seq<char>) -> Seq<char>
    decreases s.len(),
    via drop_dot_segments_decreases
{
    let t = strip_trailing_seps(s);
    if t.len() > 0 && t.last() == '.' && (t.len() == 1 || t[t.len() - 2] == '/') {
        drop_dot_segments(t.drop_last())
    } else {
        t
    }
}

#[via_fn]
proof fn drop_dot_segments_decreases(s: Seq<char>) {
    lemma_strip_trailing_seps_len(s);
}

/// The index of the last occurrence of `c` in `s`, or `-1` if `c` does not
/// occur.
pub open spec fn last_index_of_char(s: Seq<char>, c: char) -> int
    decreases s.len(),
{
    if s.len() == 0 {
        -1
    } else if s.last() == c {
        s.len() - 1
    } else {
        last_index_of_char(s.drop_last(), c)
    }
}

/// `.` or `..`: a path that names a directory relative to the current one.
pub open spec fn is_cur_or_parent_dir(s: Seq<char>) -> bool {
    ||| s.len() == 1 && s[0] == '.'
    ||| s.len() == 2 && s[0] == '.' && s[1] == '.'
}

/// The file-name component: what follows the last separator, after
/// trailing separators and trailing `.` components are dropped.
pub open spec fn spec_file_name(s: Seq<char>) -> Seq<char> {
    let t = drop_dot_segments(s);
    let i = last_index_of_char(t, '/');
    if i < 0 {
        t
    } else {
        t.subrange(i + 1, t.len() as int)
    }
}

/// The directory component: what precedes the last separator, with its own
/// trailing separators stripped; `/` when only separators precede it; empty
/// when no separator occurs.
pub open spec fn spec_directory(s: Seq<char>) -> Seq<char> {
    let t = drop_dot_segments(s);
    let i = last_index_of_char(t, '/');
    if i < 0 {
        Seq::empty()
    } else {
        let d = strip_trailing_seps(t.subrange(0, i));
        if d.len() == 0 {
            seq!['/']
        } else {
            d
        }
    }
}

/// The full decomposition of a path into (directory, stem, extension).
pub open spec fn spec_decompose(s: Seq<char>) -> (Seq<char>, Seq<char>, Seq<char>) {
    if is_cur_or_parent_dir(s) {
        (s, Seq::empty(), Seq::empty())
    } else {
        let dir = spec_directory(s);
        let fname = spec_file_name(s);
        if fname.len() == 2 && fname[0] == '.' && fname[1] == '.' {
            (dir, Seq::empty(), Seq::empty())
        } else {
            let j = last_index_of_char(fname, '.');
            let stem = if j > 0 { fname.subrange(0, j) } else { fname };
            let ext = if j > 0 {
                fname.subrange(j, fname.len() as int)
            } else {
                Seq::<char>::empty()
            };
            if ext.len() == 0 && stem.len() > 0 && stem[0] == '.' {
                (dir, Seq::empty(), stem)
            } else {
                (dir, stem, ext)
            }
        }
    }
}

/// `strip_trailing_seps` keeps exactly the prefix up to the last
/// non-separator character.
proof fn lemma_strip_trailing_seps_at(s: Seq<char>, k: int)
    requires
        0 <= k <= s.len(),
        forall|i: int| k <= i < s.len() ==> s[i] == '/',
        k == 0 || s[k - 1] != '/',
    ensures
        strip_trailing_seps(s) == s.subrange(0, k),
    decreases s.len(),
{
    if s.len() > k {
        assert(s.last() == '/');
        lemma_strip_trailing_seps_at(s.drop_last(), k);
        assert(s.drop_last().subrange(0, k) =~= s.subrange(0, k));
    } else {
        if k == 0 {
            assert(s.len() == 0);
            assert(s =~= s.subrange(0, 0));
        } else {
            assert(s.last() == s[k - 1]);
            assert(s =~= s.subrange(0, k));
        }
    }
}

/// `last_index_of_char` is pinned down by its defining properties: the
/// character occurs there and nowhere later, or nowhere at all.
proof fn lemma_last_index_of_char_at(s: Seq<char>, c: char, j: int)
    requires
        -1 <= j < s.len(),
        j >= 0 ==> s[j] == c,
        forall|i: int| j < i < s.len() ==> s[i] != c,
    ensures
        last_index_of_char(s, c) == j,
    decreases s.len(),
{
    if s.len() == 0 {
    } else if s.last() == c {
        assert(j == s.len() - 1);
    } else {
        assert(j < s.len() - 1);
        lemma_last_index_of_char_at(s.drop_last(), c, j);
    }
}

/// The result of `last_index_of_char` always has its defining properties.
proof fn lemma_last_index_of_char_props(s: Seq<char>, c: char)
    ensures
        -1 <= last_index_of_char(s, c) < s.len(),
        last_index_of_char(s, c) >= 0 ==> s[last_index_of_char(s, c)] == c,
        forall|i: int| last_index_of_char(s, c) < i < s.len() ==> s[i] != c,
    decreases s.len(),
{
    if s.len() == 0 {
    } else if s.last() == c {
    } else {
        lemma_last_index_of_char_props(s.drop_last(), c);
        assert forall|i: int| last_index_of_char(s, c) < i < s.len() implies s[i] != c by {
            if i < s.len() - 1 {
                assert(s.drop_last()[i] == s[i]);
            }
        }
    }
}

/// A path that ends in a recognized extension — a dot followed by at least
/// one character, none of which is a dot or a separator — decomposes to
/// exactly that extension, the dotfile special case included.
pub proof fn lemma_recognized_extension(p: Seq<char>, e: Seq<char>)
    requires
        e.len() >= 2,
        e[0] == '.',
        forall|i: int| 1 <= i < e.len() ==> e[i] != '.' && e[i] != '/',
        e.len() <= p.len(),
        p.subrange(p.len() - e.len(), p.len() as int) == e,
    ensures
        spec_decompose(p).2 == e,
{
    let n = p.len() as int;
    let el = e.len() as int;
    assert forall|i: int| 0 <= i < el implies p[n - el + i] == e[i] by {
        assert(p.subrange(n - el, n)[i] == p[n - el + i]);
    }

    // Not `.` or `..`: the suffix would put a dot where the requirements
    // forbid one.
    assert(!is_cur_or_parent_dir(p)) by {
        if p.len() == 2 && p[0] == '.' && p[1] == '.' {
            assert(e[1] == p[1]);
        }
    }

    // No trailing separator and no trailing `.` component: the path ends
    // in the extension's last character, which is neither.
    assert(p[n - 1] == e[el - 1]);
    lemma_strip_trailing_seps_at(p, n);
    assert(p.subrange(0, n) =~= p);
    assert(strip_trailing_seps(p) == p);
    assert(p.last() != '.');
    assert(drop_dot_segments(p) == p);

    // Every separator lies before the extension, so the extension sits
    // inside the file-name component.
    let j0 = last_index_of_char(p, '/');
    lemma_last_index_of_char_props(p, '/');
    assert(j0 < n - el) by {
        if j0 >= n - el {
            assert(p[j0] == e[j0 - (n - el)]);
        }
    }
    let fs = if j0 < 0 { 0int } else { j0 + 1 };
    let fname = spec_file_name(p);
    assert(fname =~= p.subrange(fs, n)) by {
        if j0 < 0 {
            assert(p.subrange(0, n) =~= p);
        }
    }
    assert(fname.len() >= el);
    assert(forall|i: int| 0 <= i < fname.len() ==> fname[i] == p[fs + i]);

    // The file name is not `..`: it ends in the extension's last character,
    // which is not a dot.
    assert(fname[fname.len() - 1] == e[el - 1]);
    assert(!(fname.len() == 2 && fname[0] == '.' && fname[1] == '.'));

    // The extension's dot is the last dot of the file name.
    let jd = fname.len() - el;
    assert(fname[jd] == e[0]);
    assert(forall|i: int| jd < i < fname.len() ==> fname[i] == e[i - jd] && fname[i] != '.');
    lemma_last_index_of_char_at(fname, '.', jd);

    if jd > 0 {
        assert(fname.subrange(jd, fname.len() as int) =~= e);
    } else {
        assert(fname =~= e);
    }
}

/// One past the last occurrence of `c` in `file@[lo .. hi]`, or `lo` if `c`
/// does not occur there.
fn rfind_char(file: &str, lo: usize, hi: usize, c: char) -> (r: usize)
    requires
        lo <= hi <= file@.len(),
    ensures
        lo <= r <= hi,
        last_index_of_char(file@.subrange(lo as int, hi as int), c) == r - 1 - lo,
        r > lo ==> file@[r - 1] == c,
        forall|k: int| r <= k < hi ==> file@[k] != c,
{
    let mut m: usize = hi;
    while m > lo && file.get_char(m - 1) != c
        invariant
            lo <= m <= hi,
            hi <= file@.len(),
            forall|k: int| m <= k < hi ==> file@[k] != c,
        decreases m,
    {
        m = m - 1;
    }
    proof {
        let sub = file@.subrange(lo as int, hi as int);
        if m > lo {
            lemma_last_index_of_char_at(sub, c, m - 1 - lo);
        } else {
            lemma_last_index_of_char_at(sub, c, -1);
        }
    }
    m
}

/// The end of `file@[0 .. hi]` once trailing separators are stripped.
fn strip_seps_end(file: &str, hi: usize) -> (r: usize)
    requires
        hi <= file@.len(),
    ensures
        r <= hi,
        strip_trailing_seps(file@.subrange(0, hi as int)) == file@.subrange(0, r as int),
        r > 0 ==> file@[r - 1] != '/',
{
    let mut m: usize = hi;
    while m > 0 && file.get_char(m - 1) == '/'
        invariant
            m <= hi,
            hi <= file@.len(),
            forall|k: int| m <= k < hi ==> file@[k] == '/',
        decreases m,
    {
        m = m - 1;
    }
    proof {
        let sub = file@.subrange(0, hi as int);
        lemma_strip_trailing_seps_at(sub, m as int);
        assert(sub.subrange(0, m as int) =~= file@.subrange(0, m as int));
    }
    m
}

/// Splits `file` into (directory, stem, extension) by the rules of
/// `spec_decompose`.
#[verifier::rlimit(60)]
pub fn split_extension(file: &str) -> (r: (String, String, String))
    ensures
        r.0@ == spec_decompose(file@).0,
        r.1@ == spec_decompose(file@).1,
        r.2@ == spec_decompose(file@).2,
{
    let n = file.unicode_len();

    if n == 1 && file.get_char(0) == '.' {
        return (file.to_owned(), String::new(), String::new());
    }
    if n == 2 && file.get_char(0) == '.' && file.get_char(1) == '.' {
        return (file.to_owned(), String::new(), String::new());
    }
    proof {
        assert(!is_cur_or_parent_dir(file@));
        assert(file@.subrange(0, n as int) =~= file@);
    }

    // Drop trailing separators and trailing `.` components:
    // t = file@[0 .. t_end] = drop_dot_segments(file@).
    let mut t_end: usize = n;
    let mut settled = false;
    while !settled
        invariant
            t_end <= n,
            n == file@.len(),
            drop_dot_segments(file@) == drop_dot_segments(file@.subrange(0, t_end as int)),
            settled ==> drop_dot_segments(file@) == file@.subrange(0, t_end as int),
        decreases t_end + (if settled {
            0int
        } else {
            1int
        }),
    {
        let e = strip_seps_end(file, t_end);
        if e > 0 && file.get_char(e - 1) == '.' && (e == 1 || file.get_char(e - 2) == '/') {
            proof {
                assert(file@.subrange(0, e as int).drop_last() =~= file@.subrange(0, e - 1));
            }
            t_end = e - 1;
        } else {
            t_end = e;
            settled = true;
        }
    }
    let ghost t = file@.subrange(0, t_end as int);

    if t_end == 0 {
        proof {
            assert(t =~= Seq::<char>::empty());
            lemma_last_index_of_char_at(t, '/', -1);
            lemma_last_index_of_char_at(t, '.', -1);
        }
        return (String::new(), String::new(), String::new());
    }

    // The file name is file@[fn_start .. t_end].
    let fn_start = rfind_char(file, 0, t_end, '/');
    let ghost fname = file@.subrange(fn_start as int, t_end as int);
    proof {
        assert(t.subrange(fn_start as int, t_end as int) =~= fname);
        assert(spec_file_name(file@) == fname);
    }

    // The directory component.
    let dir: String = if fn_start == 0 {
        proof {
            assert(spec_directory(file@) =~= Seq::<char>::empty());
        }
        String::new()
    } else {
        proof {
            assert(t.subrange(0, fn_start - 1) =~= file@.subrange(0, fn_start - 1));
        }
        let d_end = strip_seps_end(file, fn_start - 1);
        if d_end == 0 {
            proof {
                assert(file@.subrange(0, 0) =~= Seq::<char>::empty());
                reveal_strlit("/");
                assert("/"@ =~= seq!['/']);
                assert(spec_directory(file@) =~= seq!['/']);
            }
            "/".to_owned()
        } else {
            proof {
                assert(spec_directory(file@) == file@.subrange(0, d_end as int));
            }
            file.substring_char(0, d_end).to_owned()
        }
    };

    // A `..` file name has neither stem nor extension.
    if t_end - fn_start == 2 && file.get_char(fn_start) == '.' && file.get_char(fn_start + 1)
        == '.' {
        proof {
            assert(fname.len() == 2 && fname[0] == '.' && fname[1] == '.');
        }
        return (dir, String::new(), String::new());
    }
    proof {
        assert(!(fname.len() == 2 && fname[0] == '.' && fname[1] == '.'));
    }

    // The last dot within the file name.
    let m = rfind_char(file, fn_start, t_end, '.');
    proof {
        assert(last_index_of_char(fname, '.') == m - 1 - fn_start);
    }

    if m - fn_start > 1 {
        // A dot past the first character of the file name: stem before it,
        // extension from it on.
        let stem = file.substring_char(fn_start, m - 1).to_owned();
        let ext = file.substring_char(m - 1, t_end).to_owned();
        proof {
            let j = m - 1 - fn_start;
            assert(fname.subrange(0, j as int) =~= file@.subrange(fn_start as int, m - 1));
            assert(fname.subrange(j as int, fname.len() as int) =~= file@.subrange(
                m - 1,
                t_end as int,
            ));
            assert(fname.subrange(j as int, fname.len() as int).len() > 0);
        }
        (dir, stem, ext)
    } else {
        // No dot, or a dot only at the very front of the file name: no
        // extension by the last-dot rule.
        let stem = file.substring_char(fn_start, t_end).to_owned();
        if t_end > fn_start && file.get_char(fn_start) == '.' {
            // Dotfile ambiguity: the leading-dot name is the extension.
            (dir, String::new(), stem)
        } else {
            (dir, stem, String::new())
        }
    }
}

} // verus!
