//! Directory source specifications and best-effort path joining.
//!
//! An asset or data source is named by a `dir:` specification whose base
//! is a directory path. Logical (engine-facing) paths are validated and
//! normalized before they are joined under the base; a path that fails
//! validation falls back to a naive textual join, for compatibility.

use vstd::prelude::*;
use vstd::string::StrSliceExecFns;
use vstd::string::StringExecFns;

verus! {

/// A directory-backed source of files.
#[derive(Debug, Clone)]
pub struct DirSourceSpec {
    pub base: String,
}

/// Why a source specification was rejected.
#[derive(Clone, Copy, Debug, PartialEq, Eq, Structural)]
pub enum SourceSpecError {
    /// The base directory was empty after trimming.
    EmptyBase,
}

/// Why a logical path failed validation.
#[derive(Clone, Copy, Debug, PartialEq, Eq, Structural)]
pub enum PathError {
    /// The path held no characters.
    EmptyPath,
    /// The path began with a separator.
    AbsolutePath,
    /// A segment was a current- or parent-directory reference.
    TraversalSegment,
    /// A segment held a backslash or a colon.
    InvalidSegment,
    /// No nonempty segment remained.
    EmptyResult,
}

/// The whitespace this module trims: blank, tab, and line breaks.
pub open spec fn is_trimmed_space(c: char) -> bool {
    c == ' ' || c == '\t' || c == '\n' || c == '\r'
}

/// Drop leading trimmed whitespace.
pub open spec fn spec_trim_start(s: Seq<char>) -> Seq<char>
    decreases s.len(),
{
    if s.len() > 0 && is_trimmed_space(s.first()) {
        spec_trim_start(s.skip(1))
    } else {
        s
    }
}

/// Drop trailing trimmed whitespace.
pub open spec fn spec_trim_end(s: Seq<char>) -> Seq<char>
    decreases s.len(),
{
    if s.len() > 0 && is_trimmed_space(s.last()) {
        spec_trim_end(s.drop_last())
    } else {
        s
    }
}

/// Drop whitespace on both ends.
pub open spec fn spec_trim(s: Seq<char>) -> Seq<char> {
    spec_trim_end(spec_trim_start(s))
}

/// Drop a leading `dir:` scheme, if present.
pub open spec fn spec_strip_dir_scheme(s: Seq<char>) -> Seq<char> {
    if s.len() >= 4 && s[0] == 'd' && s[1] == 'i' && s[2] == 'r' && s[3] == ':' {
        s.skip(4)
    } else {
        s
    }
}

/// What parsing a source specification yields: the trimmed base after an
/// optional `dir:` scheme, from the specification itself when it holds
/// anything, else from the default.
pub open spec fn spec_parse_dir_source(source: Seq<char>, default_base: Seq<char>) -> Result<
    Seq<char>,
    SourceSpecError,
> {
    let raw = if spec_trim(source).len() == 0 {
        default_base
    } else {
        spec_trim(source)
    };
    let base = spec_trim(spec_strip_dir_scheme(raw));
    if base.len() == 0 {
        Err(SourceSpecError::EmptyBase)
    } else {
        Ok(base)
    }
}

/// A segment holds a character a logical path never may.
pub open spec fn spec_seg_has_bad_char(seg: Seq<char>) -> bool {
    exists|i: int| 0 <= i < seg.len() && (seg[i] == '\\' || seg[i] == ':')
}

/// Check one completed segment, in the order the checks are applied.
pub open spec fn spec_seg_check(seg: Seq<char>) -> Option<PathError> {
    if (seg.len() == 1 && seg[0] == '.') || (seg.len() == 2 && seg[0] == '.' && seg[1] == '.') {
        Some(PathError::TraversalSegment)
    } else if spec_seg_has_bad_char(seg) {
        Some(PathError::InvalidSegment)
    } else {
        None
    }
}

/// Walk the path left to right, splitting on separators: empty segments
/// vanish, and the first bad segment decides the error.
pub open spec fn spec_norm_scan(s: Seq<char>, cur: Seq<char>, parts: Seq<Seq<char>>) -> Result<
    Seq<Seq<char>>,
    PathError,
>
    decreases s.len(),
{
    if s.len() == 0 {
        if cur.len() == 0 {
            Ok(parts)
        } else {
            match spec_seg_check(cur) {
                Some(e) => Err(e),
                None => Ok(parts.push(cur)),
            }
        }
    } else if s.first() == '/' {
        if cur.len() == 0 {
            spec_norm_scan(s.skip(1), Seq::empty(), parts)
        } else {
            match spec_seg_check(cur) {
                Some(e) => Err(e),
                None => spec_norm_scan(s.skip(1), Seq::empty(), parts.push(cur)),
            }
        }
    } else {
        spec_norm_scan(s.skip(1), cur.push(s.first()), parts)
    }
}

/// Join segments with single separators.
pub open spec fn spec_join_slash(parts: Seq<Seq<char>>) -> Seq<char>
    decreases parts.len(),
{
    if parts.len() == 0 {
        Seq::empty()
    } else if parts.len() == 1 {
        parts[0]
    } else {
        spec_join_slash(parts.drop_last()) + seq!['/'] + parts.last()
    }
}

/// What validating and normalizing a logical path yields: its nonempty
/// segments joined by single separators, or the first failure — an empty
/// path, an absolute one, a traversal or invalid segment, or a path with
/// no segments left.
pub open spec fn spec_normalize_logical_path(path: Seq<char>) -> Result<Seq<char>, PathError> {
    if path.len() == 0 {
        Err(PathError::EmptyPath)
    } else if path[0] == '/' || path[0] == '\\' {
        Err(PathError::AbsolutePath)
    } else {
        match spec_norm_scan(path, Seq::empty(), Seq::empty()) {
            Err(e) => Err(e),
            Ok(parts) => if parts.len() == 0 {
                Err(PathError::EmptyResult)
            } else {
                Ok(spec_join_slash(parts))
            },
        }
    }
}

/// Drop trailing separators.
pub open spec fn spec_trim_end_slashes(s: Seq<char>) -> Seq<char>
    decreases s.len(),
{
    if s.len() > 0 && s.last() == '/' {
        spec_trim_end_slashes(s.drop_last())
    } else {
        s
    }
}

/// Drop leading separators.
pub open spec fn spec_trim_start_slashes(s: Seq<char>) -> Seq<char>
    decreases s.len(),
{
    if s.len() > 0 && s.first() == '/' {
        spec_trim_start_slashes(s.skip(1))
    } else {
        s
    }
}

/// What joining a base and a logical path yields: a validated path goes
/// under the base with exactly one separator between them; a path that
/// fails validation falls back to the naive join of the slash-trimmed
/// halves.
pub open spec fn spec_join_dir_best_effort(base: Seq<char>, logical: Seq<char>) -> Seq<char> {
    match spec_normalize_logical_path(logical) {
        Ok(rel) => if base.len() == 0 {
            rel
        } else if base.last() == '/' {
            base + rel
        } else {
            base + seq!['/'] + rel
        },
        Err(_) => {
            let b = spec_trim_end_slashes(base);
            let b2 = if b.len() == 0 {
                b
            } else {
                b + seq!['/']
            };
            b2 + spec_trim_start_slashes(logical)
        },
    }
}

/// Decide membership in the trimmed whitespace set.
fn is_trimmed_space_char(c: char) -> (r: bool)
    ensures
        r == is_trimmed_space(c),
{
    c == ' ' || c == '\t' || c == '\n' || c == '\r'
}

/// Trim whitespace from both ends of a string.
fn trim_str(s: &str) -> (r: String)
    ensures
        r@ == spec_trim(s@),
{
    let n = s.unicode_len();
    let mut a: usize = 0;
    proof {
        assert(s@.skip(0) =~= s@);
    }
    while a < n && is_trimmed_space_char(s.get_char(a))
        invariant
            0 <= a <= n,
            n == s@.len(),
            spec_trim_start(s@) == spec_trim_start(s@.skip(a as int)),
        decreases n - a,
    {
        proof {
            assert(s@.skip(a as int).first() == s@[a as int]);
            assert(s@.skip(a as int).skip(1) =~= s@.skip(a + 1));
        }
        a = a + 1;
    }
    proof {
        if a == n {
            assert(s@.skip(a as int).len() == 0);
        }
        assert(spec_trim_start(s@) == s@.skip(a as int));
    }
    let mut b: usize = n;
    proof {
        assert(s@.skip(a as int) =~= s@.subrange(a as int, n as int));
    }
    while b > a && is_trimmed_space_char(s.get_char(b - 1))
        invariant
            a <= b <= n,
            n == s@.len(),
            spec_trim_end(s@.skip(a as int)) == spec_trim_end(s@.subrange(a as int, b as int)),
        decreases b,
    {
        proof {
            assert(s@.subrange(a as int, b as int).last() == s@[b - 1]);
            assert(s@.subrange(a as int, b as int).drop_last() =~= s@.subrange(
                a as int,
                b - 1,
            ));
        }
        b = b - 1;
    }
    proof {
        assert(s@.skip(a as int) =~= s@.subrange(a as int, n as int));
        assert(spec_trim_end(s@.subrange(a as int, b as int)) == s@.subrange(a as int, b as int));
    }
    let piece = s.substring_char(a, b);
    String::from_str(piece)
}

/// Parse a source specification: trim it, fall back to the default when
/// it holds nothing, drop an optional `dir:` scheme, and trim the base;
/// an empty base is rejected.
pub fn parse_dir_source(source: &str, default_base: &str) -> (r: Result<
    DirSourceSpec,
    SourceSpecError,
>)
    ensures
        ({
            let g = spec_parse_dir_source(source@, default_base@);
            &&& r is Ok <==> g is Ok
            &&& (r is Ok ==> (r->Ok_0).base@ == g->Ok_0)
            &&& (r is Err ==> r->Err_0 == g->Err_0)
        }),
{
    let t = trim_str(source);
    let raw: String = if t.as_str().unicode_len() == 0 {
        String::from_str(default_base)
    } else {
        t
    };
    let rs: &str = raw.as_str();
    let n = rs.unicode_len();
    let has_scheme = n >= 4 && rs.get_char(0) == 'd' && rs.get_char(1) == 'i' && rs.get_char(2)
        == 'r' && rs.get_char(3) == ':';
    let rest: &str = if has_scheme {
        proof {
            assert(rs@.subrange(4, n as int) =~= rs@.skip(4));
        }
        rs.substring_char(4, n)
    } else {
        rs
    };
    let base = trim_str(rest);
    if base.as_str().unicode_len() == 0 {
        Err(SourceSpecError::EmptyBase)
    } else {
        Ok(DirSourceSpec { base })
    }
}

/// Validate and normalize a logical path: reject an empty or absolute
/// path, drop empty segments, reject traversal or invalid segments, and
/// join what remains with single separators.
pub fn normalize_logical_path(path: &str) -> (r: Result<String, PathError>)
    ensures
        ({
            let g = spec_normalize_logical_path(path@);
            &&& r is Ok <==> g is Ok
            &&& (r is Ok ==> (r->Ok_0)@ == g->Ok_0)
            &&& (r is Err ==> r->Err_0 == g->Err_0)
        }),
{
    let n = path.unicode_len();
    if n == 0 {
        return Err(PathError::EmptyPath);
    }
    let c0 = path.get_char(0);
    if c0 == '/' || c0 == '\\' {
        return Err(PathError::AbsolutePath);
    }
    let ghost full = spec_norm_scan(path@, Seq::empty(), Seq::empty());
    let mut parts: Vec<(usize, usize)> = Vec::new();
    let ghost mut parts_model: Seq<Seq<char>> = Seq::empty();
    let mut seg_start: usize = 0;
    let mut seg_bad = false;
    let mut i: usize = 0;
    proof {
        assert(path@.skip(0) =~= path@);
        assert(path@.subrange(0, 0) =~= Seq::<char>::empty());
    }
    while i < n
        invariant
            0 <= seg_start <= i <= n,
            n == path@.len(),
            n > 0,
            path@[0] != '/' && path@[0] != '\\',
            full == spec_norm_scan(path@, Seq::empty(), Seq::empty()),
            full == spec_norm_scan(
                path@.skip(i as int),
                path@.subrange(seg_start as int, i as int),
                parts_model,
            ),
            seg_bad == spec_seg_has_bad_char(path@.subrange(seg_start as int, i as int)),
            parts_model.len() == parts@.len(),
            forall|k: int|
                0 <= k < parts@.len() ==> {
                    &&& 0 <= (#[trigger] parts@[k]).0 <= parts@[k].1 <= n
                    &&& parts_model[k] == path@.subrange(parts@[k].0 as int, parts@[k].1 as int)
                },
        decreases n - i,
    {
        let c = path.get_char(i);
        proof {
            assert(path@.skip(i as int).first() == path@[i as int]);
            assert(path@.skip(i as int).skip(1) =~= path@.skip(i + 1));
        }
        if c == '/' {
            if i > seg_start {
                let ghost seg = path@.subrange(seg_start as int, i as int);
                let seg_len = i - seg_start;
                let dot1 = seg_len == 1 && path.get_char(seg_start) == '.';
                let dot2 = seg_len == 2 && path.get_char(seg_start) == '.' && path.get_char(
                    seg_start + 1,
                ) == '.';
                proof {
                    assert(seg.len() == seg_len);
                    assert(seg[0] == path@[seg_start as int]);
                    if seg_len >= 2 {
                        assert(seg[1] == path@[seg_start + 1]);
                    }
                }
                if dot1 || dot2 {
                    return Err(PathError::TraversalSegment);
                }
                if seg_bad {
                    return Err(PathError::InvalidSegment);
                }
                proof {
                    assert(spec_seg_check(seg) is None);
                }
                parts.push((seg_start, i));
                proof {
                    parts_model = parts_model.push(seg);
                }
            }
            seg_start = i + 1;
            seg_bad = false;
            proof {
                assert(path@.subrange(i + 1, i + 1) =~= Seq::<char>::empty());
                assert(!spec_seg_has_bad_char(path@.subrange(i + 1, i + 1)));
            }
        } else {
            if c == '\\' || c == ':' {
                seg_bad = true;
            }
            proof {
                assert(path@.subrange(seg_start as int, i as int).push(path@[i as int])
                    =~= path@.subrange(seg_start as int, i + 1));
                if seg_bad {
                    if c == '\\' || c == ':' {
                        assert(path@.subrange(seg_start as int, i + 1)[i - seg_start]
                            == path@[i as int]);
                        assert(spec_seg_has_bad_char(path@.subrange(seg_start as int, i + 1)));
                    } else {
                        let w = choose|w: int|
                            0 <= w < path@.subrange(seg_start as int, i as int).len() && (
                            path@.subrange(seg_start as int, i as int)[w] == '\\'
                                || path@.subrange(seg_start as int, i as int)[w] == ':');
                        assert(path@.subrange(seg_start as int, i + 1)[w] == path@.subrange(
                            seg_start as int,
                            i as int,
                        )[w]);
                    }
                } else {
                    let ext = path@.subrange(seg_start as int, i + 1);
                    assert forall|w: int| 0 <= w < ext.len() implies !((#[trigger] ext[w]) == '\\'
                        || ext[w] == ':') by {
                        if w < i - seg_start {
                            assert(path@.subrange(seg_start as int, i as int)[w] == ext[w]);
                        } else {
                            assert(ext[w] == path@[i as int]);
                        }
                    }
                }
            }
        }
        i = i + 1;
    }
    proof {
        assert(path@.skip(n as int).len() == 0);
    }
    if i > seg_start {
        let ghost seg = path@.subrange(seg_start as int, i as int);
        let seg_len = i - seg_start;
        let dot1 = seg_len == 1 && path.get_char(seg_start) == '.';
        let dot2 = seg_len == 2 && path.get_char(seg_start) == '.' && path.get_char(seg_start + 1)
            == '.';
        proof {
            assert(seg.len() == seg_len);
            assert(seg[0] == path@[seg_start as int]);
            if seg_len >= 2 {
                assert(seg[1] == path@[seg_start + 1]);
            }
        }
        if dot1 || dot2 {
            return Err(PathError::TraversalSegment);
        }
        if seg_bad {
            return Err(PathError::InvalidSegment);
        }
        proof {
            assert(spec_seg_check(seg) is None);
        }
        parts.push((seg_start, i));
        proof {
            parts_model = parts_model.push(seg);
        }
    }
    proof {
        assert(full == Ok::<Seq<Seq<char>>, PathError>(parts_model));
    }
    if parts.len() == 0 {
        return Err(PathError::EmptyResult);
    }
    let mut out = String::new();
    let (a0, b0) = parts[0];
    out.append(path.substring_char(a0, b0));
    proof {
        assert(out@ =~= spec_join_slash(parts_model.take(1)));
    }
    let mut k: usize = 1;
    while k < parts.len()
        invariant
            1 <= k <= parts@.len(),
            n == path@.len(),
            parts_model.len() == parts@.len(),
            parts_model.len() >= 1,
            forall|j: int|
                0 <= j < parts@.len() ==> {
                    &&& 0 <= (#[trigger] parts@[j]).0 <= parts@[j].1 <= n
                    &&& parts_model[j] == path@.subrange(parts@[j].0 as int, parts@[j].1 as int)
                },
            out@ == spec_join_slash(parts_model.take(k as int)),
        decreases parts@.len() - k,
    {
        let (a, b) = parts[k];
        proof {
            reveal_strlit("/");
        }
        out.append("/");
        out.append(path.substring_char(a, b));
        proof {
            assert(parts_model.take(k + 1).drop_last() =~= parts_model.take(k as int));
            assert(parts_model.take(k + 1).last() == parts_model[k as int]);
            assert(out@ =~= spec_join_slash(parts_model.take(k + 1)));
        }
        k = k + 1;
    }
    proof {
        assert(parts_model.take(parts_model.len() as int) =~= parts_model);
    }
    Ok(out)
}

/// Join a base directory and a logical path. A path that validates goes
/// under the base with exactly one separator; one that does not falls
/// back to the naive join of the slash-trimmed halves.
pub fn join_dir_best_effort(base: &str, logical_path: &str) -> (r: String)
    ensures
        r@ == spec_join_dir_best_effort(base@, logical_path@),
{
    match normalize_logical_path(logical_path) {
        Ok(rel) => {
            let n = base.unicode_len();
            if n == 0 {
                return rel;
            }
            let mut out = String::from_str(base);
            if base.get_char(n - 1) != '/' {
                proof {
                    reveal_strlit("/");
                }
                out.append("/");
            }
            out.append(rel.as_str());
            proof {
                assert(out@ =~= spec_join_dir_best_effort(base@, logical_path@));
            }
            out
        },
        Err(_) => {
            let n = base.unicode_len();
            let mut b: usize = n;
            proof {
                assert(base@.subrange(0, n as int) =~= base@);
            }
            while b > 0 && base.get_char(b - 1) == '/'
                invariant
                    0 <= b <= n,
                    n == base@.len(),
                    spec_trim_end_slashes(base@) == spec_trim_end_slashes(
                        base@.subrange(0, b as int),
                    ),
                decreases b,
            {
                proof {
                    assert(base@.subrange(0, b as int).last() == base@[b - 1]);
                    assert(base@.subrange(0, b as int).drop_last() =~= base@.subrange(0, b - 1));
                }
                b = b - 1;
            }
            proof {
                assert(base@.subrange(0, n as int) =~= base@);
                assert(spec_trim_end_slashes(base@.subrange(0, b as int)) == base@.subrange(
                    0,
                    b as int,
                ));
            }
            let mut out = String::from_str(base.substring_char(0, b));
            if b > 0 {
                proof {
                    reveal_strlit("/");
                }
                out.append("/");
            }
            let m = logical_path.unicode_len();
            let mut a: usize = 0;
            proof {
                assert(logical_path@.skip(0) =~= logical_path@);
            }
            while a < m && logical_path.get_char(a) == '/'
                invariant
                    0 <= a <= m,
                    m == logical_path@.len(),
                    spec_trim_start_slashes(logical_path@) == spec_trim_start_slashes(
                        logical_path@.skip(a as int),
                    ),
                decreases m - a,
            {
                proof {
                    assert(logical_path@.skip(a as int).first() == logical_path@[a as int]);
                    assert(logical_path@.skip(a as int).skip(1) =~= logical_path@.skip(a + 1));
                }
                a = a + 1;
            }
            proof {
                if a == m {
                    assert(logical_path@.skip(a as int).len() == 0);
                }
                assert(spec_trim_start_slashes(logical_path@) == logical_path@.skip(a as int));
                assert(logical_path@.skip(a as int) =~= logical_path@.subrange(
                    a as int,
                    m as int,
                ));
            }
            out.append(logical_path.substring_char(a, m));
            proof {
                assert(out@ =~= spec_join_dir_best_effort(base@, logical_path@));
            }
            out
        },
    }
}

} // verus!
