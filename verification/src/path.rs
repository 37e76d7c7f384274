//! Path templates: the rewriting of colon-prefixed segments.
//!
//! A path is cut into segments at each `/`. A segment of the form `:name`,
//! with a name of letters, digits and underscores, is rewritten to `{name}`;
//! every other segment stays as it is. Both ways of writing a path parameter
//! therefore address the same entry of the route table.

use crate::text::chars_of;
use vstd::prelude::*;
use vstd::string::StrSliceExecFns;
use vstd::string::StringExecFns;

verus! {

/// Whether `c` may stand in the name of a path parameter.
pub open spec fn is_name_char(c: char) -> bool {
    ('a' <= c && c <= 'z') || ('A' <= c && c <= 'Z') || ('0' <= c && c <= '9') || c == '_'
}

/// Whether `segment` is a colon followed by a name.
pub open spec fn is_parameter_segment(segment: Seq<char>) -> bool {
    &&& segment.len() >= 2
    &&& segment[0] == ':'
    &&& forall|i: int| 1 <= i < segment.len() ==> is_name_char(#[trigger] segment[i])
}

/// `segment` with a colon-prefixed name rewritten to the name in braces.
pub open spec fn normalize_segment(segment: Seq<char>) -> Seq<char> {
    if is_parameter_segment(segment) {
        seq!['{'] + segment.subrange(1, segment.len() as int) + seq!['}']
    } else {
        segment
    }
}

/// The position of the first `/` of `path`, or its length where it has none.
pub open spec fn first_slash(path: Seq<char>) -> int
    decreases path.len(),
{
    if path.len() == 0 || path[0] == '/' {
        0
    } else {
        1 + first_slash(path.drop_first())
    }
}

/// `path` with each of its segments normalized.
pub open spec fn normalize(path: Seq<char>) -> Seq<char>
    decreases path.len(),
{
    let cut = first_slash(path);
    if 0 <= cut < path.len() {
        normalize_segment(path.subrange(0, cut)) + seq!['/'] + normalize(
            path.subrange(cut + 1, path.len() as int),
        )
    } else {
        normalize_segment(path)
    }
}

/// The first `/` stands where no `/` stands before, and a `/` or the end of
/// the path stands there.
pub proof fn lemma_first_slash(path: Seq<char>, cut: int)
    requires
        0 <= cut <= path.len(),
        forall|j: int| 0 <= j < cut ==> path[j] != '/',
        cut < path.len() ==> path[cut] == '/',
    ensures
        first_slash(path) == cut,
    decreases path.len(),
{
    if path.len() > 0 && path[0] != '/' {
        let rest = path.drop_first();
        assert forall|j: int| 0 <= j < cut - 1 implies rest[j] != '/' by {
            assert(rest[j] == path[j + 1]);
        }
        lemma_first_slash(rest, cut - 1);
    }
}

/// No `/` stands before the first `/`, and a `/` or the end of the path
/// stands there.
pub proof fn lemma_first_slash_found(path: Seq<char>)
    ensures
        0 <= first_slash(path) <= path.len(),
        forall|j: int| 0 <= j < first_slash(path) ==> path[j] != '/',
        first_slash(path) < path.len() ==> path[first_slash(path)] == '/',
    decreases path.len(),
{
    if path.len() > 0 && path[0] != '/' {
        let rest = path.drop_first();
        lemma_first_slash_found(rest);
        assert forall|j: int| 0 <= j < first_slash(path) implies path[j] != '/' by {
            if j > 0 {
                assert(path[j] == rest[j - 1]);
            }
        }
        assert(first_slash(path) < path.len() ==> path[first_slash(path)] == rest[first_slash(
            rest,
        )]);
    }
}

/// A normalized segment is no colon-prefixed name, and holds a `/` only
/// where the segment did.
pub proof fn lemma_normalized_segment(segment: Seq<char>)
    ensures
        normalize_segment(normalize_segment(segment)) == normalize_segment(segment),
        (forall|j: int| 0 <= j < segment.len() ==> segment[j] != '/') ==> (forall|j: int|
            0 <= j < normalize_segment(segment).len() ==> normalize_segment(segment)[j] != '/'),
{
    let done = normalize_segment(segment);
    if is_parameter_segment(segment) {
        assert(done[0] == '{');
        assert forall|j: int| 0 <= j < done.len() implies done[j] != '/' by {
            if 1 <= j < done.len() - 1 {
                assert(done[j] == segment[j]);
                assert(is_name_char(segment[j]));
            } else if j == done.len() - 1 {
                assert(done[j] == '}');
            }
        }
    }
}

/// Normalizing a normalized path changes nothing: a path and its normalized
/// form are stored under the same path.
pub proof fn lemma_normalize_idempotent(path: Seq<char>)
    ensures
        normalize(normalize(path)) == normalize(path),
    decreases path.len(),
{
    let cut = first_slash(path);
    lemma_first_slash_found(path);
    if cut < path.len() {
        let segment = path.subrange(0, cut);
        let rest = path.subrange(cut + 1, path.len() as int);
        let head = normalize_segment(segment);
        let tail = normalize(rest);
        let once = head + seq!['/'] + tail;
        assert(normalize(path) == once);
        lemma_normalized_segment(segment);
        assert forall|j: int| 0 <= j < head.len() implies once[j] != '/' by {
            assert(once[j] == head[j]);
        }
        assert(once[head.len() as int] == '/');
        lemma_first_slash(once, head.len() as int);
        assert(once.subrange(0, head.len() as int) =~= head);
        assert(once.subrange(head.len() as int + 1, once.len() as int) =~= tail);
        lemma_normalize_idempotent(rest);
    } else {
        let once = normalize_segment(path);
        lemma_normalized_segment(path);
        lemma_first_slash(once, once.len() as int);
    }
}

fn name_char(c: char) -> (b: bool)
    ensures
        b == is_name_char(c),
{
    ('a' <= c && c <= 'z') || ('A' <= c && c <= 'Z') || ('0' <= c && c <= '9') || c == '_'
}

/// Whether the characters from `from` up to `to` are a colon and a name.
fn parameter_segment(chars: &Vec<char>, from: usize, to: usize) -> (b: bool)
    requires
        from <= to <= chars@.len(),
    ensures
        b == is_parameter_segment(chars@.subrange(from as int, to as int)),
{
    let ghost segment = chars@.subrange(from as int, to as int);
    if to - from < 2 || chars[from] != ':' {
        assert(to - from >= 2 ==> segment[0] == chars@[from as int]);
        return false;
    }
    assert(segment[0] == chars@[from as int]);
    let mut i: usize = from + 1;
    while i < to
        invariant
            from < i <= to <= chars@.len(),
            segment == chars@.subrange(from as int, to as int),
            forall|j: int| 1 <= j < i - from ==> is_name_char(#[trigger] segment[j]),
        decreases to - i,
    {
        if !name_char(chars[i]) {
            assert(segment[i - from] == chars@[i as int]);
            return false;
        }
        assert(segment[i - from] == chars@[i as int]);
        i += 1;
    }
    true
}

/// Appends to `out` the normalized segment that stands in `path` from `from`
/// up to `to`.
fn append_segment(path: &str, chars: &Vec<char>, from: usize, to: usize, out: &mut String)
    requires
        chars@ == path@,
        from <= to <= chars@.len(),
    ensures
        final(out)@ == old(out)@ + normalize_segment(path@.subrange(from as int, to as int)),
{
    let ghost segment = path@.subrange(from as int, to as int);
    if parameter_segment(chars, from, to) {
        proof {
            reveal_strlit("{");
            reveal_strlit("}");
        }
        out.append("{");
        out.append(path.substring_char(from + 1, to));
        out.append("}");
        assert(segment.subrange(1, segment.len() as int) =~= path@.subrange(from + 1, to as int));
        assert("{"@ =~= seq!['{']);
        assert("}"@ =~= seq!['}']);
        assert(out@ =~= old(out)@ + normalize_segment(segment));
    } else {
        out.append(path.substring_char(from, to));
    }
}

/// The path under which a handler registered at `path` is stored.
pub fn normalize_path(path: &str) -> (normalized: String)
    ensures
        normalized@ == normalize(path@),
{
    let chars = chars_of(path);
    let n = chars.len();
    let mut out = String::new();
    let mut start: usize = 0;
    let mut i: usize = 0;
    assert(path@.subrange(0, n as int) =~= path@);
    while i < n
        invariant
            start <= i <= n,
            n == chars@.len(),
            chars@ == path@,
            forall|j: int| start <= j < i ==> path@[j] != '/',
            normalize(path@) == out@ + normalize(path@.subrange(start as int, n as int)),
        decreases n - i,
    {
        if chars[i] == '/' {
            let ghost rest = path@.subrange(start as int, n as int);
            let ghost before = out@;
            proof {
                lemma_first_slash(rest, i - start);
                assert(rest.subrange(0, i - start) =~= path@.subrange(start as int, i as int));
                assert(rest.subrange(i - start + 1, rest.len() as int) =~= path@.subrange(
                    i + 1,
                    n as int,
                ));
                reveal_strlit("/");
                assert("/"@ =~= seq!['/']);
            }
            append_segment(path, &chars, start, i, &mut out);
            out.append("/");
            assert(out@ + normalize(path@.subrange(i + 1, n as int)) =~= before + normalize(rest));
            start = i + 1;
        }
        i += 1;
    }
    proof {
        lemma_first_slash(path@.subrange(start as int, n as int), n - start);
    }
    append_segment(path, &chars, start, n, &mut out);
    out
}

} // verus!
