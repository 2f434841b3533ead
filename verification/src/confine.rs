//! Keeping a file path inside the directory it is meant for.
//!
//! The test is made on the text of the path alone: segments are what stands
//! between slashes, `..` climbs by one, `.` and the empty segment stay, and
//! every other segment descends by one. Nothing on disk is consulted.

use vstd::prelude::*;
use vstd::std_specs::iter::IteratorSpec;
use crate::text::starts_with;

verus! {

/// The length of the first segment of `path`: what stands before its first
/// slash, or all of it where it has none.
pub open spec fn segment_len(path: Seq<char>) -> nat
    decreases path.len(),
{
    if path.len() == 0 || path[0] == '/' {
        0
    } else {
        1 + segment_len(path.skip(1))
    }
}

/// By how much a segment changes the depth below the directory.
pub open spec fn rise(segment: Seq<char>) -> int {
    if segment == seq!['.', '.'] {
        -1
    } else if segment.len() == 0 || segment == seq!['.'] {
        0
    } else {
        1
    }
}

/// Walking `path` segment by segment from `depth` levels below the directory
/// never leads above the directory.
pub open spec fn stays_inside(path: Seq<char>, depth: int) -> bool
    decreases path.len(),
{
    let n = segment_len(path) as int;
    let reached = depth + rise(path.take(n));
    reached >= 0 && (n < path.len() ==> stays_inside(path.skip(n + 1), reached))
}

/// `file` names something in `dir` or below it: it starts with `dir` and a
/// slash, and what follows never climbs out.
pub open spec fn within(file: Seq<char>, dir: Seq<char>) -> bool {
    starts_with(file, dir + seq!['/']) && stays_inside(file.skip((dir.len() + 1) as int), 0)
}

/// A run of `n` characters without a slash, ended by a slash or by the end of
/// the path, is the first segment.
pub proof fn lemma_segment_len(path: Seq<char>, n: int)
    requires
        0 <= n <= path.len(),
        forall|k: int| 0 <= k < n ==> path[k] != '/',
        n < path.len() ==> path[n] == '/',
    ensures
        segment_len(path) == n,
    decreases n,
{
    if n > 0 {
        let rest = path.skip(1);
        assert forall|k: int| 0 <= k < n - 1 implies rest[k] != '/' by {
            assert(rest[k] == path[k + 1]);
        }
        lemma_segment_len(rest, n - 1);
    }
}

/// A walk that stays inside from one depth stays inside from any greater one.
pub proof fn lemma_deeper_stays_inside(path: Seq<char>, depth: int, deeper: int)
    requires
        stays_inside(path, depth),
        depth <= deeper,
    ensures
        stays_inside(path, deeper),
    decreases path.len(),
{
    let n = segment_len(path) as int;
    if n < path.len() {
        lemma_deeper_stays_inside(
            path.skip(n + 1),
            depth + rise(path.take(n)),
            deeper + rise(path.take(n)),
        );
    }
}

/// A path without a dot never climbs: it stays inside from any depth that is
/// not above the directory.
pub proof fn lemma_dotless_stays_inside(path: Seq<char>, depth: int)
    requires
        depth >= 0,
        forall|i: int| 0 <= i < path.len() ==> path[i] != '.',
    ensures
        stays_inside(path, depth),
    decreases path.len(),
{
    let n = segment_len(path) as int;
    lemma_segment_len_bound(path);
    let segment = path.take(n);
    if segment == seq!['.', '.'] {
        assert(segment.len() == 2);
        assert(seq!['.', '.'][0] == '.');
        assert(segment[0] == path[0]);
    }
    assert(rise(segment) >= 0);
    if n < path.len() {
        let rest = path.skip(n + 1);
        assert forall|i: int| 0 <= i < rest.len() implies rest[i] != '.' by {
            assert(rest[i] == path[n + 1 + i]);
        }
        lemma_dotless_stays_inside(rest, depth + rise(segment));
    }
}

/// A path that begins with the segment `..` leaves the directory at once.
pub proof fn lemma_leading_climb_leaves(path: Seq<char>)
    requires
        path.len() >= 2,
        path[0] == '.',
        path[1] == '.',
        path.len() > 2 ==> path[2] == '/',
    ensures
        !stays_inside(path, 0),
{
    lemma_segment_len(path, 2);
    assert(path.take(2) =~= seq!['.', '.']);
}

/// The first segment is no longer than the path.
pub proof fn lemma_segment_len_bound(path: Seq<char>)
    ensures
        segment_len(path) <= path.len(),
    decreases path.len(),
{
    if path.len() > 0 && path[0] != '/' {
        lemma_segment_len_bound(path.skip(1));
    }
}

/// The characters of `text`, one by one.
pub fn to_chars(text: &str) -> (chars: Vec<char>)
    ensures
        chars@ == text@,
{
    broadcast use {vstd::string::axiom_spec_iter, vstd::string::next_postcondition};

    let mut chars: Vec<char> = Vec::new();
    let mut rest = text.chars();
    loop
        invariant
            rest.obeys_prophetic_iter_laws(),
            rest.decrease() is Some,
            chars@ + rest.remaining() == text@,
        ensures
            chars@ == text@,
        decreases rest.decrease()->0,
    {
        let ghost before = rest.remaining();
        match rest.next() {
            Some(c) => {
                chars.push(c);
                proof {
                    assert(chars@ + rest.remaining() =~= chars@.drop_last() + before);
                }
            },
            None => {
                proof {
                    assert(chars@ + before =~= chars@);
                }
                break ;
            },
        }
    }
    chars
}

/// Walks the segments of `chars` from index `start` on and tells whether the
/// walk stays at or below its starting level.
fn walk_stays_inside(chars: &Vec<char>, start: usize) -> (inside: bool)
    requires
        start <= chars.len(),
    ensures
        inside == stays_inside(chars@.skip(start as int), 0),
{
    let len = chars.len();
    let mut i: usize = start;
    let mut depth: usize = 0;
    loop
        invariant
            len == chars.len(),
            start <= i <= len,
            depth <= i,
            stays_inside(chars@.skip(start as int), 0) == stays_inside(
                chars@.skip(i as int),
                depth as int,
            ),
        decreases len - i,
    {
        let mut j: usize = i;
        while j < len && chars[j] != '/'
            invariant
                len == chars.len(),
                i <= j <= len,
                forall|k: int| i <= k < j ==> chars@[k] != '/',
            decreases len - j,
        {
            j += 1;
        }
        let ghost path = chars@.skip(i as int);
        let ghost n = (j - i) as int;
        proof {
            lemma_segment_len(path, n);
            assert(path.take(n) =~= chars@.subrange(i as int, j as int));
            if j < len {
                assert(path.skip(n + 1) =~= chars@.skip(j + 1));
            }
        }
        let climbs = j - i == 2 && chars[i] == '.' && chars[i + 1] == '.';
        let stays = j == i || (j - i == 1 && chars[i] == '.');
        proof {
            let segment = chars@.subrange(i as int, j as int);
            if climbs {
                assert(segment =~= seq!['.', '.']);
            } else if segment == seq!['.', '.'] {
                assert(segment.len() == 2 && segment[0] == '.' && segment[1] == '.');
            }
            if j - i == 1 && chars[i as int] == '.' {
                assert(segment =~= seq!['.']);
            } else if segment == seq!['.'] {
                assert(segment.len() == 1 && segment[0] == '.');
            }
            assert(rise(segment) == if climbs { -1int } else if stays { 0 } else { 1 });
        }
        if climbs {
            if depth == 0 {
                return false;
            }
            depth -= 1;
        } else if !stays {
            depth += 1;
        }
        if j == len {
            return true;
        }
        i = j + 1;
    }
}

/// Tells whether `file` names something in the directory `dir` or below it.
pub fn is_within(file: &str, dir: &str) -> (inside: bool)
    ensures
        inside == within(file@, dir@),
{
    let chars = to_chars(file);
    let head = to_chars(dir);
    let n = head.len();
    if chars.len() <= n {
        return false;
    }
    let mut i: usize = 0;
    while i < n
        invariant
            chars@ == file@,
            head@ == dir@,
            n == head.len(),
            n < chars.len(),
            i <= n,
            forall|k: int| 0 <= k < i ==> chars@[k] == head@[k],
        decreases n - i,
    {
        if chars[i] != head[i] {
            proof {
                let lead = dir@ + seq!['/'];
                if starts_with(file@, lead) {
                    assert(file@.subrange(0, lead.len() as int)[i as int] == lead[i as int]);
                }
            }
            return false;
        }
        i += 1;
    }
    if chars[n] != '/' {
        proof {
            let lead = dir@ + seq!['/'];
            if starts_with(file@, lead) {
                assert(file@.subrange(0, lead.len() as int)[n as int] == lead[n as int]);
            }
        }
        return false;
    }
    proof {
        let lead = dir@ + seq!['/'];
        assert(file@.subrange(0, lead.len() as int) =~= lead);
    }
    walk_stays_inside(&chars, n + 1)
}

} // verus!
