//! The branch-state guard: decides from the repository's observable
//! state whether a run may proceed, and under which branch.
//!
//! The caller observes two things and hands them over as plain values:
//! whether the metadata marker is present as a regular file, and the
//! captured output of the branch listing. The listing marks the line
//! of the current checkout with `* `; the remainder of that line is
//! matched, in priority order, as a detached checkout, an operation in
//! progress, or the active branch name.

use vstd::prelude::*;

use crate::codec::segment_matches;
use crate::error::DropstitchError;
use crate::records::copy_range;

verus! {

/// A line of `s` begins at `i`: the start of the text, or the
/// position after a line feed.
pub open spec fn is_line_start(s: Seq<u8>, i: int) -> bool {
    i == 0 || s[i - 1] == 10
}

/// The marker `* ` of the current checkout stands at the start of the
/// line beginning at `i`.
pub open spec fn is_marked_start(s: Seq<u8>, i: int) -> bool {
    &&& 0 <= i
    &&& i + 2 <= s.len()
    &&& is_line_start(s, i)
    &&& s[i] == 42  // '*'
    &&& s[i + 1] == 32  // ' '
}

/// The first marked line start of `s` at or after `i`, if any.
pub open spec fn find_marked_from(s: Seq<u8>, i: nat) -> Option<int>
    decreases s.len() - i,
{
    if i + 2 > s.len() {
        None
    } else if is_marked_start(s, i as int) {
        Some(i as int)
    } else {
        find_marked_from(s, i + 1)
    }
}

/// The end of the line that position `i` lies on: the next line feed
/// at or after `i`, or the end of the text.
pub open spec fn line_end_from(s: Seq<u8>, i: nat) -> int
    decreases s.len() - i,
{
    if i >= s.len() {
        s.len() as int
    } else if s[i as int] == 10 {
        i as int
    } else {
        line_end_from(s, i + 1)
    }
}

/// `s` begins with `p`.
pub open spec fn starts_with(s: Seq<u8>, p: Seq<u8>) -> bool {
    p.len() <= s.len() && s.subrange(0, p.len() as int) == p
}

/// The marker of a detached checkout: `(HEAD detached`.
pub open spec fn detached_prefix() -> Seq<u8> {
    seq![40u8, 72, 69, 65, 68, 32, 100, 101, 116, 97, 99, 104, 101, 100]
}

/// The marker of an operation in progress: `(no branch, `.
pub open spec fn operation_prefix() -> Seq<u8> {
    seq![40u8, 110, 111, 32, 98, 114, 97, 110, 99, 104, 44, 32]
}

/// The operation name `bisect`.
pub open spec fn bisect_bytes() -> Seq<u8> {
    seq![98u8, 105, 115, 101, 99, 116]
}

/// The operation name `rebasing`.
pub open spec fn rebasing_bytes() -> Seq<u8> {
    seq![114u8, 101, 98, 97, 115, 105, 110, 103]
}

/// What the guard decides once the marked line of the listing is in
/// hand, `rest` being the text after its `* ` marker: a detached
/// checkout and an operation in progress are fatal, in that priority
/// order; otherwise the whole remainder is the active branch name,
/// and an empty remainder is an unexpected environment.
pub open spec fn guard_expects_detached(rest: Seq<u8>) -> bool {
    starts_with(rest, detached_prefix())
}

/// See [`guard_expects_detached`]; the operation-in-progress case,
/// giving the operation name.
pub open spec fn guard_operation(rest: Seq<u8>) -> Option<Seq<u8>> {
    if starts_with(rest, operation_prefix() + bisect_bytes()) {
        Some(bisect_bytes())
    } else if starts_with(rest, operation_prefix() + rebasing_bytes()) {
        Some(rebasing_bytes())
    } else {
        None
    }
}

proof fn lemma_find_marked_some(s: Seq<u8>, j: nat, m: int)
    requires
        j <= m,
        is_marked_start(s, m),
        forall|k: int| j <= k < m ==> !is_marked_start(s, k),
    ensures
        find_marked_from(s, j) == Some(m),
    decreases m - j,
{
    if j < m {
        lemma_find_marked_some(s, j + 1, m);
    }
}

proof fn lemma_find_marked_none(s: Seq<u8>, j: nat)
    requires
        forall|k: int| j <= k ==> !is_marked_start(s, k),
    ensures
        find_marked_from(s, j) is None,
    decreases s.len() - j,
{
    if j + 2 <= s.len() {
        lemma_find_marked_none(s, j + 1);
    }
}

proof fn lemma_line_end(s: Seq<u8>, j: nat, e: int)
    requires
        j <= e <= s.len(),
        forall|k: int| j <= k < e ==> s[k] != 10,
        e == s.len() || s[e] == 10,
    ensures
        line_end_from(s, j) == e,
    decreases e - j,
{
    if j < e {
        lemma_line_end(s, j + 1, e);
    }
}

/// Finds the first line of the listing marked with `* `.
fn find_marked(output: &Vec<u8>) -> (r: Option<usize>)
    ensures
        r matches Some(m) ==> find_marked_from(output@, 0) == Some(m as int)
            && is_marked_start(output@, m as int),
        r is None ==> find_marked_from(output@, 0) is None,
{
    let n = output.len();
    if n < 2 {
        proof {
            lemma_find_marked_none(output@, 0);
        }
        return None;
    }
    let mut i: usize = 0;
    while i <= n - 2
        invariant
            2 <= n == output@.len(),
            0 <= i <= n - 1,
            forall|k: int| 0 <= k < i ==> !is_marked_start(output@, k),
        decreases n - i,
    {
        if (i == 0 || output[i - 1] == 10) && output[i] == 42 && output[i + 1] == 32 {
            proof {
                lemma_find_marked_some(output@, 0, i as int);
            }
            return Some(i);
        }
        i = i + 1;
    }
    proof {
        lemma_find_marked_none(output@, 0);
    }
    None
}

/// Finds the end of the line that `start` lies on.
fn find_line_end(output: &Vec<u8>, start: usize) -> (e: usize)
    requires
        start <= output@.len(),
    ensures
        e == line_end_from(output@, start as nat),
        start <= e <= output@.len(),
{
    let n = output.len();
    let mut i: usize = start;
    while i < n
        invariant
            start <= i <= n == output@.len(),
            forall|k: int| start <= k < i ==> output@[k] != 10,
        decreases n - i,
    {
        if output[i] == 10 {
            proof {
                lemma_line_end(output@, start as nat, i as int);
            }
            return i;
        }
        i = i + 1;
    }
    proof {
        lemma_line_end(output@, start as nat, n as int);
    }
    n
}

fn detached_vec() -> (v: Vec<u8>)
    ensures
        v@ == detached_prefix(),
{
    let v = vec![40u8, 72, 69, 65, 68, 32, 100, 101, 116, 97, 99, 104, 101, 100];
    proof {
        assert(v@ =~= detached_prefix());
    }
    v
}

fn operation_bisect_vec() -> (v: Vec<u8>)
    ensures
        v@ == operation_prefix() + bisect_bytes(),
{
    let v = vec![
        40u8, 110, 111, 32, 98, 114, 97, 110, 99, 104, 44, 32, 98, 105, 115, 101, 99, 116,
    ];
    proof {
        assert(v@ =~= operation_prefix() + bisect_bytes());
    }
    v
}

fn operation_rebasing_vec() -> (v: Vec<u8>)
    ensures
        v@ == operation_prefix() + rebasing_bytes(),
{
    let v = vec![
        40u8, 110, 111, 32, 98, 114, 97, 110, 99, 104, 44, 32, 114, 101, 98, 97, 115, 105,
        110, 103,
    ];
    proof {
        assert(v@ =~= operation_prefix() + rebasing_bytes());
    }
    v
}

fn bisect_vec() -> (v: Vec<u8>)
    ensures
        v@ == bisect_bytes(),
{
    let v = vec![98u8, 105, 115, 101, 99, 116];
    proof {
        assert(v@ =~= bisect_bytes());
    }
    v
}

fn rebasing_vec() -> (v: Vec<u8>)
    ensures
        v@ == rebasing_bytes(),
{
    let v = vec![114u8, 101, 98, 97, 115, 105, 110, 103];
    proof {
        assert(v@ =~= rebasing_bytes());
    }
    v
}

/// `output[c..e]` begins with `p`.
fn range_starts_with(output: &Vec<u8>, c: usize, e: usize, p: &Vec<u8>) -> (r: bool)
    requires
        c <= e <= output@.len(),
    ensures
        r == starts_with(output@.subrange(c as int, e as int), p@),
{
    if p.len() > e - c {
        return false;
    }
    let r = segment_matches(output, c, p);
    proof {
        let rest = output@.subrange(c as int, e as int);
        assert(rest.subrange(0, p@.len() as int) =~= output@.subrange(
            c as int,
            c as int + p@.len() as int,
        ));
    }
    r
}

/// The directory of per-branch ledger files, relative to the
/// repository root: `.git/.dropstitch/`.
pub open spec fn ledger_dir_bytes() -> Seq<u8> {
    seq![46u8, 103, 105, 116, 47, 46, 100, 114, 111, 112, 115, 116, 105, 116, 99, 104, 47]
}

/// The directory of per-branch history logs, relative to the
/// repository root: `.git/logs/refs/heads/`.
pub open spec fn reflog_dir_bytes() -> Seq<u8> {
    seq![
        46u8, 103, 105, 116, 47, 108, 111, 103, 115, 47, 114, 101, 102, 115, 47, 104, 101, 97,
        100, 115, 47,
    ]
}

/// The ledger file of a branch, relative to the repository root: the
/// ledger directory plus the branch name. Each branch thereby keeps
/// its own, non-interfering ledger.
pub fn ledger_rel_path(branch: &Vec<u8>) -> (p: Vec<u8>)
    ensures
        p@ == ledger_dir_bytes() + branch@,
{
    let mut p = vec![
        46u8, 103, 105, 116, 47, 46, 100, 114, 111, 112, 115, 116, 105, 116, 99, 104, 47,
    ];
    let mut name = copy_range(branch, 0, branch.len());
    p.append(&mut name);
    proof {
        assert(p@ =~= ledger_dir_bytes() + branch@);
    }
    p
}

/// The history log file of a branch, relative to the repository root:
/// the history log directory plus the branch name.
pub fn reflog_rel_path(branch: &Vec<u8>) -> (p: Vec<u8>)
    ensures
        p@ == reflog_dir_bytes() + branch@,
{
    let mut p = vec![
        46u8, 103, 105, 116, 47, 108, 111, 103, 115, 47, 114, 101, 102, 115, 47, 104, 101, 97,
        100, 115, 47,
    ];
    let mut name = copy_range(branch, 0, branch.len());
    p.append(&mut name);
    proof {
        assert(p@ =~= reflog_dir_bytes() + branch@);
    }
    p
}

/// The marker check of the guard: the metadata marker must exist and
/// be a regular file, else the root is not a repository at all.
pub fn check_repository(head_exists: bool, head_is_file: bool) -> (r: Result<(), DropstitchError>)
    ensures
        r is Ok <==> (head_exists && head_is_file),
        r matches Err(e) ==> e == DropstitchError::NotAGitRepository,
{
    if head_exists && head_is_file {
        Ok(())
    } else {
        Err(DropstitchError::NotAGitRepository)
    }
}

/// Reads the active branch name out of the captured branch listing.
///
/// The first line marked `* ` decides the outcome: a detached
/// checkout and an operation in progress (with its name) are the two
/// modeled fatal conditions, in that priority order; otherwise the
/// rest of the line is the branch name. A listing with no marked
/// line, or a marked line with nothing after the marker, is an
/// unexpected environment, surfaced distinctly as an internal error
/// carrying the whole listing.
pub fn parse_branch_output(output: &Vec<u8>) -> (r: Result<Vec<u8>, DropstitchError>)
    ensures
        ({
            match find_marked_from(output@, 0) {
                None => r matches Err(e) && e matches DropstitchError::Other(l) && l@ == output@,
                Some(m) => {
                    let rest = output@.subrange(m + 2, line_end_from(output@, (m + 2) as nat));
                    if guard_expects_detached(rest) {
                        r == Err::<Vec<u8>, DropstitchError>(DropstitchError::DetachedHead)
                    } else if guard_operation(rest) is Some {
                        r matches Err(e) && e matches DropstitchError::OperationInProgress(op)
                            && op@ == guard_operation(rest).unwrap()
                    } else if rest.len() > 0 {
                        r matches Ok(branch) && branch@ == rest
                    } else {
                        r matches Err(e) && e matches DropstitchError::Other(l) && l@ == output@
                    }
                },
            }
        }),
{
    let n = output.len();
    proof {
        assert(output@.subrange(0, output@.len() as int) =~= output@);
    }
    let m_opt = find_marked(output);
    match m_opt {
        None => Err(DropstitchError::Other(copy_range(output, 0, n))),
        Some(m) => {
            let c = m + 2;
            let e = find_line_end(output, c);
            let p = detached_vec();
            if range_starts_with(output, c, e, &p) {
                return Err(DropstitchError::DetachedHead);
            }
            let p = operation_bisect_vec();
            if range_starts_with(output, c, e, &p) {
                return Err(DropstitchError::OperationInProgress(bisect_vec()));
            }
            let p = operation_rebasing_vec();
            if range_starts_with(output, c, e, &p) {
                return Err(DropstitchError::OperationInProgress(rebasing_vec()));
            }
            if e > c {
                return Ok(copy_range(output, c, e));
            }
            Err(DropstitchError::Other(copy_range(output, 0, n)))
        },
    }
}

} // verus!
