//! Parsing of branch history log lines into operation records.
//!
//! A history log holds many unrelated entries (checkouts, commits,
//! merges); only lines of the recognized shape yield a record, and a
//! line of any other shape is a normal non-match, never an error. The
//! recognized shape is: a forty-byte alphanumeric "from" identifier, a
//! space, a forty-byte alphanumeric "to" identifier, a space, then free
//! text that contains the token `(amend): ` with at least one byte
//! before it and at least one byte after it. A structurally similar
//! line whose parenthesized token is any other word carries an
//! operation kind this tool does not act on; such lines are skipped
//! like any other non-match rather than treated as corruption, since
//! new kinds are expected to appear in real history logs.

use vstd::prelude::*;

use crate::records::{copy_range, is_alnum, alnum, lines_view, Operation, Ref, RefV};

verus! {

/// The token `(amend): ` stands at position `i` of `s`.
pub open spec fn amend_token_at(s: Seq<u8>, i: int) -> bool {
    &&& s[i] == 40  // '('
    &&& s[i + 1] == 97  // 'a'
    &&& s[i + 2] == 109  // 'm'
    &&& s[i + 3] == 101  // 'e'
    &&& s[i + 4] == 110  // 'n'
    &&& s[i + 5] == 100  // 'd'
    &&& s[i + 6] == 41  // ')'
    &&& s[i + 7] == 58  // ':'
    &&& s[i + 8] == 32  // ' '
}

/// The recognized shape of a history log line: two forty-byte
/// alphanumeric identifiers separated and followed by a space, then
/// free text holding `(amend): ` somewhere after its first byte, with
/// at least one byte following the token.
pub open spec fn line_matches(s: Seq<u8>) -> bool {
    &&& s.len() >= 93
    &&& forall|j: int| 0 <= j < 40 ==> is_alnum(#[trigger] s[j])
    &&& s[40] == 32  // ' '
    &&& forall|j: int| 41 <= j < 81 ==> is_alnum(#[trigger] s[j])
    &&& s[81] == 32  // ' '
    &&& exists|i: int| 83 <= i && i + 10 <= s.len() && amend_token_at(s, i)
}

/// The record a matching line denotes: the identifiers at the two
/// fixed positions, with the one recognized operation kind.
pub open spec fn parsed_record(s: Seq<u8>) -> RefV {
    RefV {
        from_hash: s.subrange(0, 40),
        to_hash: s.subrange(41, 81),
        operation: Operation::Amend,
    }
}

/// The token `(amend): ` stands at position `i` of the line.
fn has_amend_token_at(line: &Vec<u8>, i: usize) -> (r: bool)
    requires
        i + 9 <= line@.len(),
    ensures
        r == amend_token_at(line@, i as int),
{
    // Binding the length ties the view's length to a machine word, so
    // the index arithmetic below is known not to overflow.
    let n = line.len();
    line[i] == 40 && line[i + 1] == 97 && line[i + 2] == 109 && line[i + 3] == 101
        && line[i + 4] == 110 && line[i + 5] == 100 && line[i + 6] == 41 && line[i + 7] == 58
        && line[i + 8] == 32
}

impl Ref {
    /// Parses one line of the branch history log.
    ///
    /// Returns the operation record a line of the recognized shape
    /// denotes, and `None` for every other line; a non-match is a
    /// normal outcome, never an error.
    pub fn from_line(line: &Vec<u8>) -> (r: Option<Ref>)
        ensures
            r is Some <==> line_matches(line@),
            r matches Some(rec) ==> rec@ == parsed_record(line@) && rec.wf(),
    {
        if line.len() < 93 {
            return None;
        }
        let mut j: usize = 0;
        while j < 40
            invariant
                0 <= j <= 40,
                line@.len() >= 93,
                forall|k: int| 0 <= k < j ==> is_alnum(#[trigger] line@[k]),
            decreases 40 - j,
        {
            if !alnum(line[j]) {
                return None;
            }
            j = j + 1;
        }
        if line[40] != 32 {
            return None;
        }
        let mut j: usize = 41;
        while j < 81
            invariant
                41 <= j <= 81,
                line@.len() >= 93,
                forall|k: int| 41 <= k < j ==> is_alnum(#[trigger] line@[k]),
            decreases 81 - j,
        {
            if !alnum(line[j]) {
                return None;
            }
            j = j + 1;
        }
        if line[81] != 32 {
            return None;
        }
        let mut i: usize = 83;
        while i <= line.len() - 10
            invariant
                83 <= i <= line@.len() - 9,
                line@.len() >= 93,
                forall|k: int| 0 <= k < 40 ==> is_alnum(#[trigger] line@[k]),
                line@[40] == 32,
                forall|k: int| 41 <= k < 81 ==> is_alnum(#[trigger] line@[k]),
                line@[81] == 32,
                forall|k: int| 83 <= k < i ==> !amend_token_at(line@, k),
            decreases line@.len() - i,
        {
            if has_amend_token_at(line, i) {
                let from_hash = copy_range(line, 0, 40);
                let to_hash = copy_range(line, 41, 81);
                return Some(Ref { from_hash, to_hash, operation: Operation::Amend });
            }
            i = i + 1;
        }
        proof {
            assert(forall|k: int| 83 <= k && k + 10 <= line@.len() ==> !amend_token_at(line@, k));
        }
        None
    }
}

/// The records that a sequence of history log lines denotes, in log
/// order: each matching line contributes its record, every other line
/// is skipped.
pub open spec fn parsed_records(lines: Seq<Seq<u8>>) -> Seq<RefV>
    decreases lines.len(),
{
    if lines.len() == 0 {
        Seq::empty()
    } else if line_matches(lines.last()) {
        parsed_records(lines.drop_last()).push(parsed_record(lines.last()))
    } else {
        parsed_records(lines.drop_last())
    }
}

/// The models of a vector of operation records.
pub open spec fn refs_view(refs: Seq<Ref>) -> Seq<RefV> {
    refs.map_values(|r: Ref| r@)
}

/// Parses a whole branch history log, given as its lines in file
/// order, into the ordered list of recognized operation records.
pub fn parse_ref_lines(lines: &Vec<Vec<u8>>) -> (refs: Vec<Ref>)
    ensures
        refs_view(refs@) == parsed_records(lines_view(lines@)),
        forall|i: int| 0 <= i < refs@.len() ==> (#[trigger] refs@[i]).wf(),
{
    let ghost all_lines = lines_view(lines@);
    let mut refs: Vec<Ref> = Vec::new();
    let mut i: usize = 0;
    while i < lines.len()
        invariant
            0 <= i <= lines@.len(),
            all_lines == lines_view(lines@),
            refs_view(refs@) == parsed_records(all_lines.subrange(0, i as int)),
            forall|k: int| 0 <= k < refs@.len() ==> (#[trigger] refs@[k]).wf(),
        decreases lines@.len() - i,
    {
        let ghost prefix = all_lines.subrange(0, i as int);
        let ghost next_prefix = all_lines.subrange(0, i + 1 as int);
        proof {
            assert(next_prefix.drop_last() =~= prefix);
            assert(next_prefix.last() == all_lines[i as int]);
        }
        match Ref::from_line(&lines[i]) {
            Some(r) => {
                refs.push(r);
                proof {
                    assert(refs_view(refs@) =~= parsed_records(next_prefix));
                }
            },
            None => {
                proof {
                    assert(refs_view(refs@) =~= parsed_records(next_prefix));
                }
            },
        }
        i = i + 1;
    }
    proof {
        assert(all_lines.subrange(0, lines@.len() as int) =~= all_lines);
    }
    refs
}

} // verus!
