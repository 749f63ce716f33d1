//! The ledger line codec: one action record to and from one
//! self-contained line of persisted text.
//!
//! A record is written as a single object in structured text form,
//! `{"action":"undo","reference":{"from_hash":"…","to_hash":"…","operation":"amend"}}`,
//! with the two identifiers filled in. Decoding accepts exactly the
//! lines that encoding produces; any other line is corrupt persisted
//! state and a hard error, never silently skipped.

use vstd::prelude::*;

use crate::error::DropstitchError;
use crate::records::{
    check_hash, copy_range, is_hash, lines_view, Action, ActionPerformed, ActionPerformedV,
    Operation, Ref, RefV,
};

verus! {

/// The opening of every ledger line: `{"action":"`.
pub open spec fn header_bytes() -> Seq<u8> {
    seq![123u8, 34, 97, 99, 116, 105, 111, 110, 34, 58, 34]
}

/// The action token: `undo` or `redo`.
pub open spec fn action_bytes(a: Action) -> Seq<u8> {
    match a {
        Action::Undo => seq![117u8, 110, 100, 111],
        Action::Redo => seq![114u8, 101, 100, 111],
    }
}

/// The text between the action and the first identifier:
/// `","reference":{"from_hash":"`.
pub open spec fn mid_from_bytes() -> Seq<u8> {
    seq![
        34u8, 44, 34, 114, 101, 102, 101, 114, 101, 110, 99, 101, 34, 58, 123, 34, 102, 114,
        111, 109, 95, 104, 97, 115, 104, 34, 58, 34,
    ]
}

/// The text between the two identifiers: `","to_hash":"`.
pub open spec fn mid_to_bytes() -> Seq<u8> {
    seq![34u8, 44, 34, 116, 111, 95, 104, 97, 115, 104, 34, 58, 34]
}

/// The closing of every ledger line: `","operation":"amend"}}`.
pub open spec fn footer_bytes() -> Seq<u8> {
    seq![
        34u8, 44, 34, 111, 112, 101, 114, 97, 116, 105, 111, 110, 34, 58, 34, 97, 109, 101,
        110, 100, 34, 125, 125,
    ]
}

/// The one line that encodes the record `r`.
pub open spec fn encoded_line(r: ActionPerformedV) -> Seq<u8> {
    header_bytes() + action_bytes(r.action) + mid_from_bytes() + r.reference.from_hash
        + mid_to_bytes() + r.reference.to_hash + footer_bytes()
}

/// The record a persisted line denotes, or `None` for a corrupt line.
/// A line decodes exactly when it has the encoded shape: the fixed
/// framing at the fixed positions, a known action token, and two
/// well-formed identifiers.
pub open spec fn decoded_record(s: Seq<u8>) -> Option<ActionPerformedV> {
    if s.len() == 159 && s.subrange(0, 11) == header_bytes() && (s.subrange(11, 15)
        == action_bytes(Action::Undo) || s.subrange(11, 15) == action_bytes(Action::Redo))
        && s.subrange(15, 43) == mid_from_bytes() && is_hash(s.subrange(43, 83)) && s.subrange(
        83,
        96,
    ) == mid_to_bytes() && is_hash(s.subrange(96, 136)) && s.subrange(136, 159)
        == footer_bytes() {
        Some(
            ActionPerformedV {
                action: if s.subrange(11, 15) == action_bytes(Action::Undo) {
                    Action::Undo
                } else {
                    Action::Redo
                },
                reference: RefV {
                    from_hash: s.subrange(43, 83),
                    to_hash: s.subrange(96, 136),
                    operation: Operation::Amend,
                },
            },
        )
    } else {
        None
    }
}

fn header_vec() -> (v: Vec<u8>)
    ensures
        v@ == header_bytes(),
{
    let v = vec![123u8, 34, 97, 99, 116, 105, 111, 110, 34, 58, 34];
    proof {
        assert(v@ =~= header_bytes());
    }
    v
}

fn action_vec(a: Action) -> (v: Vec<u8>)
    ensures
        v@ == action_bytes(a),
{
    match a {
        Action::Undo => {
            let v = vec![117u8, 110, 100, 111];
            proof {
                assert(v@ =~= action_bytes(Action::Undo));
            }
            v
        },
        Action::Redo => {
            let v = vec![114u8, 101, 100, 111];
            proof {
                assert(v@ =~= action_bytes(Action::Redo));
            }
            v
        },
    }
}

fn mid_from_vec() -> (v: Vec<u8>)
    ensures
        v@ == mid_from_bytes(),
{
    let v = vec![
        34u8, 44, 34, 114, 101, 102, 101, 114, 101, 110, 99, 101, 34, 58, 123, 34, 102, 114,
        111, 109, 95, 104, 97, 115, 104, 34, 58, 34,
    ];
    proof {
        assert(v@ =~= mid_from_bytes());
    }
    v
}

fn mid_to_vec() -> (v: Vec<u8>)
    ensures
        v@ == mid_to_bytes(),
{
    let v = vec![34u8, 44, 34, 116, 111, 95, 104, 97, 115, 104, 34, 58, 34];
    proof {
        assert(v@ =~= mid_to_bytes());
    }
    v
}

fn footer_vec() -> (v: Vec<u8>)
    ensures
        v@ == footer_bytes(),
{
    let v = vec![
        34u8, 44, 34, 111, 112, 101, 114, 97, 116, 105, 111, 110, 34, 58, 34, 97, 109, 101,
        110, 100, 34, 125, 125,
    ];
    proof {
        assert(v@ =~= footer_bytes());
    }
    v
}

/// `line[start..start+seg.len()]` equals `seg`.
pub(crate) fn segment_matches(line: &Vec<u8>, start: usize, seg: &Vec<u8>) -> (r: bool)
    requires
        start + seg@.len() <= line@.len(),
    ensures
        r == (line@.subrange(start as int, start as int + seg@.len() as int) == seg@),
{
    let n = seg.len();
    let ln = line.len();
    let mut k: usize = 0;
    while k < n
        invariant
            0 <= k <= n,
            n == seg@.len(),
            ln == line@.len(),
            start + n <= ln,
            forall|j: int| 0 <= j < k ==> line@[start + j] == seg@[j],
        decreases n - k,
    {
        if line[start + k] != seg[k] {
            proof {
                assert(line@.subrange(start as int, start as int + seg@.len() as int)[k as int]
                    != seg@[k as int]);
            }
            return false;
        }
        k = k + 1;
    }
    proof {
        assert(line@.subrange(start as int, start as int + seg@.len() as int) =~= seg@);
    }
    true
}

/// The hard error for a line that does not decode, carrying the line.
fn corrupt(line: &Vec<u8>) -> (e: DropstitchError)
    ensures
        e matches DropstitchError::Other(l) && l@ == line@,
{
    DropstitchError::Other(copy_range(line, 0, line.len()))
}

impl ActionPerformed {
    /// Encodes this record as its one-line persisted form.
    pub fn encode(&self) -> (line: Vec<u8>)
        ensures
            line@ == encoded_line(self@),
    {
        let mut line = header_vec();
        let mut part = action_vec(self.action);
        line.append(&mut part);
        let mut part = mid_from_vec();
        line.append(&mut part);
        let mut part = copy_range(&self.reference.from_hash, 0, self.reference.from_hash.len());
        line.append(&mut part);
        let mut part = mid_to_vec();
        line.append(&mut part);
        let mut part = copy_range(&self.reference.to_hash, 0, self.reference.to_hash.len());
        line.append(&mut part);
        let mut part = footer_vec();
        line.append(&mut part);
        proof {
            assert(self.reference.from_hash@.subrange(0, self.reference.from_hash@.len() as int)
                =~= self.reference.from_hash@);
            assert(self.reference.to_hash@.subrange(0, self.reference.to_hash@.len() as int)
                =~= self.reference.to_hash@);
            assert(line@ =~= encoded_line(self@));
        }
        line
    }

    /// Decodes one persisted ledger line back into a record.
    ///
    /// Exactly the lines of the encoded shape succeed; any other line
    /// is corrupt persisted state, returned as a hard error carrying
    /// the line itself.
    pub fn from_line(line: &Vec<u8>) -> (r: Result<ActionPerformed, DropstitchError>)
        ensures
            r is Ok <==> decoded_record(line@) is Some,
            r matches Ok(rec) ==> rec@ == decoded_record(line@).unwrap() && rec.wf(),
            r matches Err(e) ==> e matches DropstitchError::Other(l) && l@ == line@,
    {
        if line.len() != 159 {
            return Err(corrupt(line));
        }
        let hdr = header_vec();
        if !segment_matches(line, 0, &hdr) {
            return Err(corrupt(line));
        }
        let undo = action_vec(Action::Undo);
        let redo = action_vec(Action::Redo);
        let is_undo = segment_matches(line, 11, &undo);
        let is_redo = segment_matches(line, 11, &redo);
        if !is_undo && !is_redo {
            return Err(corrupt(line));
        }
        let m1 = mid_from_vec();
        if !segment_matches(line, 15, &m1) {
            return Err(corrupt(line));
        }
        let from_hash = copy_range(line, 43, 83);
        if !check_hash(&from_hash) {
            return Err(corrupt(line));
        }
        let m2 = mid_to_vec();
        if !segment_matches(line, 83, &m2) {
            return Err(corrupt(line));
        }
        let to_hash = copy_range(line, 96, 136);
        if !check_hash(&to_hash) {
            return Err(corrupt(line));
        }
        let ft = footer_vec();
        if !segment_matches(line, 136, &ft) {
            return Err(corrupt(line));
        }
        let action = if is_undo {
            Action::Undo
        } else {
            Action::Redo
        };
        let rec = ActionPerformed {
            action,
            reference: Ref { from_hash, to_hash, operation: Operation::Amend },
        };
        proof {
            assert(rec@ =~= decoded_record(line@).unwrap());
        }
        Ok(rec)
    }
}

/// Decoding a record's encoded line gives the record back unchanged:
/// the round trip law of the codec, for every well-formed record.
#[verifier::rlimit(60)]
pub proof fn lemma_codec_round_trip(v: ActionPerformedV)
    requires
        v.wf(),
    ensures
        decoded_record(encoded_line(v)) == Some(v),
{
    let e = encoded_line(v);
    assert(action_bytes(v.action).len() == 4);
    assert(e.subrange(0, 11) =~= header_bytes());
    assert(e.subrange(11, 15) =~= action_bytes(v.action));
    assert(e.subrange(15, 43) =~= mid_from_bytes());
    assert(e.subrange(43, 83) =~= v.reference.from_hash);
    assert(e.subrange(83, 96) =~= mid_to_bytes());
    assert(e.subrange(96, 136) =~= v.reference.to_hash);
    assert(e.subrange(136, 159) =~= footer_bytes());
    assert(action_bytes(Action::Undo)[0] == 117);
    assert(action_bytes(Action::Redo)[0] == 114);
    assert(decoded_record(e).unwrap() =~= v);
}

/// All lines of a persisted ledger decode.
pub open spec fn ledger_lines_ok(lines: Seq<Seq<u8>>) -> bool {
    forall|i: int| 0 <= i < lines.len() ==> (#[trigger] decoded_record(lines[i])) is Some
}

/// The records a fully decodable ledger holds, in file order.
pub open spec fn decoded_ledger(lines: Seq<Seq<u8>>) -> Seq<ActionPerformedV> {
    lines.map_values(|l: Seq<u8>| decoded_record(l).unwrap())
}

/// The models of a vector of ledger records.
pub open spec fn ledger_view(log: Seq<ActionPerformed>) -> Seq<ActionPerformedV> {
    log.map_values(|a: ActionPerformed| a@)
}

/// Parses a whole persisted ledger, given as its lines in file order.
///
/// Succeeds with every record, in order, exactly when every line
/// decodes; a single corrupt line fails the whole load, with the first
/// corrupt line as the error's payload.
pub fn parse_action_lines(lines: &Vec<Vec<u8>>) -> (r: Result<
    Vec<ActionPerformed>,
    DropstitchError,
>)
    ensures
        r is Ok <==> ledger_lines_ok(lines_view(lines@)),
        r matches Ok(log) ==> ledger_view(log@) == decoded_ledger(lines_view(lines@)) && (
        forall|i: int| 0 <= i < log@.len() ==> (#[trigger] log@[i]).wf()),
        r matches Err(e) ==> e matches DropstitchError::Other(bad) && (exists|i: int|
            0 <= i < lines@.len() && decoded_record(#[trigger] lines_view(lines@)[i]) is None
                && bad@ == lines_view(lines@)[i] && (forall|j: int|
                0 <= j < i ==> decoded_record(#[trigger] lines_view(lines@)[j]) is Some)),
{
    let ghost all_lines = lines_view(lines@);
    let mut log: Vec<ActionPerformed> = Vec::new();
    let mut i: usize = 0;
    while i < lines.len()
        invariant
            0 <= i <= lines@.len(),
            all_lines == lines_view(lines@),
            log@.len() == i,
            forall|k: int|
                0 <= k < i ==> decoded_record(#[trigger] all_lines[k]) is Some,
            forall|k: int|
                0 <= k < i ==> (#[trigger] log@[k])@ == decoded_record(all_lines[k]).unwrap(),
            forall|k: int| 0 <= k < i ==> (#[trigger] log@[k]).wf(),
        decreases lines@.len() - i,
    {
        match ActionPerformed::from_line(&lines[i]) {
            Ok(rec) => {
                log.push(rec);
            },
            Err(e) => {
                proof {
                    let wi = i as int;
                    assert(all_lines[wi] == lines[wi]@);
                    assert(decoded_record(all_lines[wi]) is None);
                    assert(forall|j: int|
                        0 <= j < wi ==> decoded_record(#[trigger] all_lines[j]) is Some);
                }
                return Err(e);
            },
        }
        i = i + 1;
    }
    proof {
        assert(ledger_view(log@) =~= decoded_ledger(all_lines));
    }
    Ok(log)
}

} // verus!
