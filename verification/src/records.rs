//! The data model: operation records read from the branch history log and
//! action records kept in the ledger.

use vstd::prelude::*;

verus! {

/// The kind of history-rewriting operation a log entry records.
/// Only commit amendment is recognized today; lines carrying any other
/// kind are filtered out during parsing.
#[derive(Clone, Copy, Debug, PartialEq, Eq, Structural)]
pub enum Operation {
    Amend,
}

/// What was done to an operation record: it was undone, or redone.
#[derive(Clone, Copy, Debug, PartialEq, Eq, Structural)]
pub enum Action {
    Undo,
    Redo,
}

/// Mathematical model of a [`Ref`]: the two content identifiers as byte
/// sequences, plus the operation kind.
#[verifier::ext_equal]
pub struct RefV {
    pub from_hash: Seq<u8>,
    pub to_hash: Seq<u8>,
    pub operation: Operation,
}

/// True for the ASCII digits and letters, the only bytes allowed in a
/// content identifier.
pub open spec fn is_alnum(b: u8) -> bool {
    (48 <= b && b <= 57)  // '0' ..= '9'
    || (97 <= b && b <= 122)  // 'a' ..= 'z'
    || (65 <= b && b <= 90)  // 'A' ..= 'Z'
}

/// Runtime test matching [`is_alnum`].
pub fn alnum(b: u8) -> (r: bool)
    ensures
        r == is_alnum(b),
{
    (48 <= b && b <= 57) || (97 <= b && b <= 122) || (65 <= b && b <= 90)
}

/// A well-formed content identifier: exactly forty alphanumeric bytes.
pub open spec fn is_hash(s: Seq<u8>) -> bool {
    s.len() == 40 && (forall|i: int| 0 <= i < s.len() ==> is_alnum(#[trigger] s[i]))
}

impl RefV {
    /// Both identifiers of the record are well-formed.
    pub open spec fn wf(self) -> bool {
        is_hash(self.from_hash) && is_hash(self.to_hash)
    }
}

/// One entry of the branch history log: an operation that rewrote the
/// branch from the state named by `from_hash` to the one named by
/// `to_hash`. A value is only ever constructed from a line that matched
/// the recognized shape, so both identifiers are well-formed.
#[derive(Clone, Debug, PartialEq, Eq)]
pub struct Ref {
    pub from_hash: Vec<u8>,
    pub to_hash: Vec<u8>,
    pub operation: Operation,
}

impl View for Ref {
    type V = RefV;

    open spec fn view(&self) -> RefV {
        RefV {
            from_hash: self.from_hash@,
            to_hash: self.to_hash@,
            operation: self.operation,
        }
    }
}

impl Ref {
    /// Both identifiers of the record are well-formed.
    pub open spec fn wf(self) -> bool {
        self@.wf()
    }
}

/// Mathematical model of an [`ActionPerformed`] record.
#[verifier::ext_equal]
pub struct ActionPerformedV {
    pub action: Action,
    pub reference: RefV,
}

impl ActionPerformedV {
    /// The underlying operation record is well-formed.
    pub open spec fn wf(self) -> bool {
        self.reference.wf()
    }
}

/// A durable fact for the ledger: `action` was performed against the
/// operation record `reference`. Equality is structural.
#[derive(Clone, Debug, PartialEq, Eq)]
pub struct ActionPerformed {
    pub action: Action,
    pub reference: Ref,
}

impl View for ActionPerformed {
    type V = ActionPerformedV;

    open spec fn view(&self) -> ActionPerformedV {
        ActionPerformedV { action: self.action, reference: self.reference@ }
    }
}

impl ActionPerformed {
    /// The underlying operation record is well-formed.
    pub open spec fn wf(self) -> bool {
        self@.wf()
    }
}

/// The byte sequences of a vector of text lines.
pub open spec fn lines_view(lines: Seq<Vec<u8>>) -> Seq<Seq<u8>> {
    lines.map_values(|l: Vec<u8>| l@)
}

/// Runtime test matching [`is_hash`].
pub fn check_hash(v: &Vec<u8>) -> (r: bool)
    ensures
        r == is_hash(v@),
{
    if v.len() != 40 {
        return false;
    }
    let mut i: usize = 0;
    while i < 40
        invariant
            0 <= i <= 40,
            v@.len() == 40,
            forall|j: int| 0 <= j < i ==> is_alnum(#[trigger] v@[j]),
        decreases 40 - i,
    {
        if !alnum(v[i]) {
            return false;
        }
        i = i + 1;
    }
    true
}

/// Copies `line[start..end]` into a fresh vector.
pub fn copy_range(line: &Vec<u8>, start: usize, end: usize) -> (v: Vec<u8>)
    requires
        start <= end <= line@.len(),
    ensures
        v@ == line@.subrange(start as int, end as int),
{
    let mut v: Vec<u8> = Vec::new();
    let mut k: usize = start;
    while k < end
        invariant
            start <= k <= end <= line@.len(),
            v@ == line@.subrange(start as int, k as int),
        decreases end - k,
    {
        v.push(line[k]);
        k = k + 1;
        proof {
            assert(v@ =~= line@.subrange(start as int, k as int));
        }
    }
    v
}

impl Ref {
    /// A structurally equal copy of this record.
    pub fn duplicate(&self) -> (c: Ref)
        ensures
            c@ == self@,
    {
        let c = Ref {
            from_hash: copy_range(&self.from_hash, 0, self.from_hash.len()),
            to_hash: copy_range(&self.to_hash, 0, self.to_hash.len()),
            operation: self.operation,
        };
        proof {
            assert(c@ =~= self@);
        }
        c
    }
}

/// Byte-for-byte equality of two byte vectors.
pub fn bytes_eq(a: &Vec<u8>, b: &Vec<u8>) -> (r: bool)
    ensures
        r == (a@ == b@),
{
    if a.len() != b.len() {
        return false;
    }
    let mut i: usize = 0;
    while i < a.len()
        invariant
            0 <= i <= a.len(),
            a@.len() == b@.len(),
            forall|j: int| 0 <= j < i ==> a@[j] == b@[j],
        decreases a.len() - i,
    {
        if a[i] != b[i] {
            return false;
        }
        i = i + 1;
    }
    proof {
        assert(a@ =~= b@);
    }
    true
}

/// Structural equality of two operation records.
pub fn ref_eq(a: &Ref, b: &Ref) -> (r: bool)
    ensures
        r == (a@ == b@),
{
    let r = a.operation == b.operation && bytes_eq(&a.from_hash, &b.from_hash)
        && bytes_eq(&a.to_hash, &b.to_hash);
    proof {
        if r {
            assert(a@ =~= b@);
        }
    }
    r
}

/// Structural equality of two ledger records.
pub fn action_performed_eq(a: &ActionPerformed, b: &ActionPerformed) -> (r: bool)
    ensures
        r == (a@ == b@),
{
    let r = a.action == b.action && ref_eq(&a.reference, &b.reference);
    proof {
        if r {
            assert(a@ =~= b@);
        }
    }
    r
}

} // verus!
