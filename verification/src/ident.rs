use vstd::prelude::*;

verus! {

/// Opaque, totally ordered identity for a todo entry. The value is only
/// compared and used as a key; it is never parsed for meaning.
#[derive(Clone, Copy, PartialEq, Eq, Structural, Debug)]
pub struct Identifier {
    value: u128,
}

impl View for Identifier {
    type V = u128;

    closed spec fn view(&self) -> u128 {
        self.value
    }
}

impl Identifier {
    pub fn from_value(value: u128) -> (r: Identifier)
        ensures
            r@ == value,
    {
        Identifier { value }
    }

    pub fn value(&self) -> (r: u128)
        ensures
            r == self@,
    {
        self.value
    }

    pub fn lt(&self, other: &Identifier) -> (r: bool)
        ensures
            r == (self@ < other@),
    {
        self.value < other.value
    }

    pub fn same(&self, other: &Identifier) -> (r: bool)
        ensures
            r == (self@ == other@),
    {
        self.value == other.value
    }
}

/// Candidates at or above this bound are never used directly; the generator
/// falls back to bumping the previous identifier, which keeps enough headroom
/// above every issued value for one bump per remaining `next` call.
pub const ID_HEADROOM: u128 = u128::MAX - 0xFFFF_FFFF_FFFF_FFFF;

/// Relies on ulid::Ulid::generate: a fresh ULID drawn from the current time
/// and a random source. Its value depends on both, so nothing is promised of
/// the result.
#[verifier::external_body]
fn fresh_ulid_value() -> u128 {
    ulid::Ulid::generate().0
}

/// Issues process-unique, strictly increasing identifiers. Each call draws a
/// ULID as a candidate; a candidate that would not sort after every value
/// issued so far is replaced by the successor of the previous value.
pub struct IdGenerator {
    last: u128,
    issued: u64,
    history: Ghost<Seq<u128>>,
}

impl IdGenerator {
    /// All identifier values issued so far, oldest first.
    pub closed spec fn issued_ids(&self) -> Seq<u128> {
        self.history@
    }

    /// The most recently issued value, or zero before the first call.
    pub closed spec fn last_issued(&self) -> u128 {
        self.last
    }

    pub closed spec fn wf(&self) -> bool {
        &&& self.history@.len() == self.issued
        &&& forall|i: int| 0 <= i < self.history@.len() ==> self.history@[i] <= self.last
        &&& forall|i: int, j: int|
            0 <= i < j < self.history@.len() ==> self.history@[i] < self.history@[j]
        &&& (self.last as int) < ID_HEADROOM + self.issued
    }

    pub fn new() -> (r: IdGenerator)
        ensures
            r.wf(),
            r.issued_ids() =~= Seq::<u128>::empty(),
            r.last_issued() == 0,
    {
        IdGenerator { last: 0, issued: 0, history: Ghost(Seq::empty()) }
    }

    /// Whether another identifier can still be issued. False only after an
    /// astronomical number of calls; callers outside verified code test it
    /// before asking for one.
    pub fn can_issue(&self) -> (r: bool)
        requires
            self.wf(),
        ensures
            r == (self.issued_ids().len() < u64::MAX),
    {
        self.issued < u64::MAX
    }

    /// Issue a fresh identifier, strictly greater than every one issued before.
    pub fn next(&mut self) -> (r: Identifier)
        requires
            old(self).wf(),
            old(self).issued_ids().len() < u64::MAX,
        ensures
            final(self).wf(),
            r@ == final(self).last_issued(),
            r@ > old(self).last_issued(),
            final(self).issued_ids() =~= old(self).issued_ids().push(r@),
            forall|i: int|
                0 <= i < old(self).issued_ids().len() ==> old(self).issued_ids()[i] < r@,
    {
        let candidate = fresh_ulid_value();
        let value: u128 = if candidate > self.last && candidate < ID_HEADROOM {
            candidate
        } else {
            self.last + 1
        };
        self.last = value;
        self.issued = self.issued + 1;
        self.history = Ghost(self.history@.push(value));
        Identifier { value }
    }
}

/// Identifier monotonicity: the values a well-formed generator has issued are
/// pairwise distinct and strictly increasing in generation order.
pub proof fn lemma_issued_strictly_increasing(g: &IdGenerator)
    requires
        g.wf(),
    ensures
        forall|i: int, j: int|
            0 <= i < j < g.issued_ids().len() ==> g.issued_ids()[i] < g.issued_ids()[j],
        forall|i: int| 0 <= i < g.issued_ids().len() ==> g.issued_ids()[i] <= g.last_issued(),
{
}

} // verus!
