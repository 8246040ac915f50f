use vstd::prelude::*;
use crate::ident::Identifier;

verus! {

/// A todo entry: its text and whether it has been completed.
pub struct Todo {
    content: String,
    is_complete: bool,
}

/// The mathematical value of a todo entry.
pub ghost struct TodoView {
    pub content: Seq<char>,
    pub is_complete: bool,
}

impl View for Todo {
    type V = TodoView;

    closed spec fn view(&self) -> TodoView {
        TodoView { content: self.content@, is_complete: self.is_complete }
    }
}

impl Todo {
    pub fn new(content: String) -> (r: Todo)
        ensures
            r@ == (TodoView { content: content@, is_complete: false }),
    {
        Todo { content, is_complete: false }
    }

    pub fn new_completed(content: String) -> (r: Todo)
        ensures
            r@ == (TodoView { content: content@, is_complete: true }),
    {
        Todo { content, is_complete: true }
    }

    pub fn content(&self) -> (r: &String)
        ensures
            r@ == self@.content,
    {
        &self.content
    }

    pub fn is_complete(&self) -> (r: bool)
        ensures
            r == self@.is_complete,
    {
        self.is_complete
    }
}

/// Entry sequences are sorted strictly by key: iteration order is ascending
/// identifier order, which is creation order.
pub open spec fn entries_sorted(s: Seq<(u128, TodoView)>) -> bool {
    forall|i: int, j: int| 0 <= i < j < s.len() ==> (#[trigger] s[i]).0 < (#[trigger] s[j]).0
}

/// Whether some entry of `s` has the key `id`.
pub open spec fn contains_id(s: Seq<(u128, TodoView)>, id: u128) -> bool {
    exists|i: int| 0 <= i < s.len() && (#[trigger] s[i]).0 == id
}

/// The entries with a new todo inserted at its sorted position.
pub open spec fn spec_insert(s: Seq<(u128, TodoView)>, id: u128, t: TodoView) -> Seq<
    (u128, TodoView),
>
    decreases s.len(),
{
    if s.len() == 0 {
        seq![(id, t)]
    } else if id < s[0].0 {
        seq![(id, t)] + s
    } else {
        seq![s[0]] + spec_insert(s.drop_first(), id, t)
    }
}

/// The entries with the completion flag of the entry at `id` flipped; entries
/// at other keys, and the whole sequence when `id` is absent, are unchanged.
pub open spec fn spec_toggle_entries(s: Seq<(u128, TodoView)>, id: u128) -> Seq<(u128, TodoView)> {
    s.map_values(
        |e: (u128, TodoView)|
            if e.0 == id {
                (e.0, TodoView { content: e.1.content, is_complete: !e.1.is_complete })
            } else {
                e
            },
    )
}

/// Identity-keyed, insertion-ordered collection of todo entries. The keys are
/// kept sorted ascending, so iteration order is creation order when the keys
/// come from a monotonic generator.
pub struct TodoStore {
    entries: Vec<(Identifier, Todo)>,
}

impl View for TodoStore {
    type V = Seq<(u128, TodoView)>;

    closed spec fn view(&self) -> Seq<(u128, TodoView)> {
        self.entries@.map_values(|e: (Identifier, Todo)| (e.0@, e.1@))
    }
}

impl TodoStore {
    pub open spec fn well_formed(&self) -> bool {
        entries_sorted(self@)
    }

    pub fn new() -> (r: TodoStore)
        ensures
            r.well_formed(),
            r@ =~= Seq::<(u128, TodoView)>::empty(),
    {
        TodoStore { entries: Vec::new() }
    }

    pub fn count(&self) -> (r: usize)
        ensures
            r == self@.len(),
    {
        self.entries.len()
    }

    /// Insert a new, not yet completed todo under `id`. The identifier must
    /// be fresh; the generator guarantees that for generated ones.
    pub fn create(&mut self, id: Identifier, content: String)
        requires
            old(self).well_formed(),
            !contains_id(old(self)@, id@),
        ensures
            final(self).well_formed(),
            final(self)@ == spec_insert(
                old(self)@,
                id@,
                TodoView { content: content@, is_complete: false },
            ),
    {
        self.insert_entry(id, Todo { content, is_complete: false });
    }

    /// Insert a todo under a fresh identifier, at its sorted position.
    pub fn insert_entry(&mut self, id: Identifier, todo: Todo)
        requires
            old(self).well_formed(),
            !contains_id(old(self)@, id@),
        ensures
            final(self).well_formed(),
            final(self)@ == spec_insert(old(self)@, id@, todo@),
    {
        let ghost s0 = self@;
        let ghost tv = todo@;
        let n = self.entries.len();
        let mut k: usize = 0;
        while k < n && self.entries[k].0.lt(&id)
            invariant
                n == self.entries@.len(),
                k <= n,
                self.entries@ == old(self).entries@,
                forall|i: int| 0 <= i < k ==> (#[trigger] s0[i]).0 < id@,
                s0 == self@,
            decreases n - k,
        {
            proof {
                assert(s0[k as int].0 == self.entries@[k as int].0@);
            }
            k = k + 1;
        }
        proof {
            assert(forall|i: int|
                0 <= i < s0.len() ==> (#[trigger] s0[i]).0 != id@);
            if k < n {
                assert(s0[k as int].0 == self.entries@[k as int].0@);
                assert(s0[k as int].0 > id@);
            }
            lemma_spec_insert_at(s0, id@, tv, k as int);
        }
        self.entries.insert(k, (id, todo));
        proof {
            assert(self@ =~= s0.insert(k as int, (id@, tv)));
            lemma_insert_keeps_sorted(s0, (id@, tv), k as int);
        }
    }

    /// Flip the completion flag of the entry at `id`; when no entry has that
    /// key, the store is left unchanged.
    pub fn toggle_complete(&mut self, id: &Identifier)
        requires
            old(self).well_formed(),
        ensures
            final(self).well_formed(),
            final(self)@ == spec_toggle_entries(old(self)@, id@),
            final(self)@.len() == old(self)@.len(),
            forall|i: int|
                0 <= i < old(self)@.len() ==> (#[trigger] final(self)@[i]).0 == old(self)@[i].0,
            forall|i: int|
                0 <= i < old(self)@.len() && (#[trigger] old(self)@[i]).0 != id@
                    ==> final(self)@[i] == old(self)@[i],
            !contains_id(old(self)@, id@) ==> final(self)@ == old(self)@,
    {
        let ghost s0 = self@;
        let n = self.entries.len();
        let mut k: usize = 0;
        while k < n && !self.entries[k].0.same(id)
            invariant
                n == self.entries@.len(),
                k <= n,
                self.entries@ == old(self).entries@,
                forall|i: int| 0 <= i < k ==> (#[trigger] s0[i]).0 != id@,
                s0 == self@,
            decreases n - k,
        {
            proof {
                assert(s0[k as int].0 == self.entries@[k as int].0@);
            }
            k = k + 1;
        }
        if k < n {
            proof {
                assert(s0[k as int].0 == self.entries@[k as int].0@);
            }
            let ident = self.entries[k].0;
            let flag = self.entries[k].1.is_complete;
            let text = self.entries[k].1.content.clone();
            self.entries.set(k, (ident, Todo { content: text, is_complete: !flag }));
            proof {
                assert(self@ =~= spec_toggle_entries(s0, id@)) by {
                    assert forall|i: int| 0 <= i < s0.len() implies self@[i]
                        == spec_toggle_entries(s0, id@)[i] by {
                        if i != k as int {
                            assert(s0[i].0 != id@ || i == k as int) by {
                                if s0[i].0 == id@ && i != k as int {
                                    if i < k as int {
                                        assert((#[trigger] s0[i]).0 != id@);
                                    } else {
                                        assert(s0[k as int].0 < s0[i].0);
                                    }
                                }
                            }
                        }
                    }
                }
            }
        } else {
            proof {
                assert(self@ =~= spec_toggle_entries(s0, id@)) by {
                    assert(forall|i: int| 0 <= i < s0.len() ==> (#[trigger] s0[i]).0 != id@);
                }
            }
        }
        proof {
            if !contains_id(s0, id@) {
                assert(forall|i: int| 0 <= i < s0.len() ==> (#[trigger] s0[i]).0 != id@);
                assert(final(self)@ =~= s0);
            }
        }
    }

    /// The entries in ascending identifier order, i.e. creation order.
    pub fn iterate_ordered(&self) -> (r: Vec<(Identifier, Todo)>)
        ensures
            r@.len() == self@.len(),
            forall|i: int|
                0 <= i < self@.len() ==> ((#[trigger] r@[i]).0@, r@[i].1@) == self@[i],
    {
        let mut out: Vec<(Identifier, Todo)> = Vec::new();
        let n = self.entries.len();
        let mut k: usize = 0;
        while k < n
            invariant
                n == self.entries@.len(),
                k <= n,
                out@.len() == k,
                forall|i: int|
                    0 <= i < k ==> ((#[trigger] out@[i]).0@, out@[i].1@) == self@[i],
            decreases n - k,
        {
            let ident = self.entries[k].0;
            let flag = self.entries[k].1.is_complete;
            let text = self.entries[k].1.content.clone();
            out.push((ident, Todo { content: text, is_complete: flag }));
            k = k + 1;
        }
        out
    }

    /// How many entries are not yet completed ("N items left").
    pub fn count_incomplete(&self) -> (r: usize)
        ensures
            r == spec_incomplete_count(self@),
    {
        let n = self.entries.len();
        let mut count: usize = 0;
        let mut k: usize = 0;
        while k < n
            invariant
                n == self.entries@.len(),
                k <= n,
                count <= k,
                count == spec_incomplete_count(self@.take(k as int)),
            decreases n - k,
        {
            proof {
                lemma_incomplete_count_le_len(self@.take(k as int));
                assert(self@.take(k as int + 1).drop_last() =~= self@.take(k as int));
                assert(self@.take(k as int + 1).last() == self@[k as int]);
            }
            if !self.entries[k].1.is_complete {
                count = count + 1;
            }
            k = k + 1;
        }
        proof {
            assert(self@.take(n as int) =~= self@);
        }
        count
    }
}

/// How many entries of `s` are not completed.
pub open spec fn spec_incomplete_count(s: Seq<(u128, TodoView)>) -> int
    decreases s.len(),
{
    if s.len() == 0 {
        0
    } else {
        spec_incomplete_count(s.drop_last()) + if s.last().1.is_complete {
            0int
        } else {
            1int
        }
    }
}

pub proof fn lemma_incomplete_count_le_len(s: Seq<(u128, TodoView)>)
    ensures
        0 <= spec_incomplete_count(s) <= s.len(),
    decreases s.len(),
{
    if s.len() > 0 {
        lemma_incomplete_count_le_len(s.drop_last());
    }
}

/// The keys of the entries, in iteration order.
pub open spec fn entry_keys(s: Seq<(u128, TodoView)>) -> Seq<u128> {
    s.map_values(|e: (u128, TodoView)| e.0)
}

/// Whether a sequence of identifier values is strictly increasing.
pub open spec fn ids_increasing(ids: Seq<u128>) -> bool {
    forall|i: int, j: int| 0 <= i < j < ids.len() ==> ids[i] < ids[j]
}

/// A store operation, as the update cycle performs them: creating a todo
/// under a fresh identifier, or toggling the completion flag at some key.
pub ghost enum StoreOp {
    Create(u128, TodoView),
    Toggle(u128),
}

/// The entries after one operation.
pub open spec fn apply_op(s: Seq<(u128, TodoView)>, op: StoreOp) -> Seq<(u128, TodoView)> {
    match op {
        StoreOp::Create(id, t) => spec_insert(s, id, t),
        StoreOp::Toggle(id) => spec_toggle_entries(s, id),
    }
}

/// The entries after a whole sequence of operations, applied in order.
pub open spec fn apply_ops(s: Seq<(u128, TodoView)>, ops: Seq<StoreOp>) -> Seq<(u128, TodoView)>
    decreases ops.len(),
{
    if ops.len() == 0 {
        s
    } else {
        apply_ops(apply_op(s, ops[0]), ops.drop_first())
    }
}

/// The identifiers the create operations of `ops` use, in order.
pub open spec fn creates_of(ops: Seq<StoreOp>) -> Seq<u128>
    decreases ops.len(),
{
    if ops.len() == 0 {
        Seq::empty()
    } else {
        match ops[0] {
            StoreOp::Create(id, _) => seq![id] + creates_of(ops.drop_first()),
            StoreOp::Toggle(_) => creates_of(ops.drop_first()),
        }
    }
}

/// Creating under an identifier greater than every present key appends the
/// new entry at the end.
pub proof fn lemma_create_appends(s: Seq<(u128, TodoView)>, id: u128, t: TodoView)
    requires
        entries_sorted(s),
        forall|i: int| 0 <= i < s.len() ==> (#[trigger] s[i]).0 < id,
    ensures
        spec_insert(s, id, t) == s.push((id, t)),
{
    lemma_spec_insert_at(s, id, t, s.len() as int);
    assert(s.insert(s.len() as int, (id, t)) =~= s.push((id, t)));
}

/// Toggling the completion flag at the same key twice restores the entries.
pub proof fn lemma_toggle_twice_restores(s: Seq<(u128, TodoView)>, id: u128)
    ensures
        spec_toggle_entries(spec_toggle_entries(s, id), id) == s,
{
    assert(spec_toggle_entries(spec_toggle_entries(s, id), id) =~= s);
}

/// Toggling never changes which keys are present nor their order.
pub proof fn lemma_toggle_keeps_keys(s: Seq<(u128, TodoView)>, id: u128)
    ensures
        entry_keys(spec_toggle_entries(s, id)) == entry_keys(s),
{
    assert(entry_keys(spec_toggle_entries(s, id)) =~= entry_keys(s));
}

/// Ordering invariant: starting from a store whose keys all precede every
/// created identifier, a sequence of creates with strictly increasing
/// identifiers, interleaved with arbitrary toggles, leaves the store sorted
/// with exactly the created identifiers, in creation order, after the keys
/// already present.
pub proof fn lemma_ordering_general(s: Seq<(u128, TodoView)>, ops: Seq<StoreOp>)
    requires
        entries_sorted(s),
        ids_increasing(creates_of(ops)),
        forall|i: int, j: int|
            0 <= i < s.len() && 0 <= j < creates_of(ops).len() ==> (#[trigger] s[i]).0 < (
            #[trigger] creates_of(ops)[j]),
    ensures
        entries_sorted(apply_ops(s, ops)),
        entry_keys(apply_ops(s, ops)) == entry_keys(s) + creates_of(ops),
    decreases ops.len(),
{
    if ops.len() == 0 {
        assert(entry_keys(s) + creates_of(ops) =~= entry_keys(s));
    } else {
        let rest = ops.drop_first();
        match ops[0] {
            StoreOp::Create(id, t) => {
                let cs = creates_of(ops);
                assert(cs == seq![id] + creates_of(rest));
                assert(cs[0] == id);
                assert(forall|i: int| 0 <= i < s.len() ==> (#[trigger] s[i]).0 < id);
                lemma_create_appends(s, id, t);
                let s2 = s.push((id, t));
                assert(entries_sorted(s2)) by {
                    assert forall|i: int, j: int| 0 <= i < j < s2.len() implies (
                    #[trigger] s2[i]).0 < (#[trigger] s2[j]).0 by {
                        if j < s.len() {
                            assert(s2[i] == s[i] && s2[j] == s[j]);
                        } else {
                            assert(s2[j] == (id, t));
                        }
                    }
                }
                assert(forall|j: int|
                    0 <= j < creates_of(rest).len() ==> creates_of(rest)[j] == cs[j + 1]);
                assert(ids_increasing(creates_of(rest)));
                assert(forall|i: int, j: int|
                    0 <= i < s2.len() && 0 <= j < creates_of(rest).len() ==> (#[trigger] s2[i]).0
                        < (#[trigger] creates_of(rest)[j]));
                lemma_ordering_general(s2, rest);
                assert(entry_keys(s2) =~= entry_keys(s).push(id));
                assert(entry_keys(s).push(id) + creates_of(rest) =~= entry_keys(s) + cs);
            },
            StoreOp::Toggle(id) => {
                let s2 = spec_toggle_entries(s, id);
                lemma_toggle_keeps_keys(s, id);
                assert(s2.len() == s.len());
                assert(forall|i: int| 0 <= i < s.len() ==> (#[trigger] s2[i]).0 == s[i].0);
                assert(entries_sorted(s2));
                assert(forall|i: int, j: int|
                    0 <= i < s2.len() && 0 <= j < creates_of(rest).len() ==> (#[trigger] s2[i]).0
                        < (#[trigger] creates_of(rest)[j]));
                lemma_ordering_general(s2, rest);
            },
        }
    }
}

/// Ordering invariant from the empty store: after creates with strictly
/// increasing identifiers, interleaved with arbitrary toggles, iteration
/// yields exactly the created identifiers in creation order.
pub proof fn lemma_ordering_invariant(ops: Seq<StoreOp>)
    requires
        ids_increasing(creates_of(ops)),
    ensures
        entries_sorted(apply_ops(Seq::empty(), ops)),
        entry_keys(apply_ops(Seq::empty(), ops)) == creates_of(ops),
{
    lemma_ordering_general(Seq::empty(), ops);
    assert(entry_keys(Seq::<(u128, TodoView)>::empty()) + creates_of(ops) =~= creates_of(ops));
}

/// Inserting at the position the keys dictate is exactly `spec_insert`.
proof fn lemma_spec_insert_at(s: Seq<(u128, TodoView)>, id: u128, t: TodoView, k: int)
    requires
        entries_sorted(s),
        0 <= k <= s.len(),
        forall|i: int| 0 <= i < k ==> (#[trigger] s[i]).0 < id,
        k < s.len() ==> s[k].0 > id,
    ensures
        spec_insert(s, id, t) == s.insert(k, (id, t)),
    decreases s.len(),
{
    if s.len() == 0 {
        assert(spec_insert(s, id, t) =~= s.insert(0, (id, t)));
    } else if k == 0 {
        assert(id < s[0].0);
        assert(seq![(id, t)] + s =~= s.insert(0, (id, t)));
    } else {
        assert(s[0].0 < id);
        let rest = s.drop_first();
        assert(entries_sorted(rest)) by {
            assert(forall|i: int, j: int|
                0 <= i < j < rest.len() ==> (#[trigger] rest[i]).0 < (#[trigger] rest[j]).0);
        }
        assert(forall|i: int| 0 <= i < k - 1 ==> (#[trigger] rest[i]).0 < id);
        lemma_spec_insert_at(rest, id, t, k - 1);
        assert(seq![s[0]] + rest.insert(k - 1, (id, t)) =~= s.insert(k, (id, t)));
    }
}

/// Inserting between smaller and larger keys keeps the entries sorted.
proof fn lemma_insert_keeps_sorted(s: Seq<(u128, TodoView)>, e: (u128, TodoView), k: int)
    requires
        entries_sorted(s),
        0 <= k <= s.len(),
        forall|i: int| 0 <= i < k ==> (#[trigger] s[i]).0 < e.0,
        forall|i: int| k <= i < s.len() ==> (#[trigger] s[i]).0 > e.0,
    ensures
        entries_sorted(s.insert(k, e)),
{
    let t = s.insert(k, e);
    assert forall|i: int, j: int| 0 <= i < j < t.len() implies (#[trigger] t[i]).0 < (
    #[trigger] t[j]).0 by {
        if i < k {
            assert(t[i] == s[i]);
        } else if i == k {
            assert(t[i] == e);
        } else {
            assert(t[i] == s[i - 1]);
        }
        if j < k {
            assert(t[j] == s[j]);
        } else if j == k {
            assert(t[j] == e);
        } else {
            assert(t[j] == s[j - 1]);
        }
    }
}

} // verus!
