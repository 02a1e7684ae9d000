use vstd::prelude::*;

use crate::array::list::ListArray;
use crate::primitive::Primitive;

verus! {

#[verifier::external_type_specification]
#[verifier::external_body]
pub struct ExRandomState(ahash::RandomState);

/// Relies on ahash::RandomState::new: builds a hasher state from
/// process-local random seeds. Nothing is assumed of the result.
#[verifier::external_body]
fn new_random_state() -> ahash::RandomState {
    ahash::RandomState::new()
}

/// Relies on ahash::RandomState::hash_one: hashes the row with this state's
/// seeds. The seeds are random per process, so nothing is assumed of the
/// result.
#[verifier::external_body]
fn hash_row<P: Primitive>(state: &ahash::RandomState, row: &Vec<P>) -> u64 {
    state.hash_one(row)
}

/// The hash index of the interning dictionary: a hashbrown map from a 64-bit
/// row hash to the slots filed under that hash.
#[verifier::external_body]
pub struct DedupIndex {
    map: hashbrown::HashMap<u64, Vec<usize>>,
}

/// What the index holds: for each present hash, the slots filed under it, in
/// insertion order.
pub uninterp spec fn index_entries(m: DedupIndex) -> Map<u64, Seq<usize>>;

/// Relies on hashbrown::HashMap::new: the fresh map holds no entries.
#[verifier::external_body]
fn index_new() -> (out: DedupIndex)
    ensures
        index_entries(out).dom() == Set::<u64>::empty(),
{
    DedupIndex { map: hashbrown::HashMap::new() }
}

/// Relies on hashbrown::HashMap::get: yields the value stored under the key,
/// or nothing when the key is absent. The copy is handed out as an empty list
/// for an absent key.
#[verifier::external_body]
fn index_get(m: &DedupIndex, h: u64) -> (r: Vec<usize>)
    ensures
        index_entries(*m).dom().contains(h) ==> r@ == index_entries(*m)[h],
        !index_entries(*m).dom().contains(h) ==> r@ == Seq::<usize>::empty(),
{
    match m.map.get(&h) {
        Some(v) => v.clone(),
        None => Vec::new(),
    }
}

/// Relies on hashbrown::HashMap::entry: `or_default` yields the list stored
/// under the key, creating an empty one when the key is new, and the slot is
/// appended to that list.
#[verifier::external_body]
fn index_push(m: &mut DedupIndex, h: u64, slot: usize)
    ensures
        index_entries(*final(m)) == index_entries(*old(m)).insert(
            h,
            if index_entries(*old(m)).dom().contains(h) {
                index_entries(*old(m))[h].push(slot)
            } else {
                seq![slot]
            },
        ),
{
    m.map.entry(h).or_default().push(slot);
}

/// No two positions hold equal rows.
pub open spec fn distinct_rows<P>(rows: Seq<Seq<P>>) -> bool {
    forall|i: int, j: int| 0 <= i < j < rows.len() ==> rows[i] != rows[j]
}

/// Whether some slot holds the row.
pub open spec fn contains_row<P>(rows: Seq<Seq<P>>, row: Seq<P>) -> bool {
    exists|i: int| 0 <= i < rows.len() && rows[i] == row
}

/// Two slots that hold equal rows are the same slot: over pairwise-distinct
/// rows, an interned value determines its id.
pub proof fn lemma_dedup_same_id<P>(rows: Seq<Seq<P>>, id1: int, id2: int)
    requires
        distinct_rows(rows),
        1 <= id1 <= rows.len(),
        1 <= id2 <= rows.len(),
        rows[id1 - 1] == rows[id2 - 1],
    ensures
        id1 == id2,
{
    if id1 < id2 {
        assert(rows[id1 - 1] != rows[id2 - 1]);
    } else if id2 < id1 {
        assert(rows[id2 - 1] != rows[id1 - 1]);
    }
}

/// Slots that hold unequal rows are distinct: two values that differ never
/// share an id.
pub proof fn lemma_dedup_distinct_ids<P>(rows: Seq<Seq<P>>, id1: int, id2: int)
    requires
        1 <= id1 <= rows.len(),
        1 <= id2 <= rows.len(),
        rows[id1 - 1] != rows[id2 - 1],
    ensures
        id1 != id2,
{
}

/// Element-by-element equality of two rows.
fn rows_equal<P: Primitive>(a: &Vec<P>, b: &Vec<P>) -> (r: bool)
    ensures
        r == (a@ == b@),
{
    if a.len() != b.len() {
        return false;
    }
    let mut i: usize = 0;
    while i < a.len()
        invariant
            i <= a@.len(),
            a@.len() == b@.len(),
            forall|k: int| 0 <= k < i ==> a@[k] == b@[k],
        decreases a@.len() - i,
    {
        if !a[i].eq_val(&b[i]) {
            return false;
        }
        i = i + 1;
    }
    proof {
        assert(a@ =~= b@);
    }
    true
}

/// The value-interning dictionary: each distinct row is stored once in a
/// backing list column, and a hash index finds the slot that holds a given
/// row in one probe on the expected path. The index is only an accelerator:
/// a verified scan is the authority, so every answer is proved against the
/// stored rows alone.
pub struct SlotMap<P> {
    hash_state: ahash::RandomState,
    dedup: DedupIndex,
    data: ListArray<P>,
}

impl<P: Primitive> SlotMap<P> {
    /// The interned rows, in slot order.
    pub closed spec fn slots(&self) -> Seq<Seq<P>> {
        self.data@
    }

    pub closed spec fn wf(&self) -> bool {
        &&& self.data.wf()
        &&& distinct_rows(self.data@)
        &&& forall|h: u64, k: int|
            #![trigger index_entries(self.dedup)[h][k]]
            index_entries(self.dedup).dom().contains(h) && 0 <= k < index_entries(
                self.dedup,
            )[h].len() ==> index_entries(self.dedup)[h][k] < self.data@.len()
    }

    /// A well-formed dictionary holds pairwise-distinct rows, so the dedup
    /// lemmas apply to its slots.
    pub proof fn lemma_slots_distinct(&self)
        requires
            self.wf(),
        ensures
            distinct_rows(self.slots()),
    {
    }

    pub fn new(data: ListArray<P>) -> (r: Self)
        requires
            data.wf(),
            distinct_rows(data@),
        ensures
            r.wf(),
            r.slots() == data@,
    {
        SlotMap { hash_state: new_random_state(), dedup: index_new(), data }
    }

    /// Finds the slot holding a row equal to `value`, interning the row into
    /// a fresh slot when none does; yields the slot id offset by one, so that
    /// id 0 stays reserved for "no value".
    pub fn lookup_or_insert(&mut self, value: Vec<P>) -> (id: usize)
        requires
            old(self).wf(),
            old(self).slots().len() < usize::MAX,
        ensures
            final(self).wf(),
            1 <= id <= final(self).slots().len(),
            final(self).slots()[id - 1] == value@,
            contains_row(old(self).slots(), value@) ==> final(self).slots() == old(self).slots(),
            !contains_row(old(self).slots(), value@) ==> final(self).slots() == old(
                self,
            ).slots().push(value@) && id == old(self).slots().len() + 1,
    {
        let h = hash_row(&self.hash_state, &value);
        let candidates = index_get(&self.dedup, h);
        proof {
            assert forall|k: int| 0 <= k < candidates@.len() implies candidates@[k]
                < self.slots().len() by {
                assert(index_entries(self.dedup).dom().contains(h));
            }
        }
        let n = self.data.len();
        let mut ci: usize = 0;
        while ci < candidates.len()
            invariant
                self.wf(),
                n == self.slots().len(),
                ci <= candidates@.len(),
                forall|k: int| 0 <= k < candidates@.len() ==> candidates@[k] < self.slots().len(),
            decreases candidates@.len() - ci,
        {
            let c = candidates[ci];
            let row = self.data.get_unchecked(c);
            if rows_equal(&row, &value) {
                return c + 1;
            }
            ci = ci + 1;
        }
        let mut i: usize = 0;
        while i < n
            invariant
                self.wf(),
                n == self.slots().len(),
                n < usize::MAX,
                i <= n,
                forall|k: int| 0 <= k < i ==> self.slots()[k] != value@,
            decreases n - i,
        {
            let row = self.data.get_unchecked(i);
            if rows_equal(&row, &value) {
                return i + 1;
            }
            i = i + 1;
        }
        self.data.push(value);
        index_push(&mut self.dedup, h, n);
        n + 1
    }

    /// Finds the id of the slot holding a row equal to `value`, without
    /// interning; absence means no slot holds such a row.
    pub fn lookup(&self, value: &Vec<P>) -> (r: Option<usize>)
        requires
            self.wf(),
        ensures
            match r {
                Some(id) => 1 <= id <= self.slots().len() && self.slots()[id as int - 1]
                    == value@,
                None => !contains_row(self.slots(), value@),
            },
    {
        let h = hash_row(&self.hash_state, value);
        let candidates = index_get(&self.dedup, h);
        proof {
            assert forall|k: int| 0 <= k < candidates@.len() implies candidates@[k]
                < self.slots().len() by {
                assert(index_entries(self.dedup).dom().contains(h));
            }
        }
        let n = self.data.len();
        let mut ci: usize = 0;
        while ci < candidates.len()
            invariant
                self.wf(),
                n == self.slots().len(),
                ci <= candidates@.len(),
                forall|k: int| 0 <= k < candidates@.len() ==> candidates@[k] < self.slots().len(),
            decreases candidates@.len() - ci,
        {
            let c = candidates[ci];
            let row = self.data.get_unchecked(c);
            if rows_equal(&row, value) {
                return Some(c + 1);
            }
            ci = ci + 1;
        }
        let mut i: usize = 0;
        while i < n
            invariant
                self.wf(),
                n == self.slots().len(),
                i <= n,
                forall|k: int| 0 <= k < i ==> self.slots()[k] != value@,
            decreases n - i,
        {
            let row = self.data.get_unchecked(i);
            if rows_equal(&row, value) {
                return Some(i + 1);
            }
            i = i + 1;
        }
        None
    }

    /// Reads by public id: id 0 is found and denotes "no value"; a positive
    /// id yields the row in slot `id - 1`, or an inner absence when no such
    /// slot exists.
    pub fn get(&self, id: usize) -> (r: Option<Option<Vec<P>>>)
        requires
            self.wf(),
        ensures
            r is Some,
            (id == 0 || id > self.slots().len()) ==> r->Some_0 is None,
            1 <= id <= self.slots().len() ==> r->Some_0 is Some && r->Some_0->Some_0@
                == self.slots()[id - 1],
    {
        if id == 0 {
            Some(None)
        } else {
            Some(self.data.get(id - 1))
        }
    }

    /// Unchecked read by public id: the caller must establish that the id is
    /// 0 or refers to an existing slot.
    pub fn get_unchecked(&self, id: usize) -> (r: Option<Vec<P>>)
        requires
            self.wf(),
            id <= self.slots().len(),
        ensures
            id == 0 ==> r is None,
            id >= 1 ==> r is Some && r->Some_0@ == self.slots()[id - 1],
    {
        if id == 0 {
            None
        } else {
            Some(self.data.get_unchecked(id - 1))
        }
    }

    /// Edits one element of the interned row that `id` refers to, in place;
    /// every column row sharing the id sees the change (the aliasing is the
    /// deduplication payoff). The edit must keep the rows pairwise distinct,
    /// or ids would stop determining values.
    pub fn set(&mut self, id: usize, k: usize, value: P)
        requires
            old(self).wf(),
            1 <= id <= old(self).slots().len(),
            k < old(self).slots()[id as int - 1].len(),
            forall|j: int|
                0 <= j < old(self).slots().len() && j != id - 1 ==> #[trigger] old(self).slots()[j]
                    != old(self).slots()[id as int - 1].update(k as int, value),
        ensures
            final(self).wf(),
            final(self).slots() == old(self).slots().update(
                id as int - 1,
                old(self).slots()[id as int - 1].update(k as int, value),
            ),
    {
        self.data.set(id - 1, k, value);
    }

    /// The number of interned slots.
    pub fn slot_count(&self) -> (r: usize)
        ensures
            r == self.slots().len(),
    {
        self.data.len()
    }
}

} // verus!
