use vstd::prelude::*;

use crate::channel::sender_capacity;
use crate::message::AsyncMessage;

verus! {

/// The slab arena of the `slab` crate, used here as the dense backing store
/// of the inbox table. Opaque: its contents are reached through the two spec
/// names and the wrappers below.
#[verifier::external_type_specification]
#[verifier::external_body]
#[verifier::reject_recursive_types(T)]
pub struct ExSlab<T>(slab::Slab<T>);

/// What the inbox-table slab holds, entry by entry in key order, over the
/// whole allocated range of keys. Index `k` is `None` where the slab has no
/// entry at key `k` (a vacant slot), `Some(None)` where the entry is an
/// absent inbox sender, and `Some(Some(c))` where the entry holds the sender
/// of a channel whose buffer bound is `c`.
pub uninterp spec fn table_slots(
    s: slab::Slab<Option<futures::channel::mpsc::Sender<AsyncMessage>>>,
) -> Seq<Option<Option<nat>>>;

/// The slab's insertion cursor: the key its next insertion returns.
pub uninterp spec fn slab_next(
    s: slab::Slab<Option<futures::channel::mpsc::Sender<AsyncMessage>>>,
) -> nat;

/// The abstraction of one stored entry, as `table_slots` records it.
pub open spec fn entry_abs(
    v: Option<futures::channel::mpsc::Sender<AsyncMessage>>,
) -> Option<nat> {
    match v {
        Some(tx) => Some(sender_capacity(tx)),
        None => None,
    }
}

/// How many keys of the slab are occupied by an entry.
pub open spec fn occupied_count(slots: Seq<Option<Option<nat>>>) -> nat
    decreases slots.len(),
{
    if slots.len() == 0 {
        0
    } else {
        occupied_count(slots.drop_last()) + if slots.last() is Some {
            1nat
        } else {
            0nat
        }
    }
}

/// Relies on `slab::Slab::new`: the fresh slab has no keys and inserts at
/// key 0.
#[verifier::external_body]
pub(crate) fn slab_new() -> (s: slab::Slab<
    Option<futures::channel::mpsc::Sender<AsyncMessage>>,
>)
    ensures
        table_slots(s) == Seq::<Option<Option<nat>>>::empty(),
        slab_next(s) == 0,
{
    slab::Slab::new()
}

/// Relies on `slab::Slab::insert`: the value is stored under the key the
/// insertion cursor names, and when that cursor stands at the end of the
/// allocated range (as it does for a slab that only ever grew), the slab
/// extends by one slot and the cursor moves past it.
#[verifier::external_body]
pub(crate) fn slab_insert(
    s: &mut slab::Slab<Option<futures::channel::mpsc::Sender<AsyncMessage>>>,
    v: Option<futures::channel::mpsc::Sender<AsyncMessage>>,
) -> (key: usize)
    ensures
        key == slab_next(*old(s)),
        slab_next(*old(s)) == table_slots(*old(s)).len() ==> {
            &&& table_slots(*final(s)) == table_slots(*old(s)).push(Some(entry_abs(v)))
            &&& slab_next(*final(s)) == slab_next(*old(s)) + 1
        },
        slab_next(*old(s)) < table_slots(*old(s)).len() ==> table_slots(*final(s))
            == table_slots(*old(s)).update(key as int, Some(entry_abs(v))),
{
    s.insert(v)
}

/// Relies on `slab::Slab::index_mut`: assigning through it replaces the
/// entry of an occupied key and touches nothing else. The precondition rules
/// out the vacant keys, on which indexing panics.
#[verifier::external_body]
pub(crate) fn slab_set(
    s: &mut slab::Slab<Option<futures::channel::mpsc::Sender<AsyncMessage>>>,
    key: usize,
    v: Option<futures::channel::mpsc::Sender<AsyncMessage>>,
)
    requires
        key < table_slots(*old(s)).len(),
        table_slots(*old(s))[key as int] is Some,
    ensures
        table_slots(*final(s)) == table_slots(*old(s)).update(
            key as int,
            Some(entry_abs(v)),
        ),
        slab_next(*final(s)) == slab_next(*old(s)),
{
    s[key] = v;
}

/// Relies on `slab::Slab::get`: an occupied key yields its entry, a vacant
/// or out-of-range key yields nothing.
#[verifier::external_body]
pub(crate) fn slab_get(
    s: &slab::Slab<Option<futures::channel::mpsc::Sender<AsyncMessage>>>,
    key: usize,
) -> (r: Option<&Option<futures::channel::mpsc::Sender<AsyncMessage>>>)
    ensures
        r is Some <==> (key < table_slots(*s).len() && table_slots(*s)[key as int] is Some),
        r matches Some(entry) ==> table_slots(*s)[key as int] == Some(entry_abs(*entry)),
{
    s.get(key)
}

/// Relies on `slab::Slab::len`: it reports the number of occupied keys.
#[verifier::external_body]
pub(crate) fn slab_len(
    s: &slab::Slab<Option<futures::channel::mpsc::Sender<AsyncMessage>>>,
) -> (n: usize)
    ensures
        n == occupied_count(table_slots(*s)),
{
    s.len()
}

/// The table the scheduler returns: entry `id` holds the sender of block
/// `id`'s inbox, or nothing where the topology had no block at `id`. An
/// external message router uses it to address inbound deliveries.
pub struct InboxTable {
    slab: slab::Slab<Option<futures::channel::mpsc::Sender<AsyncMessage>>>,
}

impl View for InboxTable {
    type V = Seq<Option<Option<nat>>>;

    closed spec fn view(&self) -> Seq<Option<Option<nat>>> {
        table_slots(self.slab)
    }
}

impl InboxTable {
    /// Every key of the backing slab is occupied: the table is dense, and an
    /// absent inbox is recorded as an absent entry, not as a missing key.
    pub open spec fn dense(self) -> bool {
        forall|i: int| 0 <= i < self@.len() ==> self@[i] is Some
    }

    pub(crate) fn from_slab(
        slab: slab::Slab<Option<futures::channel::mpsc::Sender<AsyncMessage>>>,
    ) -> (t: InboxTable)
        ensures
            t@ == table_slots(slab),
    {
        InboxTable { slab }
    }

    /// The number of ids the table covers, one entry per id.
    pub fn len(&self) -> (n: usize)
        requires
            self.dense(),
        ensures
            n == self@.len(),
    {
        let n = slab_len(&self.slab);
        proof {
            lemma_occupied_count_dense(self@);
        }
        n
    }

    /// The inbox sender of block `id`, or `None` where the topology had no
    /// block at `id` or `id` lies beyond the table.
    pub fn get(&self, id: usize) -> (r: Option<
        &futures::channel::mpsc::Sender<AsyncMessage>,
    >)
        ensures
            r is Some <==> (id < self@.len() && self@[id as int] matches Some(Some(_))),
            r matches Some(tx) ==> self@[id as int] == Some(Some(sender_capacity(*tx))),
    {
        match slab_get(&self.slab, id) {
            Some(entry) => match entry {
                Some(tx) => Some(tx),
                None => None,
            },
            None => None,
        }
    }
}

/// In a dense table every key is occupied, so the occupied keys are as many
/// as the keys themselves.
pub proof fn lemma_occupied_count_dense(slots: Seq<Option<Option<nat>>>)
    requires
        forall|i: int| 0 <= i < slots.len() ==> slots[i] is Some,
    ensures
        occupied_count(slots) == slots.len(),
    decreases slots.len(),
{
    if slots.len() > 0 {
        lemma_occupied_count_dense(slots.drop_last());
    }
}

} // verus!
