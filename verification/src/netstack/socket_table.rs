//! Table of the logical sockets of one container.
//!
//! A socket has an opaque `u32` id that is independent of any handle of the
//! host. Ids are handed out in ascending order, and an id whose socket was
//! removed is handed out again, oldest removal first. Id 0 is never handed
//! out: on the wire it stands for "no socket".

use std::collections::VecDeque;
use vstd::prelude::*;

verus! {

/// What a table holds: the live sockets, the ids waiting to be reused in the
/// order in which they will be, and the first id that was never used.
pub struct TableModel<T> {
    pub live: Map<u32, T>,
    pub free: Seq<u32>,
    pub next_id: int,
}

impl<T> TableModel<T> {
    /// The table with nothing in it.
    pub open spec fn fresh() -> Self {
        TableModel { live: Map::empty(), free: Seq::empty(), next_id: 1 }
    }

    /// Every id below `next_id`, save 0, is either live or waiting, never both,
    /// and no id waits twice.
    pub open spec fn valid(self) -> bool {
        &&& 1 <= self.next_id <= u32::MAX
        &&& self.free.no_duplicates()
        &&& forall|id: u32| #[trigger]
            self.live.contains_key(id) <==> 1 <= id < self.next_id && !self.free.contains(id)
        &&& forall|j: int| 0 <= j < self.free.len() ==> 1 <= #[trigger] self.free[j] < self.next_id
    }

    /// Whether another socket can get an id.
    pub open spec fn has_room(self) -> bool {
        self.free.len() > 0 || self.next_id < u32::MAX
    }

    /// The id that the next socket gets.
    pub open spec fn next_issued(self) -> u32 {
        if self.free.len() > 0 {
            self.free[0]
        } else {
            self.next_id as u32
        }
    }

    /// The table after a socket was put in.
    pub open spec fn insert(self, value: T) -> Self {
        TableModel {
            live: self.live.insert(self.next_issued(), value),
            free: if self.free.len() > 0 {
                self.free.drop_first()
            } else {
                self.free
            },
            next_id: if self.free.len() > 0 {
                self.next_id
            } else {
                self.next_id + 1
            },
        }
    }

    /// The table after the socket `id` was taken out.
    pub open spec fn remove(self, id: u32) -> Self {
        if self.live.contains_key(id) {
            TableModel {
                live: self.live.remove(id),
                free: self.free.push(id),
                next_id: self.next_id,
            }
        } else {
            self
        }
    }
}

/// Logical sockets by id; `T` is the state that a backend keeps per socket.
pub struct SocketTable<T> {
    slots: Vec<Option<T>>,
    free: VecDeque<u32>,
    next_id: u32,
}

impl<T> View for SocketTable<T> {
    type V = TableModel<T>;

    closed spec fn view(&self) -> TableModel<T> {
        TableModel {
            live: live_of(self.slots@),
            free: self.free@,
            next_id: self.next_id as int,
        }
    }
}

/// Putting a socket in keeps the table valid.
pub proof fn law_insert_keeps_valid<T>(m: TableModel<T>, value: T)
    requires
        m.valid(),
        m.has_room(),
    ensures
        m.insert(value).valid(),
{
    let n = m.insert(value);
    let id = m.next_issued();
    if m.free.len() > 0 {
        assert forall|k: u32| n.free.contains(k) <==> m.free.contains(k) && k != id by {
            if m.free.contains(k) && k != id {
                let j = choose|j: int| 0 <= j < m.free.len() && m.free[j] == k;
                assert(n.free[j - 1] == k);
            }
            if n.free.contains(k) {
                let j = choose|j: int| 0 <= j < n.free.len() && n.free[j] == k;
                assert(m.free[j + 1] == k);
            }
        }
        assert forall|k: u32| #[trigger] n.live.contains_key(k) <==> 1 <= k < n.next_id
            && !n.free.contains(k) by {
            assert(m.live.contains_key(k) <==> 1 <= k < m.next_id && !m.free.contains(k));
            assert(m.free[0] == id);
        }
    } else {
        assert forall|k: u32| #[trigger] n.live.contains_key(k) <==> 1 <= k < n.next_id
            && !n.free.contains(k) by {
            assert(m.live.contains_key(k) <==> 1 <= k < m.next_id && !m.free.contains(k));
        }
    }
}

/// Taking a socket out keeps the table valid.
pub proof fn law_remove_keeps_valid<T>(m: TableModel<T>, id: u32)
    requires
        m.valid(),
    ensures
        m.remove(id).valid(),
{
    let n = m.remove(id);
    if m.live.contains_key(id) {
        assert(!m.free.contains(id));
        assert forall|k: u32| n.free.contains(k) <==> m.free.contains(k) || k == id by {
            if m.free.contains(k) {
                let j = choose|j: int| 0 <= j < m.free.len() && m.free[j] == k;
                assert(n.free[j] == k);
            }
            if k == id {
                assert(n.free[m.free.len() as int] == k);
            }
        }
        assert forall|k: u32| #[trigger] n.live.contains_key(k) <==> 1 <= k < n.next_id
            && !n.free.contains(k) by {
            assert(m.live.contains_key(k) <==> 1 <= k < m.next_id && !m.free.contains(k));
        }
    }
}

/// The id of a new socket is not 0 and belongs to no live socket.
pub proof fn law_issued_id_is_new<T>(m: TableModel<T>)
    requires
        m.valid(),
        m.has_room(),
    ensures
        m.next_issued() != 0,
        !m.live.contains_key(m.next_issued()),
{
    if m.free.len() > 0 {
        assert(m.free.contains(m.free[0]));
    }
}

/// A socket that was put in is found under its id, and every other id means
/// what it meant before.
pub proof fn law_insert_then_get<T>(m: TableModel<T>, value: T, other: u32)
    requires
        m.valid(),
        m.has_room(),
    ensures
        m.insert(value).live.contains_key(m.next_issued()),
        m.insert(value).live[m.next_issued()] == value,
        other != m.next_issued() ==> {
            &&& m.insert(value).live.contains_key(other) == m.live.contains_key(other)
            &&& m.live.contains_key(other) ==> m.insert(value).live[other] == m.live[other]
        },
{
}

/// A socket that was taken out is gone, and every other id means what it meant
/// before.
pub proof fn law_remove_then_get<T>(m: TableModel<T>, id: u32, other: u32)
    requires
        m.valid(),
    ensures
        !m.remove(id).live.contains_key(id),
        other != id ==> {
            &&& m.remove(id).live.contains_key(other) == m.live.contains_key(other)
            &&& m.live.contains_key(other) ==> m.remove(id).live[other] == m.live[other]
        },
{
}

/// Taking out the socket that was just put in gives back the live sockets.
pub proof fn law_insert_then_remove<T>(m: TableModel<T>, value: T)
    requires
        m.valid(),
        m.has_room(),
    ensures
        m.insert(value).remove(m.next_issued()).live == m.live,
{
    law_issued_id_is_new(m);
    assert(m.insert(value).remove(m.next_issued()).live =~= m.live);
}

/// A freed id is handed out again after exactly those freed before it: once `k`
/// sockets were put in, `k` being the number of ids that waited when it was
/// freed, it is next.
pub proof fn law_ids_are_recycled_in_order<T>(m: TableModel<T>, id: u32, values: Seq<T>)
    requires
        m.valid(),
        m.live.contains_key(id),
        values.len() == m.free.len(),
    ensures
        insert_all(m.remove(id), values).next_issued() == id,
{
    lemma_insert_all_free(m.remove(id), values);
}

/// The table after each of `values` was put in, in order.
pub open spec fn insert_all<T>(m: TableModel<T>, values: Seq<T>) -> TableModel<T>
    decreases values.len(),
{
    if values.len() == 0 {
        m
    } else {
        insert_all(m.insert(values[0]), values.drop_first())
    }
}

proof fn lemma_insert_all_free<T>(m: TableModel<T>, values: Seq<T>)
    requires
        values.len() <= m.free.len(),
    ensures
        insert_all(m, values).free == m.free.skip(values.len() as int),
    decreases values.len(),
{
    if values.len() > 0 {
        lemma_insert_all_free(m.insert(values[0]), values.drop_first());
        assert(m.free.drop_first().skip(values.len() - 1) =~= m.free.skip(values.len() as int));
    } else {
        assert(m.free.skip(0) =~= m.free);
    }
}

/// The live sockets of a slot vector, by index.
pub open spec fn live_of<T>(slots: Seq<Option<T>>) -> Map<u32, T> {
    Map::new(
        |id: u32| id < slots.len() && slots[id as int] is Some,
        |id: u32| slots[id as int]->0,
    )
}

/// The ids below `n` whose slot is taken.
spec fn live_below<T>(slots: Seq<Option<T>>, n: int) -> Set<u32> {
    Set::new(|id: u32| id < n && slots[id as int] is Some)
}

proof fn lemma_live_below_step<T>(slots: Seq<Option<T>>, n: int)
    requires
        0 <= n < slots.len() <= u32::MAX,
        live_below(slots, n).finite(),
    ensures
        live_below(slots, n + 1).finite(),
        live_below(slots, n + 1).len() == live_below(slots, n).len() + if slots[n] is Some {
            1nat
        } else {
            0nat
        },
{
    if slots[n] is Some {
        assert(live_below(slots, n + 1) =~= live_below(slots, n).insert(n as u32));
    } else {
        assert(live_below(slots, n + 1) =~= live_below(slots, n));
    }
}

proof fn lemma_live_update<T>(slots: Seq<Option<T>>, id: u32)
    requires
        id < slots.len() <= u32::MAX,
    ensures
        slots[id as int] is Some ==> forall|x: T|
            live_of(#[trigger] slots.update(id as int, Some(x))) == live_of(slots).insert(id, x),
{
    if slots[id as int] is Some {
        assert forall|x: T|
            live_of(#[trigger] slots.update(id as int, Some(x))) == live_of(slots).insert(
                id,
                x,
            ) by {
            assert(live_of(slots.update(id as int, Some(x))) =~= live_of(slots).insert(id, x));
        }
    }
}

impl<T> SocketTable<T> {
    /// The slots, the waiting ids and the next id agree with each other.
    pub closed spec fn wf(self) -> bool {
        &&& self.next_id == self.slots.len()
        &&& self@.valid()
    }

    /// What a table keeps is a valid state: no id is both in use and free, and
    /// id 0 is neither.
    pub proof fn law_table_is_valid(self)
        requires
            self.wf(),
        ensures
            self@.valid(),
    {
    }

    pub fn new() -> (table: Self)
        ensures
            table.wf(),
            table@ == TableModel::<T>::fresh(),
    {
        let mut slots: Vec<Option<T>> = Vec::new();
        slots.push(None);
        let table = SocketTable { slots, free: VecDeque::new(), next_id: 1 };
        proof {
            assert(table@.live =~= Map::<u32, T>::empty());
            assert(table@.free =~= Seq::<u32>::empty());
        }
        table
    }

    /// Puts a socket in and returns its id. The table must have an id left.
    pub fn insert(&mut self, value: T) -> (id: u32)
        requires
            old(self).wf(),
            old(self)@.has_room(),
        ensures
            final(self).wf(),
            id == old(self)@.next_issued(),
            final(self)@ == old(self)@.insert(value),
    {
        let ghost before = *self;
        let taken: Option<u32> = self.free.pop_front();
        if let Some(id) = taken {
            proof {
                assert(before@.free[0] == id);
                assert(!before@.live.contains_key(id)) by {
                    assert(before@.free.contains(id));
                }
            }
            self.slots[id as usize] = Some(value);
            proof {
                assert(self@.live =~= before@.live.insert(id, value));
                assert(self@.free =~= before@.free.drop_first());
                law_insert_keeps_valid(before@, value);
            }
            return id;
        }
        let id: u32 = self.next_id;
        self.next_id = self.next_id + 1;
        self.slots.push(Some(value));
        proof {
            assert(self@.live =~= before@.live.insert(id, value));
            assert(self@.free =~= before@.free);
            law_insert_keeps_valid(before@, value);
        }
        id
    }

    pub fn get(&self, id: u32) -> (value: Option<&T>)
        requires
            self.wf(),
        ensures
            match value {
                Some(v) => self@.live.contains_key(id) && *v == self@.live[id],
                None => !self@.live.contains_key(id),
            },
    {
        let i: usize = id as usize;
        if i < self.slots.len() {
            self.slots[i].as_ref()
        } else {
            None
        }
    }

    pub fn get_mut(&mut self, id: u32) -> (value: Option<&mut T>)
        requires
            old(self).wf(),
        ensures
            final(self).wf(),
            match value {
                Some(v) => {
                    &&& old(self)@.live.contains_key(id)
                    &&& *v == old(self)@.live[id]
                    &&& final(self)@ == (TableModel {
                        live: old(self)@.live.insert(id, *final(v)),
                        ..old(self)@
                    })
                },
                None => !old(self)@.live.contains_key(id) && final(self)@ == old(self)@,
            },
    {
        let i: usize = id as usize;
        if i < self.slots.len() {
            let ghost slots = self.slots@;
            proof {
                lemma_live_update(slots, id);
                assert(slots.update(id as int, slots[id as int]) =~= slots);
            }
            self.slots[i].as_mut()
        } else {
            None
        }
    }

    /// Takes a socket out. Its id is the last of those waiting to be reused.
    pub fn remove(&mut self, id: u32) -> (value: Option<T>)
        requires
            old(self).wf(),
        ensures
            final(self).wf(),
            final(self)@ == old(self)@.remove(id),
            match value {
                Some(v) => old(self)@.live.contains_key(id) && v == old(self)@.live[id],
                None => !old(self)@.live.contains_key(id),
            },
    {
        let ghost before = *self;
        let i: usize = id as usize;
        let mut value: Option<T> = None;
        if i < self.slots.len() {
            value = self.slots[i].take();
        }
        if value.is_some() {
            self.free.push_back(id);
            proof {
                assert(self@.live =~= before@.live.remove(id));
                law_remove_keeps_valid(before@, id);
            }
        } else {
            proof {
                assert(self@.live =~= before@.live);
            }
        }
        value
    }

    /// The number of live sockets.
    pub fn len(&self) -> (n: usize)
        requires
            self.wf(),
        ensures
            self@.live.dom().finite(),
            n == self@.live.dom().len(),
    {
        let mut n: usize = 0;
        let mut i: usize = 0;
        proof {
            assert(live_below(self.slots@, 0) =~= Set::<u32>::empty());
        }
        while i < self.slots.len()
            invariant
                self.wf(),
                n <= i <= self.slots.len(),
                live_below(self.slots@, i as int).finite(),
                n == live_below(self.slots@, i as int).len(),
            decreases self.slots.len() - i,
        {
            proof {
                lemma_live_below_step(self.slots@, i as int);
            }
            if self.slots[i].is_some() {
                n = n + 1;
            }
            i = i + 1;
        }
        proof {
            assert(live_below(self.slots@, self.slots@.len() as int) =~= self@.live.dom());
        }
        n
    }

    pub fn is_empty(&self) -> (b: bool)
        requires
            self.wf(),
        ensures
            b == (self@.live.dom().len() == 0),
    {
        self.len() == 0
    }
}

impl<T> Default for SocketTable<T> {
    fn default() -> (table: Self)
        ensures
            table.wf(),
            table@ == TableModel::<T>::fresh(),
    {
        Self::new()
    }
}

} // verus!
