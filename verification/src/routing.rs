//! The routing table and the connection table.
//!
//! Both are maps from peer to a small value: the open route to the peer, or
//! the handle of the peer connection that is being set up with it. A peer
//! occurs at most once in a table.

use crate::identity::PeerId;
use vstd::prelude::*;

verus! {

/// An open way to send frames to a peer: the writer of an inbound framed
/// socket, or a direct data channel. The number is the handle under which
/// the owner of the transports knows this one.
#[derive(Debug, Clone, Copy, PartialEq, Eq, Structural)]
pub enum Route {
    WS(u64),
    DC(u64),
}

impl Route {
    /// The handle of the transport.
    pub open spec fn transport_of(self) -> u64 {
        match self {
            Route::WS(t) => t,
            Route::DC(t) => t,
        }
    }

    /// The handle of the transport.
    pub fn transport(&self) -> (r: u64)
        ensures
            r == self.transport_of(),
    {
        match self {
            Route::WS(t) => *t,
            Route::DC(t) => *t,
        }
    }
}

/// The first position at or after `from` at which `peer` stands.
pub open spec fn position_from<V>(table: Seq<(Seq<u8>, V)>, peer: Seq<u8>, from: int) -> Option<int>
    decreases table.len() - from,
{
    if from < 0 || from >= table.len() {
        None
    } else if table[from].0 == peer {
        Some(from)
    } else {
        position_from(table, peer, from + 1)
    }
}

/// The position at which `peer` stands.
pub open spec fn position<V>(table: Seq<(Seq<u8>, V)>, peer: Seq<u8>) -> Option<int> {
    position_from(table, peer, 0)
}

/// The value under `peer`.
pub open spec fn lookup<V>(table: Seq<(Seq<u8>, V)>, peer: Seq<u8>) -> Option<V> {
    match position(table, peer) {
        Some(i) => Some(table[i].1),
        None => None,
    }
}

/// No peer stands twice.
pub open spec fn distinct<V>(table: Seq<(Seq<u8>, V)>) -> bool {
    forall|i: int, j: int|
        0 <= i < j < table.len() ==> (#[trigger] table[i]).0 != (#[trigger] table[j]).0
}

/// The table with `value` under `peer`: in the place of the value that was
/// there, or at the end.
pub open spec fn inserted<V>(table: Seq<(Seq<u8>, V)>, peer: Seq<u8>, value: V) -> Seq<
    (Seq<u8>, V),
> {
    match position(table, peer) {
        Some(i) => table.update(i, (peer, value)),
        None => table.push((peer, value)),
    }
}

/// The table without `peer`.
pub open spec fn removed<V>(table: Seq<(Seq<u8>, V)>, peer: Seq<u8>) -> Seq<(Seq<u8>, V)> {
    match position(table, peer) {
        Some(i) => table.remove(i),
        None => table,
    }
}

/// The peers of a table, in order.
pub open spec fn keys<V>(table: Seq<(Seq<u8>, V)>) -> Seq<Seq<u8>> {
    Seq::new(table.len(), |i: int| table[i].0)
}

/// What a search from `from` finds is the first occurrence from there on.
pub proof fn lemma_position_from<V>(table: Seq<(Seq<u8>, V)>, peer: Seq<u8>, from: int)
    requires
        0 <= from,
    ensures
        match position_from(table, peer, from) {
            Some(i) => from <= i < table.len() && table[i].0 == peer && forall|j: int|
                from <= j < i ==> (#[trigger] table[j]).0 != peer,
            None => forall|j: int| from <= j < table.len() ==> (#[trigger] table[j]).0 != peer,
        },
    decreases table.len() - from,
{
    if from < table.len() && table[from].0 != peer {
        lemma_position_from(table, peer, from + 1);
    }
}

/// Last writer wins: after an insertion the peer has the new value, every
/// other peer has what it had, and no peer stands twice.
pub proof fn last_writer_wins<V>(table: Seq<(Seq<u8>, V)>, peer: Seq<u8>, value: V, other: Seq<u8>)
    requires
        distinct(table),
    ensures
        distinct(inserted(table, peer, value)),
        lookup(inserted(table, peer, value), peer) == Some(value),
        other != peer ==> lookup(inserted(table, peer, value), other) == lookup(table, other),
{
    let after = inserted(table, peer, value);
    lemma_position_from(table, peer, 0);
    lemma_position_from(table, other, 0);
    lemma_position_from(after, peer, 0);
    lemma_position_from(after, other, 0);
    match position(table, peer) {
        Some(i) => {
            assert(after[i] == (peer, value));
            assert forall|a: int, b: int| 0 <= a < b < after.len() implies (#[trigger] after[a]).0
                != (#[trigger] after[b]).0 by {
                assert(after[a].0 == table[a].0);
                assert(after[b].0 == table[b].0);
            }
            if other != peer {
                match position(table, other) {
                    Some(k) => {
                        assert(after[k] == table[k]);
                        if let Some(k2) = position(after, other) {
                            assert(after[k2].0 == table[k2].0);
                        }
                    },
                    None => {
                        if let Some(k2) = position(after, other) {
                            assert(after[k2].0 == table[k2].0);
                        }
                    },
                }
            }
        },
        None => {
            assert(after[table.len() as int] == (peer, value));
            assert forall|a: int, b: int| 0 <= a < b < after.len() implies (#[trigger] after[a]).0
                != (#[trigger] after[b]).0 by {
                if b < table.len() {
                    assert(after[a] == table[a]);
                    assert(after[b] == table[b]);
                } else {
                    assert(after[a] == table[a]);
                }
            }
            if other != peer {
                match position(table, other) {
                    Some(k) => {
                        assert(after[k] == table[k]);
                        if let Some(k2) = position(after, other) {
                            if k2 < table.len() {
                                assert(after[k2] == table[k2]);
                            }
                        }
                    },
                    None => {
                        if let Some(k2) = position(after, other) {
                            assert(after[k2] == table[k2]);
                        }
                    },
                }
            }
        },
    }
}

/// Inserting the same value twice is inserting it once.
pub proof fn insertion_is_idempotent<V>(table: Seq<(Seq<u8>, V)>, peer: Seq<u8>, value: V)
    ensures
        inserted(inserted(table, peer, value), peer, value) == inserted(table, peer, value),
{
    let once = inserted(table, peer, value);
    lemma_position_from(table, peer, 0);
    lemma_position_from(once, peer, 0);
    match position(table, peer) {
        Some(i) => {
            assert(once[i] == (peer, value));
            let k = position(once, peer)->0;
            if k < i {
                assert(once[k] == table[k]);
            }
            assert(k == i);
            assert(once.update(i, (peer, value)) =~= once);
        },
        None => {
            let n = table.len() as int;
            assert(once[n] == (peer, value));
            let k = position(once, peer)->0;
            if k < n {
                assert(once[k] == table[k]);
            }
            assert(k == n);
            assert(once.update(n, (peer, value)) =~= once);
        },
    }
}

/// After a removal the peer has no value, every other peer has what it had,
/// and no peer stands twice.
pub proof fn lemma_removed<V>(table: Seq<(Seq<u8>, V)>, peer: Seq<u8>, other: Seq<u8>)
    requires
        distinct(table),
    ensures
        distinct(removed(table, peer)),
        lookup(removed(table, peer), peer) is None,
        other != peer ==> lookup(removed(table, peer), other) == lookup(table, other),
{
    let after = removed(table, peer);
    lemma_position_from(table, peer, 0);
    lemma_position_from(table, other, 0);
    lemma_position_from(after, peer, 0);
    lemma_position_from(after, other, 0);
    if let Some(i) = position(table, peer) {
        assert forall|a: int| 0 <= a < after.len() implies #[trigger] after[a] == (if a < i {
            table[a]
        } else {
            table[a + 1]
        }) by {}
        assert forall|a: int, b: int| 0 <= a < b < after.len() implies (#[trigger] after[a]).0
            != (#[trigger] after[b]).0 by {
            let a2 = if a < i { a } else { a + 1 };
            let b2 = if b < i { b } else { b + 1 };
            assert(after[a] == table[a2]);
            assert(after[b] == table[b2]);
        }
        if let Some(k) = position(after, peer) {
            let k2 = if k < i { k } else { k + 1 };
            assert(after[k] == table[k2]);
            assert(table[k2].0 == table[i].0);
        }
        if other != peer {
            match position(table, other) {
                Some(k) => {
                    let k1 = if k < i { k } else { k - 1 };
                    assert(after[k1] == table[k]);
                    let found = position(after, other)->0;
                    let f2 = if found < i { found } else { found + 1 };
                    assert(after[found] == table[f2]);
                    assert(f2 == k);
                },
                None => {
                    if let Some(found) = position(after, other) {
                        let f2 = if found < i { found } else { found + 1 };
                        assert(after[found] == table[f2]);
                    }
                },
            }
        }
    }
}

/// A map from peer to a small value, in which a peer stands at most once.
pub struct PeerMap<V> {
    entries: Vec<(PeerId, V)>,
}

/// The table that a sequence of entries stands for.
pub open spec fn table_of<V>(entries: Seq<(PeerId, V)>) -> Seq<(Seq<u8>, V)> {
    Seq::new(entries.len(), |i: int| (entries[i].0@, entries[i].1))
}

impl<V> View for PeerMap<V> {
    type V = Seq<(Seq<u8>, V)>;

    closed spec fn view(&self) -> Seq<(Seq<u8>, V)> {
        table_of(self.entries@)
    }
}

impl<V> PeerMap<V> {
    /// No peer stands twice. This holds of every table that the program
    /// holds.
    #[verifier::type_invariant]
    pub open spec fn no_repeats(self) -> bool {
        distinct(self@)
    }

    /// No peer stands twice.
    pub open spec fn wf(&self) -> bool {
        distinct(self@)
    }
}

impl<V: Copy> PeerMap<V> {
    /// The empty table.
    pub fn new() -> (r: Self)
        ensures
            r@ == Seq::<(Seq<u8>, V)>::empty(),
    {
        let entries: Vec<(PeerId, V)> = Vec::new();
        assert(table_of(entries@) =~= Seq::<(Seq<u8>, V)>::empty());
        PeerMap { entries }
    }

    /// The number of peers.
    pub fn len(&self) -> (r: usize)
        ensures
            r == self@.len(),
            self.wf(),
    {
        proof {
            use_type_invariant(self);
        }
        self.entries.len()
    }

    /// The position at which `peer` stands.
    fn find(&self, peer: &PeerId) -> (r: Option<usize>)
        ensures
            r matches Some(i) ==> position(self@, peer@) == Some(i as int) && i < self@.len(),
            r is None ==> position(self@, peer@) is None,
    {
        let mut i: usize = 0;
        while i < self.entries.len()
            invariant
                i <= self.entries.len(),
                position(self@, peer@) == position_from(self@, peer@, i as int),
            decreases self.entries.len() - i,
        {
            assert(self@[i as int].0 == self.entries@[i as int].0@);
            if self.entries[i].0.same_as(peer) {
                return Some(i);
            }
            i += 1;
        }
        None
    }

    /// The value under `peer`.
    pub fn get(&self, peer: &PeerId) -> (r: Option<V>)
        ensures
            r == lookup(self@, peer@),
    {
        match self.find(peer) {
            Some(i) => Some(self.entries[i].1),
            None => None,
        }
    }

    /// Whether `peer` has a value.
    pub fn contains(&self, peer: &PeerId) -> (r: bool)
        ensures
            r == lookup(self@, peer@).is_some(),
    {
        self.find(peer).is_some()
    }

    /// Puts `value` under `peer`, in the place of the value that was there
    /// if there was one.
    pub fn insert(&mut self, peer: PeerId, value: V)
        ensures
            final(self)@ == inserted(old(self)@, peer@, value),
            final(self).wf(),
    {
        proof {
            use_type_invariant(&*self);
            last_writer_wins(self@, peer@, value, peer@);
            lemma_position_from(self@, peer@, 0);
        }
        let ghost before = self@;
        // The entries are taken out while they change: the invariant of the
        // table is asked for again when they are put back.
        match self.find(&peer) {
            Some(i) => {
                let mut entries = Vec::new();
                core::mem::swap(&mut entries, &mut self.entries);
                entries.set(i, (peer, value));
                assert(table_of(entries@) =~= before.update(i as int, (peer@, value)));
                self.entries = entries;
            },
            None => {
                let mut entries = Vec::new();
                core::mem::swap(&mut entries, &mut self.entries);
                entries.push((peer, value));
                assert(table_of(entries@) =~= before.push((peer@, value)));
                self.entries = entries;
            },
        }
    }

    /// Takes `peer` out, and gives the value that it had.
    pub fn remove(&mut self, peer: &PeerId) -> (r: Option<V>)
        ensures
            final(self)@ == removed(old(self)@, peer@),
            r == lookup(old(self)@, peer@),
            final(self).wf(),
    {
        proof {
            use_type_invariant(&*self);
            lemma_removed(self@, peer@, peer@);
            lemma_position_from(self@, peer@, 0);
        }
        let ghost before = self@;
        match self.find(peer) {
            Some(i) => {
                let mut entries = Vec::new();
                core::mem::swap(&mut entries, &mut self.entries);
                let entry = entries.remove(i);
                assert(table_of(entries@) =~= before.remove(i as int));
                assert(entry.1 == before[i as int].1);
                self.entries = entries;
                Some(entry.1)
            },
            None => None,
        }
    }

    /// The peers, in the order in which they came in.
    pub fn peers(&self) -> (r: Vec<PeerId>)
        ensures
            r.deep_view() == keys(self@),
    {
        let mut out: Vec<PeerId> = Vec::new();
        let mut i: usize = 0;
        while i < self.entries.len()
            invariant
                i <= self.entries.len(),
                out@.len() == i,
                forall|k: int| 0 <= k < i ==> (#[trigger] out@[k])@ == self@[k].0,
            decreases self.entries.len() - i,
        {
            assert(self@[i as int].0 == self.entries@[i as int].0@);
            out.push(self.entries[i].0.clone());
            i += 1;
        }
        assert(out.deep_view() =~= keys(self@));
        out
    }
}

/// Whether an entry holds a route that uses another transport than
/// `transport`.
pub open spec fn on_another(transport: u64) -> spec_fn((Seq<u8>, Route)) -> bool {
    |entry: (Seq<u8>, Route)| entry.1.transport_of() != transport
}

/// The table without the routes that use `transport`.
pub open spec fn without_transport(table: Seq<(Seq<u8>, Route)>, transport: u64) -> Seq<
    (Seq<u8>, Route),
> {
    table.filter(on_another(transport))
}

/// What is left after a transport has gone was there before and uses
/// another transport; what used another transport is left; and no peer
/// stands twice in what is left, if none did before.
pub proof fn lemma_without_transport(table: Seq<(Seq<u8>, Route)>, transport: u64)
    ensures
        forall|k: int|
            0 <= k < without_transport(table, transport).len() ==> table.contains(
                #[trigger] without_transport(table, transport)[k],
            ) && without_transport(table, transport)[k].1.transport_of() != transport,
        forall|j: int|
            0 <= j < table.len() && (#[trigger] table[j]).1.transport_of() != transport
                ==> without_transport(table, transport).contains(table[j]),
        distinct(table) ==> distinct(without_transport(table, transport)),
    decreases table.len(),
{
    broadcast use vstd::seq_lib::group_filter_ensures;

    let keep = on_another(transport);
    let after = table.filter(keep);
    assert forall|k: int| 0 <= k < after.len() implies table.contains(#[trigger] after[k]) by {
        assert(after.contains(after[k]));
        table.lemma_filter_contains_rev(keep, after[k]);
    }
    if table.len() > 0 {
        let front = table.drop_last();
        let last = table.last();
        lemma_without_transport(front, transport);
        front.lemma_filter_push(last, keep);
        assert(front.push(last) =~= table);
        if distinct(table) {
            assert forall|a: int, b: int| 0 <= a < b < front.len() implies (#[trigger] front[a]).0
                != (#[trigger] front[b]).0 by {
                assert(front[a] == table[a]);
                assert(front[b] == table[b]);
            }
            let kept = front.filter(keep);
            if keep(last) {
                assert forall|a: int, b: int| 0 <= a < b < after.len() implies (
                #[trigger] after[a]).0 != (#[trigger] after[b]).0 by {
                    if b == kept.len() {
                        assert(after[a] == kept[a]);
                        assert(front.contains(without_transport(front, transport)[a]));
                        let j = choose|j: int| 0 <= j < front.len() && front[j] == kept[a];
                        assert(table[j] == kept[a]);
                        assert(table[table.len() - 1] == last);
                    } else {
                        assert(after[a] == kept[a]);
                        assert(after[b] == kept[b]);
                    }
                }
            }
        }
    } else {
        assert(after.len() == 0);
    }
}

/// What is left of a table from position `i` on: the entry at `i` unless it
/// uses the transport, then what is left from the next position on.
proof fn lemma_left_from(table: Seq<(Seq<u8>, Route)>, i: int, transport: u64)
    requires
        0 <= i < table.len(),
    ensures
        without_transport(table.skip(i), transport) == if table[i].1.transport_of() != transport {
            seq![table[i]] + without_transport(table.skip(i + 1), transport)
        } else {
            without_transport(table.skip(i + 1), transport)
        },
{
    let keep = on_another(transport);
    let none = Seq::<(Seq<u8>, Route)>::empty();
    let rest = table.skip(i + 1);
    assert(table.skip(i) =~= seq![table[i]] + rest);
    Seq::filter_distributes_over_add(seq![table[i]], rest, keep);
    none.lemma_filter_len(keep);
    none.lemma_filter_push(table[i], keep);
    assert(none.push(table[i]) =~= seq![table[i]]);
    assert(none.filter(keep) =~= none);
    assert(none + rest.filter(keep) =~= rest.filter(keep));
}

impl PeerMap<Route> {
    /// Takes out every route that uses `transport`.
    pub fn remove_transport(&mut self, transport: u64)
        ensures
            final(self)@ == without_transport(old(self)@, transport),
            final(self).wf(),
    {
        proof {
            use_type_invariant(&*self);
            lemma_without_transport(self@, transport);
        }
        let ghost before = self@;
        // The entries are taken out while they change: the invariant of the
        // table is asked for again when they are put back.
        let mut entries = Vec::new();
        core::mem::swap(&mut entries, &mut self.entries);
        assert(table_of(entries@).take(0) + before.skip(0) =~= before);
        assert(before.skip(0) =~= before);
        let mut i: usize = 0;
        while i < entries.len()
            invariant
                i <= entries.len(),
                without_transport(before, transport) == table_of(entries@).take(i as int)
                    + without_transport(table_of(entries@).skip(i as int), transport),
            decreases entries.len() - i,
        {
            let ghost current = table_of(entries@);
            proof {
                lemma_left_from(current, i as int, transport);
            }
            assert(current[i as int].1 == entries@[i as int].1);
            if entries[i].1.transport() == transport {
                entries.remove(i);
                assert(table_of(entries@).take(i as int) =~= current.take(i as int));
                assert(table_of(entries@).skip(i as int) =~= current.skip(i + 1));
            } else {
                assert(current.take(i + 1) =~= current.take(i as int) + seq![current[i as int]]);
                assert(current.take(i as int) + (seq![current[i as int]] + without_transport(
                    current.skip(i + 1),
                    transport,
                )) =~= current.take(i + 1) + without_transport(current.skip(i + 1), transport));
                i += 1;
            }
        }
        proof {
            let left = table_of(entries@);
            let none = Seq::<(Seq<u8>, Route)>::empty();
            none.lemma_filter_len(on_another(transport));
            assert(left.skip(i as int) =~= none);
            assert(none.filter(on_another(transport)) =~= none);
            assert(left.take(i as int) + none =~= left);
        }
        self.entries = entries;
    }
}

/// The routing table: the open route to each peer that has one.
pub type RoutingTable = PeerMap<Route>;

/// The connection table: the handle of the peer connection with each peer
/// that has one, from the first `Connect` seen from the peer until the
/// connection is torn down.
pub type ConnectionTable = PeerMap<u64>;

} // verus!
