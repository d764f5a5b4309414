//! The message store: one first-in-first-out queue of raw payloads per wire id,
//! and the typed reads on top of it.
use vstd::prelude::*;
use std::any::TypeId;
use std::collections::{HashMap, VecDeque};
use crate::registry::TypeRegistry;
use crate::wire::{
    frame, framed, lemma_frame_round_trip, unframe, unframed, truncated, SHARED_ID,
};

verus! {

/// A sender's network address, held as plain values.
#[derive(Clone, Copy, Debug, PartialEq, Eq)]
pub enum PeerAddr {
    V4 { octets: [u8; 4], port: u16 },
    V6 { segments: [u16; 8], port: u16, flowinfo: u32, scope_id: u32 },
}

/// Why a read found nothing to return.
#[derive(Clone, Copy, Debug, PartialEq, Eq, Structural)]
pub enum ReadError {
    /// The queue of the id is absent or empty.
    NotFound,
    /// The bytes at the head did not decode as the requested type.
    DeserializeFailure,
}

/// A received message before decoding: its sender and its payload bytes.
pub type Pending = (PeerAddr, Seq<u8>);

/// The queues of a store, by wire id.
pub type Queues = Map<u64, Seq<Pending>>;

/// The queue of `id`; an absent queue reads as empty.
pub open spec fn queue_of(m: Queues, id: u64) -> Seq<Pending> {
    if m.contains_key(id) {
        m[id]
    } else {
        Seq::empty()
    }
}

/// `m` after `p` joins the tail of the queue of `id`, which is created if absent.
pub open spec fn enqueued(m: Queues, id: u64, p: Pending) -> Queues {
    m.insert(id, queue_of(m, id).push(p))
}

/// The head of the queue of `id`, if there is one.
pub open spec fn front(m: Queues, id: u64) -> Option<Pending> {
    if queue_of(m, id).len() > 0 {
        Some(queue_of(m, id)[0])
    } else {
        None
    }
}

/// `m` after the head of the queue of `id`, if any, is removed.
pub open spec fn dequeued(m: Queues, id: u64) -> Queues {
    if queue_of(m, id).len() > 0 {
        m.insert(id, queue_of(m, id).drop_first())
    } else {
        m
    }
}

/// `m` after the queue of `id`, if present, is emptied; it stays present.
pub open spec fn drained(m: Queues, id: u64) -> Queues {
    if m.contains_key(id) {
        m.insert(id, Seq::empty())
    } else {
        m
    }
}

/// `m` after the datagram `datagram` from `addr` is filed.
pub open spec fn filed(m: Queues, use_ids: bool, addr: PeerAddr, datagram: Seq<u8>) -> Queues {
    match unframed(use_ids, datagram) {
        Some((id, payload)) => enqueued(m, id, (addr, payload)),
        None => m,
    }
}

/// The id that reads and sends of `key` use once the registry holds `reg`.
pub open spec fn wire_id(reg: Map<TypeId, u64>, key: TypeId, use_ids: bool) -> u64 {
    if use_ids {
        reg[key]
    } else {
        SHARED_ID
    }
}

/// `new` is `old` after `key` was resolved: with ids on, an id that `key`
/// had is kept and otherwise one is recorded; with ids off nothing changes.
pub open spec fn resolved(
    old: Map<TypeId, u64>,
    new: Map<TypeId, u64>,
    key: TypeId,
    use_ids: bool,
) -> bool {
    if use_ids {
        &&& new.contains_key(key)
        &&& new == old.insert(key, new[key])
        &&& old.contains_key(key) ==> new[key] == old[key]
    } else {
        new == old
    }
}

/// `decode` may turn bytes with view `bytes` into `out`.
pub open spec fn decodes_to<J, F: Fn(&Vec<u8>) -> Option<J>>(
    decode: F,
    bytes: Seq<u8>,
    out: Option<J>,
) -> bool {
    exists|b: Vec<u8>| b@ == bytes && decode.ensures((&b,), out)
}

/// `r` is what a read of the message `head` returns: its sender and value
/// when `decode` gave one, a deserialize failure when it gave none.
pub open spec fn read_outcome<J, F: Fn(&Vec<u8>) -> Option<J>>(
    decode: F,
    head: Pending,
    r: Result<(PeerAddr, J), ReadError>,
) -> bool {
    match r {
        Ok((addr, v)) => addr == head.0 && decodes_to(decode, head.1, Some(v)),
        Err(e) => e == ReadError::DeserializeFailure && decodes_to(decode, head.1, None),
    }
}

/// The senders and values of the messages of `q` whose decoding, in `outs`,
/// succeeded, in queue order.
pub open spec fn kept<J>(q: Seq<Pending>, outs: Seq<Option<J>>) -> Seq<(PeerAddr, J)>
    decreases q.len(),
{
    if q.len() == 0 || outs.len() == 0 {
        Seq::empty()
    } else {
        kept(q.drop_last(), outs.drop_last()) + match outs.last() {
            Some(v) => seq![(q.last().0, v)],
            None => Seq::empty(),
        }
    }
}

/// Received messages, still as bytes, queued by wire id, together with the
/// registry that resolves a message type to its wire id.
pub struct MsgStorage {
    msgs: HashMap<u64, VecDeque<(PeerAddr, Vec<u8>)>>,
    ids: TypeRegistry,
}

/// The pending message that a stored entry stands for.
pub open spec fn pending_of(e: (PeerAddr, Vec<u8>)) -> Pending {
    (e.0, e.1@)
}

/// The messages of a stored queue.
pub open spec fn queue_view(q: VecDeque<(PeerAddr, Vec<u8>)>) -> Seq<Pending> {
    q@.map_values(|e: (PeerAddr, Vec<u8>)| pending_of(e))
}

impl MsgStorage {
    /// The queues, by wire id.
    pub closed spec fn queues(&self) -> Queues {
        self.msgs@.map_values(|q: VecDeque<(PeerAddr, Vec<u8>)>| queue_view(q))
    }

    /// The wire ids of the message types resolved or configured so far.
    pub closed spec fn registry(&self) -> Map<TypeId, u64> {
        self.ids.ids()
    }

    /// The registry is well formed; the queues need no invariant.
    pub closed spec fn wf(&self) -> bool {
        self.ids.wf()
    }

    /// An empty store with an empty registry.
    pub fn new() -> (r: Self)
        ensures
            r.wf(),
            r.queues() == Queues::empty(),
            r.registry() == Map::<TypeId, u64>::empty(),
    {
        let r = MsgStorage { msgs: HashMap::new(), ids: TypeRegistry::new() };
        assert(r.queues() =~= Queues::empty());
        r
    }

    /// The wire id of the type `key`, assigning its automatic id on first use.
    pub fn get_id(&mut self, key: TypeId) -> (r: u64)
        requires
            old(self).wf(),
        ensures
            final(self).wf(),
            final(self).queues() == old(self).queues(),
            resolved(old(self).registry(), final(self).registry(), key, true),
            r == final(self).registry()[key],
    {
        let r = self.ids.get_id(key);
        assert(self.registry() =~= old(self).registry().insert(key, r));
        r
    }

    /// Makes `id` the wire id of the type `key`. Meant to be called before the
    /// type is first sent or read: a peer that already resolved the type
    /// keeps the id it had.
    pub fn set_id(&mut self, key: TypeId, id: u64)
        requires
            old(self).wf(),
        ensures
            final(self).wf(),
            final(self).queues() == old(self).queues(),
            final(self).registry() == old(self).registry().insert(key, id),
    {
        self.ids.set_id(key, id)
    }

    /// The wire id that reads and sends of `key` use.
    pub fn resolve(&mut self, key: TypeId, use_ids: bool) -> (r: u64)
        requires
            old(self).wf(),
        ensures
            final(self).wf(),
            final(self).queues() == old(self).queues(),
            resolved(old(self).registry(), final(self).registry(), key, use_ids),
            r == wire_id(final(self).registry(), key, use_ids),
    {
        if use_ids {
            self.get_id(key)
        } else {
            SHARED_ID
        }
    }

    /// Removes the head of the queue of `id`, if there is one, and returns it.
    fn pop_front(&mut self, id: u64) -> (r: Option<(PeerAddr, Vec<u8>)>)
        requires
            old(self).wf(),
        ensures
            final(self).wf(),
            final(self).registry() == old(self).registry(),
            final(self).queues() == dequeued(old(self).queues(), id),
            match r {
                Some(e) => front(old(self).queues(), id) == Some(pending_of(e)),
                None => front(old(self).queues(), id) == None::<Pending>,
            },
    {
        let ghost before = self.queues();
        match self.msgs.remove(&id) {
            None => {
                assert(self.queues() =~= before);
                None
            },
            Some(mut q) => {
                assert(queue_view(q) =~= queue_of(before, id));
                let ghost whole = q@;
                let head = q.pop_front();
                if head.is_some() {
                    assert(queue_view(q) =~= queue_of(before, id).drop_first());
                } else {
                    assert(queue_view(q) =~= queue_of(before, id));
                }
                self.msgs.insert(id, q);
                assert(self.queues() =~= dequeued(before, id));
                head
            },
        }
    }

    /// Takes the oldest message of the type `key` and decodes it with
    /// `decode`. The message leaves the queue whether or not it decodes.
    pub fn get_obj<J, F: Fn(&Vec<u8>) -> Option<J>>(
        &mut self,
        key: TypeId,
        use_ids: bool,
        decode: F,
    ) -> (r: Result<(PeerAddr, J), ReadError>)
        requires
            old(self).wf(),
            forall|b: &Vec<u8>| #[trigger] decode.requires((b,)),
        ensures
            final(self).wf(),
            resolved(old(self).registry(), final(self).registry(), key, use_ids),
            ({
                let id = wire_id(final(self).registry(), key, use_ids);
                &&& final(self).queues() == dequeued(old(self).queues(), id)
                &&& match front(old(self).queues(), id) {
                    None => r == Err::<(PeerAddr, J), ReadError>(ReadError::NotFound),
                    Some(head) => read_outcome(decode, head, r),
                }
            }),
    {
        let id = self.resolve(key, use_ids);
        match self.pop_front(id) {
            None => Err(ReadError::NotFound),
            Some((addr, bytes)) => {
                let out = decode(&bytes);
                assert(decodes_to(decode, bytes@, out));
                match out {
                    Some(v) => Ok((addr, v)),
                    None => Err(ReadError::DeserializeFailure),
                }
            },
        }
    }

    /// Decodes the oldest message of the type `key` with `decode`, leaving
    /// it queued.
    pub fn peek<J, F: Fn(&Vec<u8>) -> Option<J>>(&mut self, key: TypeId, use_ids: bool, decode: F) -> (r:
        Result<(PeerAddr, J), ReadError>)
        requires
            old(self).wf(),
            forall|b: &Vec<u8>| #[trigger] decode.requires((b,)),
        ensures
            final(self).wf(),
            resolved(old(self).registry(), final(self).registry(), key, use_ids),
            final(self).queues() == old(self).queues(),
            match front(old(self).queues(), wire_id(final(self).registry(), key, use_ids)) {
                None => r == Err::<(PeerAddr, J), ReadError>(ReadError::NotFound),
                Some(head) => read_outcome(decode, head, r),
            },
    {
        let id = self.resolve(key, use_ids);
        match self.msgs.get(&id) {
            None => Err(ReadError::NotFound),
            Some(q) => {
                assert(queue_view(*q) == queue_of(self.queues(), id));
                if q.len() == 0 {
                    Err(ReadError::NotFound)
                } else {
                    let head = &q[0];
                    assert(pending_of(*head) == queue_view(*q)[0]);
                    let out = decode(&head.1);
                    assert(decodes_to(decode, head.1@, out));
                    match out {
                        Some(v) => Ok((head.0, v)),
                        None => Err(ReadError::DeserializeFailure),
                    }
                }
            },
        }
    }

    /// Drops the oldest message of the type `key`.
    pub fn remove_front(&mut self, key: TypeId, use_ids: bool) -> (r: Result<(), ReadError>)
        requires
            old(self).wf(),
        ensures
            final(self).wf(),
            resolved(old(self).registry(), final(self).registry(), key, use_ids),
            ({
                let id = wire_id(final(self).registry(), key, use_ids);
                &&& final(self).queues() == dequeued(old(self).queues(), id)
                &&& r == if front(old(self).queues(), id) is Some {
                    Ok::<(), ReadError>(())
                } else {
                    Err(ReadError::NotFound)
                }
            }),
    {
        let id = self.resolve(key, use_ids);
        match self.pop_front(id) {
            Some(_) => Ok(()),
            None => Err(ReadError::NotFound),
        }
    }

    /// Drops every message of the type `key`; the queue stays, empty.
    pub fn remove_all(&mut self, key: TypeId, use_ids: bool) -> (r: Result<(), ReadError>)
        requires
            old(self).wf(),
        ensures
            final(self).wf(),
            resolved(old(self).registry(), final(self).registry(), key, use_ids),
            ({
                let id = wire_id(final(self).registry(), key, use_ids);
                &&& final(self).queues() == drained(old(self).queues(), id)
                &&& r == if old(self).queues().contains_key(id) {
                    Ok::<(), ReadError>(())
                } else {
                    Err(ReadError::NotFound)
                }
            }),
    {
        let id = self.resolve(key, use_ids);
        let ghost before = self.queues();
        match self.msgs.remove(&id) {
            None => {
                assert(self.queues() =~= before);
                Err(ReadError::NotFound)
            },
            Some(_) => {
                let empty = VecDeque::new();
                assert(queue_view(empty) =~= Seq::<Pending>::empty());
                self.msgs.insert(id, empty);
                assert(self.queues() =~= drained(before, id));
                Ok(())
            },
        }
    }

    /// Takes every message of the type `key`, oldest first, and returns the
    /// ones that `decode` turns into values; the others are dropped. The
    /// queue stays, empty.
    pub fn get_obj_all<J, F: Fn(&Vec<u8>) -> Option<J>>(
        &mut self,
        key: TypeId,
        use_ids: bool,
        decode: F,
    ) -> (r: Result<Vec<(PeerAddr, J)>, ReadError>)
        requires
            old(self).wf(),
            forall|b: &Vec<u8>| #[trigger] decode.requires((b,)),
        ensures
            final(self).wf(),
            resolved(old(self).registry(), final(self).registry(), key, use_ids),
            ({
                let id = wire_id(final(self).registry(), key, use_ids);
                let q = queue_of(old(self).queues(), id);
                &&& final(self).queues() == drained(old(self).queues(), id)
                &&& match r {
                    Err(e) => e == ReadError::NotFound && !old(self).queues().contains_key(id),
                    Ok(v) => old(self).queues().contains_key(id) && exists|outs: Seq<Option<J>>|
                        {
                            &&& outs.len() == q.len()
                            &&& forall|j: int|
                                0 <= j < q.len() ==> decodes_to(decode, q[j].1, #[trigger] outs[j])
                            &&& v@ == kept(q, outs)
                        },
                }
            }),
    {
        let id = self.resolve(key, use_ids);
        let ghost before = self.queues();
        match self.msgs.remove(&id) {
            None => {
                assert(self.queues() =~= before);
                Err(ReadError::NotFound)
            },
            Some(mut q) => {
                let ghost all = queue_view(q);
                assert(all == queue_of(before, id));
                let ghost mut outs: Seq<Option<J>> = Seq::empty();
                let mut found: Vec<(PeerAddr, J)> = Vec::new();
                let ghost mut i: int = 0;
                while q.len() > 0
                    invariant
                        forall|b: &Vec<u8>| #[trigger] decode.requires((b,)),
                        0 <= i <= all.len(),
                        i + q@.len() == all.len(),
                        queue_view(q) =~= all.skip(i),
                        outs.len() == i,
                        forall|j: int| 0 <= j < i ==> decodes_to(decode, all[j].1, #[trigger] outs[j]),
                        found@ == kept(all.take(i), outs),
                    decreases q@.len(),
                {
                    let ghost rest = q@;
                    let ghost restv = queue_view(q);
                    let ghost prev = found@;
                    assert(restv[0] == pending_of(rest[0]));
                    let head = q.pop_front();
                    match head {
                        Some((addr, bytes)) => {
                            assert(pending_of(rest[0]) == all[i]);
                            assert(queue_view(q) =~= restv.drop_first());
                            let out = decode(&bytes);
                            assert(decodes_to(decode, bytes@, out));
                            let ghost prev_outs = outs;
                            proof {
                                outs = outs.push(out);
                            }
                            assert(outs.drop_last() =~= prev_outs);
                            match out {
                                Some(v) => found.push((addr, v)),
                                None => {},
                            }
                            assert(all.take(i + 1).drop_last() =~= all.take(i));
                            assert(kept(all.take(i + 1), outs) == kept(all.take(i), outs.drop_last())
                                + match out {
                                Some(v) => seq![(addr, v)],
                                None => Seq::empty(),
                            });
                            assert(found@ =~= kept(all.take(i + 1), outs));
                            proof {
                                i = i + 1;
                            }
                            assert(queue_view(q) =~= all.skip(i));
                        },
                        None => {},
                    }
                }
                assert(all.take(i) =~= all);
                let empty = VecDeque::new();
                assert(queue_view(empty) =~= Seq::<Pending>::empty());
                self.msgs.insert(id, empty);
                assert(self.queues() =~= drained(before, id));
                Ok(found)
            },
        }
    }

    /// The datagram that sends `payload` as a message of the type `key`:
    /// behind the type's wire id when ids are on, bare otherwise.
    pub fn frame_message(&mut self, key: TypeId, use_ids: bool, payload: Vec<u8>) -> (r: Vec<u8>)
        requires
            old(self).wf(),
        ensures
            final(self).wf(),
            final(self).queues() == old(self).queues(),
            resolved(old(self).registry(), final(self).registry(), key, use_ids),
            r@ == framed(use_ids, wire_id(final(self).registry(), key, use_ids), payload@),
    {
        let id = self.resolve(key, use_ids);
        frame(use_ids, id, payload)
    }

    /// Appends a message from `addr` with payload `buffer` to the queue of `id`.
    pub fn add_msg(&mut self, id: u64, addr: PeerAddr, buffer: Vec<u8>)
        requires
            old(self).wf(),
        ensures
            final(self).wf(),
            final(self).registry() == old(self).registry(),
            final(self).queues() == enqueued(old(self).queues(), id, (addr, buffer@)),
    {
        let ghost before = self.queues();
        let ghost bytes = buffer@;
        let mut q = match self.msgs.remove(&id) {
            Some(q) => q,
            None => VecDeque::new(),
        };
        assert(queue_view(q) =~= queue_of(before, id));
        q.push_back((addr, buffer));
        assert(queue_view(q) =~= queue_of(before, id).push((addr, bytes)));
        self.msgs.insert(id, q);
        assert(self.queues() =~= enqueued(before, id, (addr, bytes)));
    }

    /// Files a datagram from `addr` whose first `received` bytes stand in
    /// `buffer`. With ids on, one shorter than the header is dropped.
    pub fn file_datagram(&mut self, use_ids: bool, addr: PeerAddr, buffer: Vec<u8>, received: usize)
        requires
            old(self).wf(),
        ensures
            final(self).wf(),
            final(self).registry() == old(self).registry(),
            final(self).queues() == filed(
                old(self).queues(),
                use_ids,
                addr,
                truncated(buffer@, received as int),
            ),
    {
        match unframe(use_ids, buffer, received) {
            Some((id, payload)) => self.add_msg(id, addr, payload),
            None => {},
        }
    }
}

/// The queue that messages framed for `id` are filed in.
pub open spec fn filing_id(use_ids: bool, id: u64) -> u64 {
    if use_ids {
        id
    } else {
        SHARED_ID
    }
}

/// `m` after the datagrams that carry `msgs` as messages of id `id`, each
/// from its sender, are filed in order.
pub open spec fn filed_all(m: Queues, use_ids: bool, id: u64, msgs: Seq<Pending>) -> Queues
    decreases msgs.len(),
{
    if msgs.len() == 0 {
        m
    } else {
        filed(
            filed_all(m, use_ids, id, msgs.drop_last()),
            use_ids,
            msgs.last().0,
            framed(use_ids, id, msgs.last().1),
        )
    }
}

/// `m` after `n` destructive reads of the queue of `id`.
pub open spec fn dequeued_n(m: Queues, id: u64, n: nat) -> Queues
    decreases n,
{
    if n == 0 {
        m
    } else {
        dequeued(dequeued_n(m, id, (n - 1) as nat), id)
    }
}

/// Messages sent under one id join the tail of its queue in sending order;
/// no other queue changes.
pub proof fn lemma_sends_join_tail(m: Queues, use_ids: bool, id: u64, msgs: Seq<Pending>)
    ensures
        queue_of(filed_all(m, use_ids, id, msgs), filing_id(use_ids, id)) == queue_of(
            m,
            filing_id(use_ids, id),
        ) + msgs,
        forall|other: u64|
            other != filing_id(use_ids, id) ==> queue_of(filed_all(m, use_ids, id, msgs), other)
                == queue_of(m, other),
    decreases msgs.len(),
{
    if msgs.len() == 0 {
        assert(queue_of(m, filing_id(use_ids, id)) + msgs =~= queue_of(m, filing_id(use_ids, id)));
    } else {
        lemma_sends_join_tail(m, use_ids, id, msgs.drop_last());
        lemma_frame_round_trip(use_ids, id, msgs.last().1);
        assert(queue_of(m, filing_id(use_ids, id)) + msgs =~= (queue_of(
            m,
            filing_id(use_ids, id),
        ) + msgs.drop_last()).push(msgs.last()));
    }
}

/// After `n` destructive reads the queue of `id` holds what followed its
/// first `n` messages.
pub proof fn lemma_reads_take_from_head(m: Queues, id: u64, n: nat)
    requires
        n <= queue_of(m, id).len(),
    ensures
        queue_of(dequeued_n(m, id, n), id) == queue_of(m, id).skip(n as int),
    decreases n,
{
    if n == 0 {
        assert(queue_of(m, id).skip(0) =~= queue_of(m, id));
    } else {
        lemma_reads_take_from_head(m, id, (n - 1) as nat);
        assert(queue_of(m, id).skip(n - 1).drop_first() =~= queue_of(m, id).skip(n as int));
    }
}

/// Messages sent under one id into an empty queue come out of successive
/// destructive reads in sending order, one per read; after the last, the
/// queue reads as empty.
pub proof fn lemma_fifo(m: Queues, use_ids: bool, id: u64, msgs: Seq<Pending>)
    requires
        queue_of(m, filing_id(use_ids, id)).len() == 0,
    ensures
        forall|i: nat|
            i < msgs.len() ==> front(
                #[trigger] dequeued_n(filed_all(m, use_ids, id, msgs), filing_id(use_ids, id), i),
                filing_id(use_ids, id),
            ) == Some(msgs[i as int]),
        front(
            dequeued_n(filed_all(m, use_ids, id, msgs), filing_id(use_ids, id), msgs.len()),
            filing_id(use_ids, id),
        ) == None::<Pending>,
{
    let wid = filing_id(use_ids, id);
    let after = filed_all(m, use_ids, id, msgs);
    lemma_sends_join_tail(m, use_ids, id, msgs);
    assert(queue_of(after, wid) =~= msgs);
    assert forall|i: nat| i < msgs.len() implies front(
        #[trigger] dequeued_n(after, wid, i),
        wid,
    ) == Some(msgs[i as int]) by {
        lemma_reads_take_from_head(after, wid, i);
    }
    lemma_reads_take_from_head(after, wid, msgs.len());
}

/// Once a type is resolved, resolving it again keeps the registry and the
/// id as they are.
pub proof fn lemma_id_stable(
    r0: Map<TypeId, u64>,
    r1: Map<TypeId, u64>,
    r2: Map<TypeId, u64>,
    key: TypeId,
    use_ids: bool,
)
    requires
        resolved(r0, r1, key, use_ids),
        resolved(r1, r2, key, use_ids),
    ensures
        r2 == r1,
        wire_id(r2, key, use_ids) == wire_id(r1, key, use_ids),
{
    if use_ids {
        assert(r1.insert(key, r1[key]) =~= r1);
    }
}

/// Two peeks of one type in a row, with nothing taken between them, hand
/// `decode` the same message and leave the queues and the registry as the
/// first found them.
pub proof fn lemma_peek_repeatable(
    m: Queues,
    r0: Map<TypeId, u64>,
    r1: Map<TypeId, u64>,
    r2: Map<TypeId, u64>,
    key: TypeId,
    use_ids: bool,
)
    requires
        resolved(r0, r1, key, use_ids),
        resolved(r1, r2, key, use_ids),
    ensures
        r2 == r1,
        front(m, wire_id(r2, key, use_ids)) == front(m, wire_id(r1, key, use_ids)),
{
    lemma_id_stable(r0, r1, r2, key, use_ids);
}

/// After a queue is drained a destructive read finds nothing, and a
/// second drain finds the queue present and empty.
pub proof fn lemma_drain_leaves_nothing(m: Queues, id: u64)
    ensures
        front(drained(m, id), id) == None::<Pending>,
        dequeued(drained(m, id), id) == drained(m, id),
        drained(m, id).contains_key(id) == m.contains_key(id),
        queue_of(drained(m, id), id).len() == 0,
{
}

/// After `set_id` gives a type the id `custom`, the type resolves to
/// `custom`, its messages are framed with `custom`, and a received frame of
/// such a message is filed under `custom`.
pub proof fn lemma_set_id_used(
    reg: Map<TypeId, u64>,
    after: Map<TypeId, u64>,
    key: TypeId,
    custom: u64,
    payload: Seq<u8>,
)
    requires
        resolved(reg.insert(key, custom), after, key, true),
    ensures
        after == reg.insert(key, custom),
        wire_id(after, key, true) == custom,
        framed(true, wire_id(after, key, true), payload).take(8) == crate::wire::be_bytes(custom),
        unframed(true, framed(true, wire_id(after, key, true), payload)) == Some((custom, payload)),
{
    assert(reg.insert(key, custom).insert(key, custom) =~= reg.insert(key, custom));
    assert(framed(true, custom, payload).take(8) =~= crate::wire::be_bytes(custom));
    lemma_frame_round_trip(true, custom, payload);
}

/// Without ids every type resolves to the one shared queue; two datagrams,
/// of whatever types, queue there in arrival order, and a destructive read
/// (which leaves the queue as `dequeued` says, whatever the decoding)
/// removes the first one.
pub proof fn lemma_shared_queue_without_ids(
    m: Queues,
    reg: Map<TypeId, u64>,
    k1: TypeId,
    k2: TypeId,
    a1: PeerAddr,
    d1: Seq<u8>,
    a2: PeerAddr,
    d2: Seq<u8>,
)
    requires
        queue_of(m, SHARED_ID).len() == 0,
    ensures
        wire_id(reg, k1, false) == SHARED_ID,
        wire_id(reg, k2, false) == SHARED_ID,
        queue_of(filed(filed(m, false, a1, d1), false, a2, d2), SHARED_ID) == seq![(a1, d1), (a2, d2)],
        front(filed(filed(m, false, a1, d1), false, a2, d2), SHARED_ID) == Some((a1, d1)),
        queue_of(dequeued(filed(filed(m, false, a1, d1), false, a2, d2), SHARED_ID), SHARED_ID)
            == seq![(a2, d2)],
{
    let after = filed(filed(m, false, a1, d1), false, a2, d2);
    assert(queue_of(after, SHARED_ID) =~= seq![(a1, d1), (a2, d2)]);
    assert(seq![(a1, d1), (a2, d2)].drop_first() =~= seq![(a2, d2)]);
}

} // verus!
