//! The per-session message store: a sequence-number-indexed cache of the
//! messages a session has received.

use vstd::prelude::*;
use vstd::hash_map::HashMapWithView;
use crate::message::Message;

verus! {

broadcast use vstd::std_specs::hash::group_hash_axioms;

/// Per-session cache of received messages, keyed by sequence number.
/// A later insert for the same number overwrites the earlier entry; no
/// entry is ever evicted for the session's lifetime.
pub struct MessageStore {
    map: HashMapWithView<u64, Message>,
}

impl View for MessageStore {
    type V = Map<u64, Seq<(u32, Seq<char>)>>;

    closed spec fn view(&self) -> Map<u64, Seq<(u32, Seq<char>)>> {
        self.map@.map_values(|m: Message| m@)
    }
}

impl MessageStore {
    /// Creates an empty store.
    pub fn new() -> (r: MessageStore)
        ensures
            r@ == Map::<u64, Seq<(u32, Seq<char>)>>::empty(),
    {
        let r = MessageStore { map: HashMapWithView::new() };
        proof {
            assert(r@ =~= Map::<u64, Seq<(u32, Seq<char>)>>::empty());
        }
        r
    }

    /// Stores an owned copy of `msg` under `seq_no`, overwriting any
    /// earlier entry for that number. Never fails.
    pub fn insert(&mut self, seq_no: u64, msg: &Message)
        ensures
            final(self)@ == old(self)@.insert(seq_no, msg@),
    {
        self.map.insert(seq_no, msg.clone());
        proof {
            assert(self@ =~= old(self)@.insert(seq_no, msg@));
        }
    }

    /// Returns a copy of the message stored under `seq_no`, or `None`
    /// when no message is stored there. Never fails and never changes
    /// the store.
    pub fn lookup(&self, seq_no: u64) -> (r: Option<Message>)
        ensures
            match r {
                Some(m) => self@.contains_key(seq_no) && m@ == self@[seq_no],
                None => !self@.contains_key(seq_no),
            },
    {
        match self.map.get(&seq_no) {
            Some(m) => Some(m.clone()),
            None => None,
        }
    }
}

/// Storing a message under a sequence number and looking that number up
/// immediately afterwards yields exactly the stored message.
pub proof fn lemma_store_round_trip(
    s: Map<u64, Seq<(u32, Seq<char>)>>,
    n: u64,
    m: Seq<(u32, Seq<char>)>,
)
    ensures
        s.insert(n, m).contains_key(n),
        s.insert(n, m)[n] == m,
{
}

/// A sequence number absent from a store stays absent under inserts at
/// other numbers; together with the empty store lacking every number,
/// a number never inserted is never found.
pub proof fn lemma_never_inserted_stays_absent(
    s: Map<u64, Seq<(u32, Seq<char>)>>,
    k: u64,
    m: Seq<(u32, Seq<char>)>,
    n: u64,
)
    requires
        !s.contains_key(n),
        k != n,
    ensures
        !s.insert(k, m).contains_key(n),
        !Map::<u64, Seq<(u32, Seq<char>)>>::empty().contains_key(n),
{
}

/// Handling one inbound message touches at most its own sequence number:
/// every other stored copy, replayed or not, stays exactly as it was.
/// In particular a replay, which reads stored copies and flags only the
/// outbound duplicates, leaves PossDupFlag on the stored originals unset.
pub proof fn lemma_insert_preserves_other_entries(
    s: Map<u64, Seq<(u32, Seq<char>)>>,
    n: u64,
    m: Seq<(u32, Seq<char>)>,
    k: u64,
)
    requires
        k != n,
    ensures
        s.insert(n, m).contains_key(k) == s.contains_key(k),
        s.contains_key(k) ==> s.insert(n, m)[k] == s[k],
{
}

} // verus!
