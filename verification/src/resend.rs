//! Resend fulfillment: detecting a Resend Request and building the replay
//! of the requested sequence-number range from the session's store.

use vstd::prelude::*;
use crate::message::{
    Message, field_value, with_field, TAG_MSG_TYPE, TAG_BEGIN_SEQ_NO, TAG_END_SEQ_NO,
    TAG_POSS_DUP_FLAG, lemma_with_field_same, lemma_with_field_other,
};
use crate::numeric::{parse_u64, parse_u64_spec};
use crate::store::MessageStore;

verus! {

/// A Resend Request as the engine hands it over: the requested range of
/// sequence numbers, both bounds inclusive. Constructed at dispatch time
/// and consumed immediately; never persisted.
#[derive(Clone, Copy, Debug, PartialEq, Eq, Structural)]
pub struct ResendRequest {
    pub begin: u64,
    pub end: u64,
}

/// The message is a Resend Request: its MsgType field holds "2".
pub open spec fn is_resend_request(m: Seq<(u32, Seq<char>)>) -> bool {
    field_value(m, TAG_MSG_TYPE) == Some("2"@)
}

/// The range a Resend Request asks for: BeginSeqNo and EndSeqNo, each
/// parsed as an unsigned 64-bit number; `None` when either is missing or
/// unparsable.
pub open spec fn resend_range(m: Seq<(u32, Seq<char>)>) -> Option<(u64, u64)> {
    match (field_value(m, TAG_BEGIN_SEQ_NO), field_value(m, TAG_END_SEQ_NO)) {
        (Some(b), Some(e)) => match (parse_u64_spec(b), parse_u64_spec(e)) {
            (Some(bv), Some(ev)) => Some((bv, ev)),
            _ => None,
        },
        _ => None,
    }
}

/// A message as it is re-emitted: the stored copy with PossDupFlag set
/// to "Y".
pub open spec fn flag_dup(m: Seq<(u32, Seq<char>)>) -> Seq<(u32, Seq<char>)> {
    with_field(m, TAG_POSS_DUP_FLAG, "Y"@)
}

/// What a replay of the range `[lo, hi]` emits from store contents `s`:
/// the stored entries in ascending sequence-number order, each with
/// PossDupFlag set; missing numbers are skipped without a substitute, and
/// a range with `hi < lo` emits nothing.
pub open spec fn replay_view(
    s: Map<u64, Seq<(u32, Seq<char>)>>,
    lo: int,
    hi: int,
) -> Seq<Seq<(u32, Seq<char>)>>
    decreases hi + 1 - lo,
{
    if lo > hi {
        Seq::empty()
    } else {
        let head = if 0 <= lo <= u64::MAX && s.contains_key(lo as u64) {
            seq![flag_dup(s[lo as u64])]
        } else {
            Seq::empty()
        };
        head + replay_view(s, lo + 1, hi)
    }
}

/// A replay range is consumed from the back: the range `[lo, hi]` emits
/// what `[lo, hi - 1]` emits, followed by the entry for `hi`, if any.
pub proof fn lemma_replay_view_snoc(s: Map<u64, Seq<(u32, Seq<char>)>>, lo: int, hi: int)
    requires
        lo <= hi,
    ensures
        replay_view(s, lo, hi) == replay_view(s, lo, hi - 1) + (if 0 <= hi <= u64::MAX
            && s.contains_key(hi as u64) {
            seq![flag_dup(s[hi as u64])]
        } else {
            Seq::<Seq<(u32, Seq<char>)>>::empty()
        }),
    decreases hi - lo,
{
    let tail = if 0 <= hi <= u64::MAX && s.contains_key(hi as u64) {
        seq![flag_dup(s[hi as u64])]
    } else {
        Seq::<Seq<(u32, Seq<char>)>>::empty()
    };
    if lo == hi {
        assert(replay_view(s, lo, hi - 1) == Seq::<Seq<(u32, Seq<char>)>>::empty());
        assert(replay_view(s, lo + 1, hi) == Seq::<Seq<(u32, Seq<char>)>>::empty());
        assert(replay_view(s, lo, hi) =~= replay_view(s, lo, hi - 1) + tail);
    } else {
        lemma_replay_view_snoc(s, lo + 1, hi);
        let head = if 0 <= lo <= u64::MAX && s.contains_key(lo as u64) {
            seq![flag_dup(s[lo as u64])]
        } else {
            Seq::<Seq<(u32, Seq<char>)>>::empty()
        };
        assert(replay_view(s, lo, hi) == head + (replay_view(s, lo + 1, hi - 1) + tail));
        assert(replay_view(s, lo, hi) =~= (head + replay_view(s, lo + 1, hi - 1)) + tail);
    }
}

/// A range whose end lies before its begin is empty and valid: replaying
/// it emits nothing, for every store.
pub proof fn lemma_replay_empty_range(s: Map<u64, Seq<(u32, Seq<char>)>>, lo: int, hi: int)
    requires
        hi < lo,
    ensures
        replay_view(s, lo, hi) == Seq::<Seq<(u32, Seq<char>)>>::empty(),
{
}

/// A replay emits exactly the stored part of the range: every emitted
/// message is the flagged copy of a stored entry whose number lies in the
/// range, and every stored entry of the range is emitted; a number the
/// store lacks contributes nothing.
pub proof fn lemma_replay_exactly_stored(s: Map<u64, Seq<(u32, Seq<char>)>>, lo: int, hi: int)
    requires
        0 <= lo,
        hi <= u64::MAX,
    ensures
        forall|k: int| 0 <= k < replay_view(s, lo, hi).len() ==> exists|n: u64|
            lo <= n <= hi && s.contains_key(n) && #[trigger] replay_view(s, lo, hi)[k] == flag_dup(
                s[n],
            ),
        forall|n: u64| lo <= n <= hi && #[trigger] s.contains_key(n) ==> replay_view(
            s,
            lo,
            hi,
        ).contains(flag_dup(s[n])),
    decreases hi + 1 - lo,
{
    if lo <= hi {
        lemma_replay_exactly_stored(s, lo + 1, hi);
        let whole = replay_view(s, lo, hi);
        let rest = replay_view(s, lo + 1, hi);
        let head = if s.contains_key(lo as u64) {
            seq![flag_dup(s[lo as u64])]
        } else {
            Seq::<Seq<(u32, Seq<char>)>>::empty()
        };
        assert(whole == head + rest);
        assert forall|k: int| 0 <= k < whole.len() implies exists|n: u64|
            lo <= n <= hi && s.contains_key(n) && #[trigger] whole[k] == flag_dup(s[n]) by {
            if k < head.len() {
                assert(whole[k] == flag_dup(s[lo as u64]));
                assert(lo <= lo as u64 <= hi && s.contains_key(lo as u64) && whole[k] == flag_dup(
                    s[lo as u64],
                ));
            } else {
                assert(whole[k] == rest[k - head.len()]);
                let n = choose|n: u64|
                    lo + 1 <= n <= hi && s.contains_key(n) && rest[k - head.len()] == flag_dup(
                        s[n],
                    );
                assert(lo <= n <= hi && s.contains_key(n) && whole[k] == flag_dup(s[n]));
            }
        }
        assert forall|n: u64| lo <= n <= hi && s.contains_key(n) implies whole.contains(
            flag_dup(s[n]),
        ) by {
            if n == lo as u64 {
                assert(whole[0] == flag_dup(s[n]));
            } else {
                assert(rest.contains(flag_dup(s[n])));
                let k = choose|k: int| 0 <= k < rest.len() && rest[k] == flag_dup(s[n]);
                assert(whole[k + head.len()] == flag_dup(s[n]));
            }
        }
    }
}

/// Flagging a replayed copy sets PossDupFlag to "Y" and changes no other
/// field; the copy is a new value, so the stored original is untouched.
pub proof fn lemma_flag_dup_fields(m: Seq<(u32, Seq<char>)>)
    ensures
        field_value(flag_dup(m), TAG_POSS_DUP_FLAG) == Some("Y"@),
        forall|t: u32| t != TAG_POSS_DUP_FLAG ==> field_value(flag_dup(m), t) == field_value(m, t),
{
    lemma_with_field_same(m, TAG_POSS_DUP_FLAG, "Y"@);
    assert forall|t: u32| t != TAG_POSS_DUP_FLAG implies field_value(flag_dup(m), t)
        == field_value(m, t) by {
        lemma_with_field_other(m, TAG_POSS_DUP_FLAG, "Y"@, t);
    }
}

/// Reads the range of a Resend Request. `None` means the request is
/// dropped: BeginSeqNo or EndSeqNo is missing or does not parse as an
/// unsigned 64-bit number.
pub fn parse_resend_request(m: &Message) -> (r: Option<ResendRequest>)
    ensures
        match r {
            Some(rr) => resend_range(m@) == Some((rr.begin, rr.end)),
            None => resend_range(m@) is None,
        },
{
    let begin_field = match m.get_field(TAG_BEGIN_SEQ_NO) {
        Some(v) => v,
        None => {
            return None;
        },
    };
    let end_field = match m.get_field(TAG_END_SEQ_NO) {
        Some(v) => v,
        None => {
            return None;
        },
    };
    let begin = match parse_u64(begin_field.as_str()) {
        Some(v) => v,
        None => {
            return None;
        },
    };
    let end = match parse_u64(end_field.as_str()) {
        Some(v) => v,
        None => {
            return None;
        },
    };
    Some(ResendRequest { begin, end })
}

/// Builds the replay for `[begin, end]`: for each sequence number in
/// ascending order, a copy of the stored message with PossDupFlag set to
/// "Y". A missing number is skipped outright: no SequenceReset/GapFill
/// substitute is synthesized for it, which deviates from what standard
/// FIX counterparties expect and is kept deliberately. A range with
/// `end < begin` yields nothing. The store is read, never changed.
pub fn build_replay(store: &MessageStore, begin: u64, end: u64) -> (r: Vec<Message>)
    ensures
        r@.map_values(|m: Message| m@) == replay_view(store@, begin as int, end as int),
{
    let mut out: Vec<Message> = Vec::new();
    if begin > end {
        proof {
            assert(out@.map_values(|m: Message| m@) =~= replay_view(
                store@,
                begin as int,
                end as int,
            ));
        }
        return out;
    }
    let mut n: u64 = begin;
    loop
        invariant_except_break
            begin <= n <= end,
            out@.map_values(|m: Message| m@) == replay_view(store@, begin as int, n as int - 1),
        ensures
            out@.map_values(|m: Message| m@) == replay_view(store@, begin as int, end as int),
        decreases end - n,
    {
        match store.lookup(n) {
            Some(stored) => {
                let mut copy = stored;
                copy.set_field(TAG_POSS_DUP_FLAG, "Y".to_owned());
                out.push(copy);
            },
            None => {},
        }
        proof {
            lemma_replay_view_snoc(store@, begin as int, n as int);
            assert(out@.map_values(|m: Message| m@) =~= replay_view(
                store@,
                begin as int,
                n as int,
            ));
        }
        if n == end {
            break;
        }
        n = n + 1;
    }
    out
}

} // verus!
