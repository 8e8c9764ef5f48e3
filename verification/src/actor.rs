use vstd::prelude::*;
use crate::message::Message;

verus! {

/// Capacity of a room's history buffer: the number of backlog messages a
/// joining participant is replayed.
pub const HISTORY_CAP: usize = 10;

/// The history after a message arrives: appended at the end, evicting the
/// oldest entry when the buffer is at capacity.
pub open spec fn spec_hist_push(h: Seq<Message>, m: Message) -> Seq<Message> {
    if h.len() < HISTORY_CAP {
        h.push(m)
    } else {
        h.subrange(1, h.len() as int).push(m)
    }
}

/// The history that results from posting the messages of `ms`, in order,
/// into a room whose history was `h`.
pub open spec fn spec_hist_fold(h: Seq<Message>, ms: Seq<Message>) -> Seq<Message>
    decreases ms.len(),
{
    if ms.len() == 0 {
        h
    } else {
        spec_hist_fold(spec_hist_push(h, ms[0]), ms.subrange(1, ms.len() as int))
    }
}

/// The most recent `HISTORY_CAP` entries of `s` (all of them when it is
/// shorter), in order.
pub open spec fn spec_last_cap(s: Seq<Message>) -> Seq<Message> {
    if s.len() <= HISTORY_CAP {
        s
    } else {
        s.subrange(s.len() - HISTORY_CAP, s.len() as int)
    }
}

/// The connections a broadcast pass leaves on the roster: exactly those
/// whose send succeeded, in their old order; `ok[i]` reports the send to
/// roster position `i`.
pub open spec fn keep_flagged<C>(s: Seq<C>, ok: Seq<bool>) -> Seq<C>
    decreases s.len(),
{
    if s.len() == 0 {
        Seq::empty()
    } else if ok[0] {
        seq![s[0]] + keep_flagged(s.subrange(1, s.len() as int), ok.subrange(1, ok.len() as int))
    } else {
        keep_flagged(s.subrange(1, s.len() as int), ok.subrange(1, ok.len() as int))
    }
}

/// The single-threaded owner of one room's state: the bounded history of
/// recent messages and the ordered roster of live participant connections,
/// `C` being the transport's connection handle. The surrounding event loop
/// feeds it one event at a time — a join or a posted message — performs the
/// sends it calls for, and reports their outcomes back; this type alone
/// decides what the history and the roster become.
pub struct RoomActor<C> {
    msgs: Vec<Message>,
    conns: Vec<C>,
}

impl<C> RoomActor<C> {
    /// The history: at most `HISTORY_CAP` most recent messages, oldest first.
    pub closed spec fn history(&self) -> Seq<Message> {
        self.msgs@
    }

    /// The roster: the live connections, in join order.
    pub closed spec fn roster(&self) -> Seq<C> {
        self.conns@
    }

    pub open spec fn wf(&self) -> bool {
        self.history().len() <= HISTORY_CAP
    }

    /// A fresh room: empty roster, empty history.
    pub fn new() -> (a: RoomActor<C>)
        ensures
            a.wf(),
            a.history() == Seq::<Message>::empty(),
            a.roster() == Seq::<C>::empty(),
    {
        RoomActor { msgs: Vec::new(), conns: Vec::new() }
    }

    pub fn history_len(&self) -> (n: usize)
        ensures
            n == self.history().len(),
    {
        self.msgs.len()
    }

    /// The backlog message to replay at position `i`, oldest first.
    pub fn history_at(&self, i: usize) -> (m: &Message)
        requires
            i < self.history().len(),
        ensures
            *m == self.history()[i as int],
    {
        &self.msgs[i]
    }

    pub fn roster_len(&self) -> (n: usize)
        ensures
            n == self.roster().len(),
    {
        self.conns.len()
    }

    /// The connection a broadcast reaches at position `i`, in join order.
    pub fn roster_at(&self, i: usize) -> (c: &C)
        requires
            i < self.roster().len(),
        ensures
            *c == self.roster()[i as int],
    {
        &self.conns[i]
    }

    /// A participant joined. The caller has already replayed the history to
    /// `conn`, oldest first; `replay_ok` says whether every backlog send
    /// succeeded. On success the connection is appended to the roster; on a
    /// failed send it is discarded and nothing changes.
    pub fn on_join(&mut self, conn: C, replay_ok: bool)
        ensures
            final(self).history() == old(self).history(),
            replay_ok ==> final(self).roster() == old(self).roster().push(conn),
            !replay_ok ==> final(self).roster() == old(self).roster(),
    {
        if replay_ok {
            self.conns.push(conn);
        }
    }

    /// A message was posted: it enters the history, evicting the oldest
    /// entry when the buffer is full. The roster is untouched; the caller
    /// then sends the encoded message to every roster member, in order.
    pub fn on_post(&mut self, m: Message)
        requires
            old(self).wf(),
        ensures
            final(self).wf(),
            final(self).history() == spec_hist_push(old(self).history(), m),
            final(self).roster() == old(self).roster(),
    {
        if self.msgs.len() == HISTORY_CAP {
            self.msgs.remove(0);
            proof {
                assert(self.msgs@ =~= old(self).history().subrange(
                    1,
                    old(self).history().len() as int,
                ));
            }
        }
        self.msgs.push(m);
        proof {
            assert(self.history() =~= spec_hist_push(old(self).history(), m));
        }
    }

    /// Ends a broadcast pass: `ok[i]` reports whether the send to roster
    /// position `i` succeeded. Every connection whose send failed is
    /// removed — a failed send is a permanent disconnect — and the
    /// survivors keep their order. The history is untouched, and no error
    /// is surfaced anywhere.
    pub fn retain_delivered(&mut self, ok: &Vec<bool>)
        requires
            ok@.len() == old(self).roster().len(),
        ensures
            final(self).history() == old(self).history(),
            final(self).roster() == keep_flagged(old(self).roster(), ok@),
    {
        let ghost s = self.conns@;
        let ghost n = self.conns@.len() as int;
        let mut i = self.conns.len();
        while i > 0
            invariant
                0 <= i <= n,
                n == s.len(),
                ok@.len() == n,
                self.msgs@ == old(self).history(),
                self.conns@ == s.subrange(0, i as int) + keep_flagged(
                    s.subrange(i as int, n),
                    ok@.subrange(i as int, n),
                ),
            decreases i,
        {
            proof {
                assert(s.subrange(i - 1, n).subrange(1, n - (i - 1)) =~= s.subrange(i as int, n));
                assert(ok@.subrange(i - 1, n).subrange(1, n - (i - 1)) =~= ok@.subrange(
                    i as int,
                    n,
                ));
                assert(s.subrange(i - 1, n)[0] == s[i - 1]);
                assert(ok@.subrange(i - 1, n)[0] == ok@[i - 1]);
            }
            if !ok[i - 1] {
                self.conns.remove(i - 1);
            }
            proof {
                assert(self.conns@ =~= s.subrange(0, i - 1) + keep_flagged(
                    s.subrange(i - 1, n),
                    ok@.subrange(i - 1, n),
                ));
            }
            i = i - 1;
        }
        proof {
            assert(s.subrange(0, n) =~= s);
            assert(ok@.subrange(0, n) =~= ok@);
            assert(self.conns@ =~= keep_flagged(s, ok@));
        }
    }
}

/// Reordering-free eviction: posting any run of messages into a room whose
/// history respects the capacity leaves exactly the most recent
/// `HISTORY_CAP` of everything posted, in arrival order. A participant
/// joining then is replayed exactly that suffix, oldest first.
pub proof fn lemma_history_is_recent_suffix(h: Seq<Message>, ms: Seq<Message>)
    requires
        h.len() <= HISTORY_CAP,
    ensures
        spec_hist_fold(h, ms) == spec_last_cap(h + ms),
    decreases ms.len(),
{
    if ms.len() == 0 {
        assert(h + ms =~= h);
    } else {
        let m0 = ms[0];
        let rest = ms.subrange(1, ms.len() as int);
        let h1 = spec_hist_push(h, m0);
        assert(h1 =~= spec_last_cap(h + seq![m0])) by {
            if h.len() < HISTORY_CAP {
                assert(h.push(m0) =~= h + seq![m0]);
            } else {
                assert(h.subrange(1, h.len() as int).push(m0) =~= (h + seq![m0]).subrange(
                    1,
                    h.len() as int + 1,
                ));
            }
        }
        lemma_history_is_recent_suffix(h1, rest);
        lemma_last_cap_absorb(h + seq![m0], rest);
        assert((h + seq![m0]) + rest =~= h + ms);
    }
}

/// Backlog law: after twelve messages are posted, in order, into a fresh
/// room, a joining participant is replayed exactly the third through the
/// twelfth, in that order — and nothing further until a new post, since a
/// join leaves the history untouched.
pub proof fn lemma_backlog_after_twelve_posts(ms: Seq<Message>)
    requires
        ms.len() == 12,
    ensures
        spec_hist_fold(Seq::empty(), ms) == ms.subrange(2, 12),
{
    lemma_history_is_recent_suffix(Seq::empty(), ms);
    assert(Seq::empty() + ms =~= ms);
    assert(spec_last_cap(ms) =~= ms.subrange(2, 12));
}

/// Keeping only the most recent `HISTORY_CAP` entries before appending more
/// does not change which entries are the most recent afterwards.
proof fn lemma_last_cap_absorb(x: Seq<Message>, y: Seq<Message>)
    ensures
        spec_last_cap(spec_last_cap(x) + y) == spec_last_cap(x + y),
{
    if x.len() <= HISTORY_CAP {
        assert(spec_last_cap(x) + y =~= x + y);
    } else {
        let k = x.len() - HISTORY_CAP;
        assert(spec_last_cap(x) + y =~= (x + y).subrange(k as int, (x + y).len() as int));
        assert(spec_last_cap(spec_last_cap(x) + y) =~= spec_last_cap(x + y));
    }
}

/// Join order is broadcast order: after `c1` joins and then `c2` joins,
/// `c1` stands at the earlier roster position, and a broadcast walks the
/// roster front to back, so `c1` is sent to before `c2`.
pub proof fn lemma_join_then_broadcast_order<C>(r: Seq<C>, c1: C, c2: C)
    ensures
        r.push(c1).push(c2)[r.len() as int] == c1,
        r.push(c1).push(c2)[r.len() as int + 1] == c2,
{
}

/// A roster whose sends all succeed is kept whole and in order.
pub proof fn lemma_all_delivered_keeps_roster<C>(s: Seq<C>, ok: Seq<bool>)
    requires
        ok.len() == s.len(),
        forall|i: int| 0 <= i < ok.len() ==> ok[i],
    ensures
        keep_flagged(s, ok) == s,
    decreases s.len(),
{
    if s.len() > 0 {
        lemma_all_delivered_keeps_roster(
            s.subrange(1, s.len() as int),
            ok.subrange(1, ok.len() as int),
        );
        assert(keep_flagged(s, ok) =~= s);
    } else {
        assert(keep_flagged(s, ok) =~= s);
    }
}

/// A failed send removes exactly the failing connection: when the send to
/// the first roster member fails and the rest succeed, later broadcasts
/// reach exactly the remaining members, in their old order — and the
/// poster is told nothing of it.
pub proof fn lemma_failed_send_leaves_rest<C>(s: Seq<C>, ok: Seq<bool>)
    requires
        ok.len() == s.len(),
        s.len() >= 1,
        !ok[0],
        forall|i: int| 1 <= i < ok.len() ==> ok[i],
    ensures
        keep_flagged(s, ok) == s.subrange(1, s.len() as int),
{
    lemma_all_delivered_keeps_roster(s.subrange(1, s.len() as int), ok.subrange(1, ok.len() as int));
}

} // verus!
