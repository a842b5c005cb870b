//! The collecting side of a probe session: which replies are kept, and when
//! the session is over.
//!
//! The session itself waits on a channel; what it does with each thing that
//! comes out of the channel is decided here.

use crate::error::{ParseError, ProbeError};
use crate::extract::{extract, outcome_view};
use crate::probe_match::{ProbeMatch, ProbeMatchView};
use crate::xml::xml_events;
use vstd::prelude::*;

verus! {

/// What the session gets when it waits on the listener's channel.
#[derive(Debug)]
pub enum Arrival {
    /// A reply came in and was read, with or without success.
    Reply(Result<ProbeMatch, ParseError>),
    /// Nothing came in for as long as the session is willing to wait.
    Quiet,
    /// The listener has gone and the channel is closed.
    Closed,
    /// The sending side has lost the socket.
    SocketLost,
}

/// The mathematical value of an [`Arrival`].
pub enum ArrivalView {
    Reply(Result<ProbeMatchView, ParseError>),
    Quiet,
    Closed,
    SocketLost,
}

impl View for Arrival {
    type V = ArrivalView;

    open spec fn view(&self) -> ArrivalView {
        match self {
            Arrival::Reply(outcome) => ArrivalView::Reply(outcome_view(*outcome)),
            Arrival::Quiet => ArrivalView::Quiet,
            Arrival::Closed => ArrivalView::Closed,
            Arrival::SocketLost => ArrivalView::SocketLost,
        }
    }
}

/// What the session does next.
#[derive(Debug, Clone, Copy, PartialEq, Eq, Structural)]
pub enum Verdict {
    /// Wait for the next arrival.
    Wait,
    /// Stop the listener and hand out what was found.
    Finished,
    /// Stop the listener and fail.
    Failed(ProbeError),
}

/// `found` with `reply` added at its end, unless it holds `reply` already.
pub open spec fn noted(found: Seq<ProbeMatchView>, reply: ProbeMatchView) -> Seq<ProbeMatchView> {
    if found.contains(reply) {
        found
    } else {
        found.push(reply)
    }
}

/// The records that are kept of `replies`: each one once, in the order of
/// their first arrival.
pub open spec fn gathered(replies: Seq<ProbeMatchView>) -> Seq<ProbeMatchView>
    decreases replies.len(),
{
    if replies.len() == 0 {
        Seq::empty()
    } else {
        noted(gathered(replies.drop_last()), replies.last())
    }
}

/// The state of the collecting side.
pub struct CollectorView {
    /// The records kept so far.
    pub found: Seq<ProbeMatchView>,
    /// Whether any reply has come through the channel.
    pub heard: bool,
    /// The number of distinct records at which the session ends, if any.
    pub limit: Option<usize>,
}

impl CollectorView {
    /// Before anything has arrived.
    pub open spec fn start(limit: Option<usize>) -> CollectorView {
        CollectorView { found: Seq::empty(), heard: false, limit }
    }

    /// Whether as many records are kept as the session asks for.
    pub open spec fn full(self) -> bool {
        self.limit matches Some(n) && self.found.len() >= n
    }

    /// The state after `arrival`.
    ///
    /// A reply that was read with success is kept unless it is kept already;
    /// one that was not is dropped. Nothing else changes what is kept.
    pub open spec fn after(self, arrival: ArrivalView) -> CollectorView {
        match arrival {
            ArrivalView::Reply(Ok(reply)) => CollectorView {
                found: noted(self.found, reply),
                heard: true,
                ..self
            },
            ArrivalView::Reply(Err(_)) => CollectorView { heard: true, ..self },
            ArrivalView::Quiet => self,
            ArrivalView::Closed => self,
            ArrivalView::SocketLost => self,
        }
    }

    /// What the session does after `arrival`.
    ///
    /// It ends when it is full, when nothing came in for long enough, and
    /// when the channel is closed. A channel closed before any reply came
    /// through is a fault, and so is a socket lost while sending; quiet is
    /// not, even with nothing found.
    pub open spec fn verdict(self, arrival: ArrivalView) -> Verdict {
        match arrival {
            ArrivalView::Reply(_) => if self.after(arrival).full() {
                Verdict::Finished
            } else {
                Verdict::Wait
            },
            ArrivalView::Quiet => Verdict::Finished,
            ArrivalView::Closed => if self.heard {
                Verdict::Finished
            } else {
                Verdict::Failed(ProbeError::Channel)
            },
            ArrivalView::SocketLost => Verdict::Failed(ProbeError::Socket),
        }
    }

    /// The state after all of `arrivals`, in their order.
    pub open spec fn after_all(self, arrivals: Seq<ArrivalView>) -> CollectorView
        decreases arrivals.len(),
    {
        if arrivals.len() == 0 {
            self
        } else {
            self.after_all(arrivals.drop_last()).after(arrivals.last())
        }
    }

    /// What the session returns when it ends with `verdict`.
    pub open spec fn result(self, verdict: Verdict) -> Result<Seq<ProbeMatchView>, ProbeError> {
        match verdict {
            Verdict::Failed(e) => Err(e),
            _ => Ok(self.found),
        }
    }
}

/// The records of a session: no two of them are equal.
#[derive(Debug)]
pub struct Collector {
    found: Vec<ProbeMatch>,
    heard: bool,
    limit: Option<usize>,
}

impl View for Collector {
    type V = CollectorView;

    closed spec fn view(&self) -> CollectorView {
        CollectorView { found: self.found.deep_view(), heard: self.heard, limit: self.limit }
    }
}

impl Collector {
    #[verifier::type_invariant]
    spec fn keeps_each_once(self) -> bool {
        self.found.deep_view().no_duplicates()
    }

    /// A collector that has seen nothing. With a `limit` the session ends
    /// as soon as that many distinct records are kept.
    pub fn new(limit: Option<usize>) -> (r: Self)
        ensures
            r@ == CollectorView::start(limit),
    {
        let r = Collector { found: Vec::new(), heard: false, limit };
        assert(r.found.deep_view() =~= Seq::<ProbeMatchView>::empty());
        r
    }

    /// Whether `reply` is kept already.
    pub fn holds(&self, reply: &ProbeMatch) -> (r: bool)
        ensures
            r == self@.found.contains(reply@),
    {
        let mut i: usize = 0;
        while i < self.found.len()
            invariant
                i <= self.found.len(),
                forall|k: int| 0 <= k < i ==> self.found.deep_view()[k] != reply@,
            decreases self.found.len() - i,
        {
            if self.found[i] == *reply {
                assert(self.found.deep_view()[i as int] == reply@);
                return true;
            }
            i += 1;
        }
        false
    }

    /// Keeps `reply` unless it is kept already, and tells whether it is new.
    pub fn note(self, reply: ProbeMatch) -> (r: (Self, bool))
        ensures
            r.1 == !self@.found.contains(reply@),
            r.0@ == (CollectorView { found: noted(self@.found, reply@), ..self@ }),
            r.0@.found.no_duplicates(),
    {
        proof {
            use_type_invariant(&self);
        }
        if self.holds(&reply) {
            (self, false)
        } else {
            let ghost before = self.found.deep_view();
            let mut found = self.found;
            found.push(reply);
            assert(found.deep_view() =~= before.push(reply@));
            (Collector { found, heard: self.heard, limit: self.limit }, true)
        }
    }

    /// Whether as many records are kept as the session asks for.
    pub fn full(&self) -> (r: bool)
        ensures
            r == self@.full(),
    {
        match self.limit {
            Some(n) => self.found.len() >= n,
            None => false,
        }
    }

    /// Takes what came out of the channel and says what the session does
    /// next.
    pub fn take(self, arrival: Arrival) -> (r: (Self, Verdict))
        ensures
            r.0@ == self@.after(arrival@),
            r.1 == self@.verdict(arrival@),
            r.0@.found.no_duplicates(),
    {
        proof {
            use_type_invariant(&self);
        }
        match arrival {
            Arrival::Reply(Ok(reply)) => {
                let (kept, _) = self.note(reply);
                let next = Collector { found: kept.found, heard: true, limit: kept.limit };
                let verdict = next.verdict_when_heard();
                (next, verdict)
            },
            Arrival::Reply(Err(_)) => {
                let next = Collector { found: self.found, heard: true, limit: self.limit };
                let verdict = next.verdict_when_heard();
                (next, verdict)
            },
            Arrival::Quiet => (self, Verdict::Finished),
            Arrival::Closed => {
                let verdict = if self.heard {
                    Verdict::Finished
                } else {
                    Verdict::Failed(ProbeError::Channel)
                };
                (self, verdict)
            },
            Arrival::SocketLost => (self, Verdict::Failed(ProbeError::Socket)),
        }
    }

    fn verdict_when_heard(&self) -> (r: Verdict)
        ensures
            r == if self@.full() {
                Verdict::Finished
            } else {
                Verdict::Wait
            },
    {
        if self.full() {
            Verdict::Finished
        } else {
            Verdict::Wait
        }
    }

    /// The number of records kept.
    pub fn len(&self) -> (r: usize)
        ensures
            r == self@.found.len(),
    {
        self.found.len()
    }

    /// The records kept, in the order of their first arrival.
    pub fn matches(&self) -> (r: &Vec<ProbeMatch>)
        ensures
            r.deep_view() == self@.found,
            r.deep_view().no_duplicates(),
    {
        proof {
            use_type_invariant(self);
        }
        &self.found
    }

    /// What the session returns when it ends with `verdict`.
    pub fn conclude(self, verdict: Verdict) -> (r: Result<Vec<ProbeMatch>, ProbeError>)
        ensures
            match self@.result(verdict) {
                Ok(found) => r is Ok && r->Ok_0.deep_view() == found && found.no_duplicates(),
                Err(e) => r == Err::<Vec<ProbeMatch>, ProbeError>(e),
            },
    {
        proof {
            use_type_invariant(&self);
        }
        match verdict {
            Verdict::Failed(e) => Err(e),
            _ => Ok(self.found),
        }
    }
}

/// However often one reply arrives, it is kept once.
pub proof fn lemma_repeated_reply_is_kept_once(reply: ProbeMatchView, times: nat)
    requires
        times >= 1,
    ensures
        gathered(Seq::new(times, |i: int| reply)) == seq![reply],
    decreases times,
{
    let replies = Seq::new(times, |i: int| reply);
    assert(replies.last() == reply);
    if times == 1 {
        assert(replies.drop_last() == Seq::<ProbeMatchView>::empty());
        assert(gathered(replies.drop_last()) == Seq::<ProbeMatchView>::empty());
        assert(Seq::<ProbeMatchView>::empty().push(reply) == seq![reply]);
    } else {
        assert(replies.drop_last() == Seq::new((times - 1) as nat, |i: int| reply));
        lemma_repeated_reply_is_kept_once(reply, (times - 1) as nat);
        assert(seq![reply][0] == reply);
    }
}

/// What is kept of any replies holds no record twice, and holds exactly the
/// records that arrived.
pub proof fn lemma_gathered_is_the_set(replies: Seq<ProbeMatchView>)
    ensures
        gathered(replies).no_duplicates(),
        forall|m: ProbeMatchView|
            #![trigger gathered(replies).contains(m)]
            #![trigger replies.contains(m)]
            gathered(replies).contains(m) <==> replies.contains(m),
    decreases replies.len(),
{
    if replies.len() > 0 {
        let before = replies.drop_last();
        let last = replies.last();
        lemma_gathered_is_the_set(before);
        let kept = gathered(before);
        assert forall|m: ProbeMatchView| gathered(replies).contains(m) <==> replies.contains(
            m,
        ) by {
            assert(kept.contains(m) <==> before.contains(m));
            if gathered(replies).contains(m) {
                if kept.contains(m) {
                    let i = choose|i: int| 0 <= i < before.len() && before[i] == m;
                    assert(replies[i] == m);
                } else {
                    let i = choose|i: int|
                        0 <= i < gathered(replies).len() && gathered(replies)[i] == m;
                    assert(m == last);
                    assert(replies[replies.len() - 1] == m);
                }
            }
            if replies.contains(m) {
                let i = choose|i: int| 0 <= i < replies.len() && replies[i] == m;
                if i < before.len() {
                    assert(before[i] == m);
                    assert(kept.contains(m));
                    let k = choose|k: int| 0 <= k < kept.len() && kept[k] == m;
                    assert(noted(kept, last)[k] == m);
                } else {
                    assert(m == last);
                    if !kept.contains(last) {
                        assert(kept.push(last)[kept.len() as int] == m);
                    }
                }
            }
        }
    }
}

/// A session in which nothing arrives before the wait is over ends without
/// a fault and with nothing found.
pub proof fn lemma_quiet_session_finds_nothing(limit: Option<usize>)
    ensures
        CollectorView::start(limit).verdict(ArrivalView::Quiet) == Verdict::Finished,
        CollectorView::start(limit).after(ArrivalView::Quiet).result(Verdict::Finished) == Ok::<
            Seq<ProbeMatchView>,
            ProbeError,
        >(Seq::empty()),
{
}

/// The successful replies that came in are kept as [`gathered`] says.
pub proof fn lemma_found_is_gathered(limit: Option<usize>, replies: Seq<ProbeMatchView>)
    ensures
        CollectorView::start(limit).after_all(
            Seq::new(replies.len(), |i: int| ArrivalView::Reply(Ok(replies[i]))),
        ).found == gathered(replies),
    decreases replies.len(),
{
    let arrivals = Seq::new(replies.len(), |i: int| ArrivalView::Reply(Ok(replies[i])));
    if replies.len() > 0 {
        let before = replies.drop_last();
        assert(arrivals.drop_last() == Seq::new(
            before.len(),
            |i: int| ArrivalView::Reply(Ok(before[i])),
        ));
        assert(arrivals.last() == ArrivalView::Reply(Ok(replies.last())));
        lemma_found_is_gathered(limit, before);
    }
}

/// The same text of a reply, read and taken any number of times, leaves one
/// record where it can be read, and none where it cannot.
pub proof fn lemma_same_text_counts_once(limit: Option<usize>, text: Seq<char>, times: nat)
    requires
        times >= 1,
    ensures
        CollectorView::start(limit).after_all(
            Seq::new(times, |i: int| ArrivalView::Reply(extract(xml_events(text)))),
        ).found == match extract(xml_events(text)) {
            Ok(reply) => seq![reply],
            Err(_) => Seq::empty(),
        },
    decreases times,
{
    let outcome = extract(xml_events(text));
    let arrivals = Seq::new(times, |i: int| ArrivalView::Reply(outcome));
    let start = CollectorView::start(limit);
    assert(arrivals.last() == ArrivalView::Reply(outcome));
    if times == 1 {
        assert(arrivals.drop_last() == Seq::<ArrivalView>::empty());
        assert(start.after_all(arrivals.drop_last()) == start);
        assert(Seq::<ProbeMatchView>::empty().push(outcome->Ok_0) == seq![outcome->Ok_0]);
    } else {
        assert(arrivals.drop_last() == Seq::new(
            (times - 1) as nat,
            |i: int| ArrivalView::Reply(outcome),
        ));
        lemma_same_text_counts_once(limit, text, (times - 1) as nat);
        if outcome is Ok {
            assert(seq![outcome->Ok_0][0] == outcome->Ok_0);
        }
    }
}

} // verus!
