//! The listening side of a probe session: what is done with each thing that
//! a read of the socket, or the session's stop signal, brings.

use crate::error::{ParseError, SocketFault};
use crate::extract::{outcome_view, parse_bytes, reply_of};
use crate::probe_match::{ProbeMatch, ProbeMatchView};
use vstd::prelude::*;

verus! {

/// What one turn of the listener brings.
#[derive(Debug)]
pub enum Heard<'a> {
    /// The session has asked the listener to stop.
    Stop,
    /// A datagram was read.
    Datagram(&'a [u8]),
    /// The read gave nothing, for the reason told.
    Failed(SocketFault),
}

/// The mathematical value of a [`Heard`].
pub enum HeardView {
    Stop,
    Datagram(Seq<u8>),
    Failed(SocketFault),
}

impl<'a> View for Heard<'a> {
    type V = HeardView;

    open spec fn view(&self) -> HeardView {
        match self {
            Heard::Stop => HeardView::Stop,
            Heard::Datagram(bytes) => HeardView::Datagram(bytes@),
            Heard::Failed(fault) => HeardView::Failed(*fault),
        }
    }
}

/// What the listener does with it.
#[derive(Debug)]
pub enum Reaction {
    /// Send the result of reading the reply to the session, and read on.
    Forward(Result<ProbeMatch, ParseError>),
    /// Read on.
    Again,
    /// Report the failed read, and read on.
    Complain,
    /// Leave the loop. Dropping the channel tells the session.
    Leave,
}

/// The mathematical value of a [`Reaction`].
pub enum ReactionView {
    Forward(Result<ProbeMatchView, ParseError>),
    Again,
    Complain,
    Leave,
}

impl View for Reaction {
    type V = ReactionView;

    open spec fn view(&self) -> ReactionView {
        match self {
            Reaction::Forward(outcome) => ReactionView::Forward(outcome_view(*outcome)),
            Reaction::Again => ReactionView::Again,
            Reaction::Complain => ReactionView::Complain,
            Reaction::Leave => ReactionView::Leave,
        }
    }
}

/// The listener's rule. Every datagram is answered with a result, whatever
/// it holds: one that cannot be read is forwarded as such, and the listener
/// goes on. A read that times out is no failure; one that fails otherwise is
/// reported. Only the stop signal and a socket that is of no use any more
/// end the loop.
pub open spec fn reaction_to(heard: HeardView) -> ReactionView {
    match heard {
        HeardView::Stop => ReactionView::Leave,
        HeardView::Datagram(bytes) => ReactionView::Forward(reply_of(bytes)),
        HeardView::Failed(fault) => if fault is TimedOut {
            ReactionView::Again
        } else if fault.passing() {
            ReactionView::Complain
        } else {
            ReactionView::Leave
        },
    }
}

/// Decides what the listener does with what one turn brought.
pub fn react(heard: Heard<'_>) -> (r: Reaction)
    ensures
        r@ == reaction_to(heard@),
{
    match heard {
        Heard::Stop => Reaction::Leave,
        Heard::Datagram(bytes) => Reaction::Forward(parse_bytes(bytes)),
        Heard::Failed(fault) => match fault {
            SocketFault::TimedOut => Reaction::Again,
            SocketFault::Interrupted => Reaction::Complain,
            SocketFault::Refused => Reaction::Complain,
            SocketFault::Other => Reaction::Leave,
        },
    }
}

/// No datagram makes the listener leave or fail: it forwards and reads on.
pub proof fn lemma_no_datagram_stops_the_listener(bytes: Seq<u8>)
    ensures
        reaction_to(HeardView::Datagram(bytes)) is Forward,
{
}

} // verus!
