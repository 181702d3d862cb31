//! The conversation orchestrator: a finite state machine driving the
//! send, inspect, dispatch, append, resend loop.  The turn sequence
//! only ever grows by appending; the caller supplies an iteration
//! bound, and the machine makes an unbounded tool-calling loop
//! structurally impossible.

use vstd::prelude::*;

use crate::message::Content;
use crate::message::ContentV;
use crate::message::Contents;
use crate::request::ApiRequestError;

verus! {

/// Where the loop stands.
#[derive(Debug, Clone, Copy, PartialEq, Eq, Structural)]
pub enum Phase {
    /// A request is out, or may be sent.
    Awaiting,
    /// The model answered without function calls: terminal success.
    Finished,
    /// The iteration bound was exceeded: terminal failure.
    Exceeded,
}

/// Model of a conversation.
pub struct ConvoV {
    pub turns: Seq<ContentV>,
    pub iterations: int,
    pub max: int,
    pub phase: Phase,
}

/// One tool-calling round: the model's own turn and the tool-result
/// turn are appended in that order, the counter grows by one, and the
/// loop fails exactly when the counter passes the bound.
pub open spec fn tool_step(s: ConvoV, model_turn: ContentV, tool_turn: ContentV) -> ConvoV {
    if s.phase != Phase::Awaiting {
        s
    } else {
        ConvoV {
            turns: s.turns.push(model_turn).push(tool_turn),
            iterations: s.iterations + 1,
            max: s.max,
            phase: if s.iterations + 1 > s.max {
                Phase::Exceeded
            } else {
                Phase::Awaiting
            },
        }
    }
}

/// A response without function calls ends the loop successfully.
pub open spec fn finish_step(s: ConvoV) -> ConvoV {
    if s.phase != Phase::Awaiting {
        s
    } else {
        ConvoV { turns: s.turns, iterations: s.iterations, max: s.max, phase: Phase::Finished }
    }
}

/// Repeated tool-calling rounds, one per turn pair.
pub open spec fn tool_steps(s: ConvoV, rounds: Seq<(ContentV, ContentV)>) -> ConvoV
    decreases rounds.len(),
{
    if rounds.len() == 0 {
        s
    } else {
        tool_steps(tool_step(s, rounds[0].0, rounds[0].1), rounds.drop_first())
    }
}

/// Law: as long as the bound is not reached, the loop keeps going and
/// counts exactly one iteration per round, with both turns of every
/// round appended in order.
pub proof fn lemma_loop_runs(s: ConvoV, rounds: Seq<(ContentV, ContentV)>)
    requires
        s.phase == Phase::Awaiting,
        s.iterations + rounds.len() <= s.max,
    ensures
        tool_steps(s, rounds).phase == Phase::Awaiting,
        tool_steps(s, rounds).iterations == s.iterations + rounds.len(),
        tool_steps(s, rounds).max == s.max,
        tool_steps(s, rounds).turns.len() == s.turns.len() + 2 * rounds.len(),
    decreases rounds.len(),
{
    if rounds.len() > 0 {
        lemma_loop_runs(tool_step(s, rounds[0].0, rounds[0].1), rounds.drop_first());
    }
}

/// Law: a conversation in which the model keeps requesting tools halts
/// exactly when the configured bound is passed: once the rounds
/// outnumber the iterations the bound still allows, the machine is in
/// the terminal `Exceeded` phase, and it never leaves it.
pub proof fn lemma_loop_exceeded(s: ConvoV, rounds: Seq<(ContentV, ContentV)>)
    requires
        s.phase == Phase::Awaiting,
        s.iterations <= s.max,
        s.iterations + rounds.len() > s.max,
    ensures
        tool_steps(s, rounds).phase == Phase::Exceeded,
    decreases rounds.len(),
{
    if s.iterations == s.max {
        let s1 = tool_step(s, rounds[0].0, rounds[0].1);
        assert(s1.phase == Phase::Exceeded);
        lemma_terminal_stays(s1, rounds.drop_first());
    } else {
        lemma_loop_exceeded(tool_step(s, rounds[0].0, rounds[0].1), rounds.drop_first());
    }
}

/// A terminal phase never changes, whatever else happens.
pub proof fn lemma_terminal_stays(s: ConvoV, rounds: Seq<(ContentV, ContentV)>)
    requires
        s.phase != Phase::Awaiting,
    ensures
        tool_steps(s, rounds) == s,
    decreases rounds.len(),
{
    if rounds.len() > 0 {
        lemma_terminal_stays(s, rounds.drop_first());
    }
}

/// The conversation state owned by the caller: the turn sequence, the
/// iteration counter, and the caller-supplied bound.
#[derive(Debug)]
pub struct Conversation {
    pub contents: Contents,
    pub iterations: u64,
    pub max_iterations: u64,
    pub phase: Phase,
}

impl Conversation {
    /// The mathematical model of this conversation.
    pub open spec fn deep(self) -> ConvoV {
        ConvoV {
            turns: self.contents.deep(),
            iterations: self.iterations as int,
            max: self.max_iterations as int,
            phase: self.phase,
        }
    }

    /// A fresh conversation over the given turns, awaiting the model.
    pub fn new(initial: Contents, max_iterations: u64) -> (r: Conversation)
        ensures
            r.deep() == (ConvoV {
                turns: initial.deep(),
                iterations: 0,
                max: max_iterations as int,
                phase: Phase::Awaiting,
            }),
    {
        Conversation { contents: initial, iterations: 0, max_iterations, phase: Phase::Awaiting }
    }

    /// Records a response without function calls: terminal success.
    pub fn finish(&mut self)
        ensures
            final(self).deep() == finish_step(old(self).deep()),
    {
        if matches!(self.phase, Phase::Awaiting) {
            self.phase = Phase::Finished;
        }
    }

    /// Records one tool-calling round: the model's turn and the
    /// tool-result turn are appended in order and the counter grows.
    /// The error reports the iteration count exactly when the round
    /// passed the bound.
    pub fn record_round(&mut self, model_turn: Content, tool_turn: Content) -> (r: Result<
        (),
        ApiRequestError,
    >)
        requires
            old(self).deep().phase == Phase::Awaiting,
            old(self).iterations < u64::MAX,
        ensures
            final(self).deep() == tool_step(
                old(self).deep(),
                model_turn.deep(),
                tool_turn.deep(),
            ),
            r matches Err(e) ==> (e matches ApiRequestError::LoopIterationExceeded { iterations }
                && iterations == final(self).iterations && final(self).deep().phase
                == Phase::Exceeded),
            r is Ok ==> final(self).deep().phase == Phase::Awaiting,
    {
        let ghost v0 = self.contents.0;
        let ghost c0 = self.contents.deep();
        self.contents.push(model_turn);
        proof {
            crate::message::lemma_contents_deep_from(self.contents.0, 0);
            crate::message::lemma_contents_deep_from(v0, 0);
            assert forall|m: int| 0 <= m < self.contents.0@.len() implies self.contents.deep()[m]
                == c0.push(model_turn.deep())[m] by {
                assert(self.contents.deep()[m] == self.contents.0@[m].deep());
                if m < c0.len() {
                    assert(c0[m] == v0@[m].deep());
                }
            }
            assert(self.contents.deep() =~= c0.push(model_turn.deep()));
        }
        let ghost v1 = self.contents.0;
        let ghost c1 = self.contents.deep();
        self.contents.push(tool_turn);
        proof {
            crate::message::lemma_contents_deep_from(self.contents.0, 0);
            crate::message::lemma_contents_deep_from(v1, 0);
            assert forall|m: int| 0 <= m < self.contents.0@.len() implies self.contents.deep()[m]
                == c1.push(tool_turn.deep())[m] by {
                assert(self.contents.deep()[m] == self.contents.0@[m].deep());
                if m < c1.len() {
                    assert(c1[m] == v1@[m].deep());
                }
            }
            assert(self.contents.deep() =~= c1.push(tool_turn.deep()));
        }
        self.iterations = self.iterations + 1;
        if self.iterations > self.max_iterations {
            self.phase = Phase::Exceeded;
            Err(ApiRequestError::LoopIterationExceeded { iterations: self.iterations })
        } else {
            Ok(())
        }
    }
}

} // verus!
