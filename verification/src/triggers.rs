//! The triggers that a roll fires, one for each die.
//!
//! Firing a trigger and writing to the log are the host's work. [`RollTriggers`]
//! says what to ask of the host next, given how it answered last: a trigger for
//! each die in turn, and a warning for each trigger that it refused.
use crate::json::object_text;
use crate::json::parsed;
use crate::json::payload_members;
use crate::json::roll_payload;
use crate::json::Reading;
use vstd::prelude::*;
use vstd::string::StringExecFns;

verus! {

/// The trigger that a die fires.
pub const ROLL_TRIGGER: &'static str = "on_roll_value";

/// What to ask of the host.
pub enum HostCall {
    /// Fire a trigger.
    FireTrigger { trigger: String, payload: String },
    /// Write a warning to the log.
    LogWarn { message: String },
    /// Nothing more.
    Done,
}

/// How the host answered what it was asked last.
pub enum HostReply {
    /// Nothing was asked yet.
    Start,
    /// The trigger was fired.
    Fired,
    /// The trigger was refused, with this error.
    Refused(String),
    /// The warning was handed over, whether or not it was written.
    Logged,
}

/// What to ask of the host, with its texts as sequences of characters.
pub enum HostCallView {
    FireTrigger { trigger: Seq<char>, payload: Seq<char> },
    LogWarn { message: Seq<char> },
    Done,
}

/// How the host answered, with its texts as sequences of characters.
pub enum HostReplyView {
    Start,
    Fired,
    Refused(Seq<char>),
    Logged,
}

impl View for HostCall {
    type V = HostCallView;

    open spec fn view(&self) -> HostCallView {
        match *self {
            HostCall::FireTrigger { trigger, payload } => HostCallView::FireTrigger {
                trigger: trigger@,
                payload: payload@,
            },
            HostCall::LogWarn { message } => HostCallView::LogWarn { message: message@ },
            HostCall::Done => HostCallView::Done,
        }
    }
}

impl View for HostReply {
    type V = HostReplyView;

    open spec fn view(&self) -> HostReplyView {
        match *self {
            HostReply::Start => HostReplyView::Start,
            HostReply::Fired => HostReplyView::Fired,
            HostReply::Refused(error) => HostReplyView::Refused(error@),
            HostReply::Logged => HostReplyView::Logged,
        }
    }
}

/// The dice whose triggers are still to be fired.
pub struct RollTriggers {
    /// The values of all the dice of the roll.
    pub results: Vec<u32>,
    /// The sides of each die.
    pub sides: u32,
    /// How many of the dice have had their trigger asked for.
    pub asked: usize,
}

/// What `RollTriggers` stands for.
pub struct RollTriggersView {
    pub results: Seq<u32>,
    pub sides: u32,
    pub asked: nat,
}

impl View for RollTriggers {
    type V = RollTriggersView;

    open spec fn view(&self) -> RollTriggersView {
        RollTriggersView { results: self.results@, sides: self.sides, asked: self.asked as nat }
    }
}

/// The call that fires the trigger of one die.
pub open spec fn fire_call(value: u32, sides: u32) -> HostCallView {
    HostCallView::FireTrigger {
        trigger: ROLL_TRIGGER@,
        payload: object_text(payload_members(value, sides)),
    }
}

/// The call that warns of a refused trigger.
pub open spec fn warn_call(error: Seq<char>) -> HostCallView {
    HostCallView::LogWarn { message: "failed to fire on_roll_value: "@ + error }
}

impl RollTriggersView {
    /// What to ask of the host after a reply.
    pub open spec fn call_after(self, reply: HostReplyView) -> HostCallView {
        match reply {
            HostReplyView::Refused(error) => warn_call(error),
            _ => if self.asked < self.results.len() {
                fire_call(self.results[self.asked as int], self.sides)
            } else {
                HostCallView::Done
            },
        }
    }

    /// What is still to be fired when that has been asked.
    pub open spec fn state_after(self, reply: HostReplyView) -> RollTriggersView {
        match reply {
            HostReplyView::Refused(_) => self,
            _ => if self.asked < self.results.len() {
                RollTriggersView { asked: self.asked + 1, ..self }
            } else {
                self
            },
        }
    }
}

/// The triggers of a roll: one for each of its dice, in their order.
pub fn fire_roll_values(results: &Vec<u32>, sides: u32) -> (triggers: RollTriggers)
    ensures
        triggers@ == (RollTriggersView { results: results@, sides, asked: 0 }),
{
    let copy = results.clone();
    assert(copy@ =~= results@);
    RollTriggers { results: copy, sides, asked: 0 }
}

impl RollTriggers {
    /// What to ask of the host next.
    pub fn step(&mut self, reply: HostReply) -> (call: HostCall)
        ensures
            call@ == old(self)@.call_after(reply@),
            final(self)@ == old(self)@.state_after(reply@),
            call@ matches HostCallView::FireTrigger { trigger, payload } ==> parsed(payload)
                == Reading::Ok(
                payload_members(old(self)@.results[old(self)@.asked as int], old(self)@.sides),
            ),
    {
        match reply {
            HostReply::Refused(error) => {
                let mut message = "failed to fire on_roll_value: ".to_owned();
                message.append(error.as_str());
                HostCall::LogWarn { message }
            },
            _ => if self.asked < self.results.len() {
                let value: u32 = self.results[self.asked];
                self.asked = self.asked + 1;
                HostCall::FireTrigger {
                    trigger: ROLL_TRIGGER.to_owned(),
                    payload: roll_payload(value, self.sides),
                }
            } else {
                HostCall::Done
            },
        }
    }
}

/// All that is asked of the host from a state and a reply on, where the host
/// refuses the trigger of the n-th die exactly if `refusals[n]` holds an error.
pub open spec fn calls_from(
    state: RollTriggersView,
    reply: HostReplyView,
    refusals: Seq<Option<Seq<char>>>,
) -> Seq<HostCallView>
    decreases state.results.len() - state.asked, if reply is Refused { 1int } else { 0int },
{
    let call = seq![state.call_after(reply)];
    let next = state.state_after(reply);
    if reply is Refused {
        call + calls_from(next, HostReplyView::Logged, refusals)
    } else if state.asked < state.results.len() {
        call + calls_from(next, answer(refusals[state.asked as int]), refusals)
    } else {
        call
    }
}

/// How the host answers a trigger.
pub open spec fn answer(refusal: Option<Seq<char>>) -> HostReplyView {
    match refusal {
        Some(error) => HostReplyView::Refused(error),
        None => HostReplyView::Fired,
    }
}

/// What one die has the host asked for: its trigger, and a warning if that was
/// refused.
pub open spec fn calls_of_die(value: u32, sides: u32, refusal: Option<Seq<char>>) -> Seq<
    HostCallView,
> {
    match refusal {
        Some(error) => seq![fire_call(value, sides), warn_call(error)],
        None => seq![fire_call(value, sides)],
    }
}

/// What the dice from the n-th on have the host asked for.
pub open spec fn calls_of_dice(
    results: Seq<u32>,
    sides: u32,
    refusals: Seq<Option<Seq<char>>>,
    n: nat,
) -> Seq<HostCallView>
    decreases results.len() - n,
{
    if n < results.len() {
        calls_of_die(results[n as int], sides, refusals[n as int]) + calls_of_dice(
            results,
            sides,
            refusals,
            n + 1,
        )
    } else {
        seq![]
    }
}

/// From a state in which the host's last answer was no refusal, what is asked is
/// what the dice left over ask for, and then nothing more.
proof fn lemma_calls_from(
    state: RollTriggersView,
    reply: HostReplyView,
    refusals: Seq<Option<Seq<char>>>,
)
    requires
        state.asked <= state.results.len(),
        reply !is Refused,
    ensures
        calls_from(state, reply, refusals) == calls_of_dice(
            state.results,
            state.sides,
            refusals,
            state.asked,
        ).push(HostCallView::Done),
    decreases state.results.len() - state.asked,
{
    if state.asked < state.results.len() {
        let next = state.state_after(reply);
        let refusal = refusals[state.asked as int];
        match refusal {
            Some(error) => {
                lemma_calls_from(next, HostReplyView::Logged, refusals);
                assert(next.state_after(HostReplyView::Refused(error)) == next);
                assert(calls_from(next, HostReplyView::Refused(error), refusals) == seq![
                    warn_call(error),
                ] + calls_from(next, HostReplyView::Logged, refusals));
            },
            None => {
                lemma_calls_from(next, HostReplyView::Fired, refusals);
            },
        }
    }
    assert(calls_from(state, reply, refusals) =~= calls_of_dice(
        state.results,
        state.sides,
        refusals,
        state.asked,
    ).push(HostCallView::Done));
}

/// Whatever the host refuses, each die of a roll has its trigger asked for once, in
/// the order of the dice, each refusal is followed by its warning, and nothing else
/// is asked.
pub proof fn every_die_fires(results: Seq<u32>, sides: u32, refusals: Seq<Option<Seq<char>>>)
    requires
        refusals.len() == results.len(),
    ensures
        calls_from(
            RollTriggersView { results, sides, asked: 0 },
            HostReplyView::Start,
            refusals,
        ) == calls_of_dice(results, sides, refusals, 0).push(HostCallView::Done),
{
    lemma_calls_from(
        RollTriggersView { results, sides, asked: 0 },
        HostReplyView::Start,
        refusals,
    );
}

/// The one trigger among what a die asks for is its own.
proof fn lemma_fired_by_die(value: u32, sides: u32, refusal: Option<Seq<char>>)
    ensures
        calls_of_die(value, sides, refusal).filter(|c: HostCallView| c is FireTrigger) == seq![
            fire_call(value, sides),
        ],
{
    reveal_with_fuel(Seq::filter, 3);
    let fire = seq![fire_call(value, sides)];
    assert(fire.drop_last() =~= seq![]);
    if refusal is Some {
        assert(calls_of_die(value, sides, refusal).drop_last() =~= fire);
    }
}

/// The triggers among what the dice from the n-th on ask for are theirs.
#[verifier::spinoff_prover]
proof fn lemma_fired(
    results: Seq<u32>,
    sides: u32,
    refusals: Seq<Option<Seq<char>>>,
    n: nat,
)
    requires
        n <= results.len(),
    ensures
        calls_of_dice(results, sides, refusals, n).filter(|c: HostCallView| c is FireTrigger)
            == results.skip(n as int).map_values(|v: u32| fire_call(v, sides)),
    decreases results.len() - n,
{
    let fires = |c: HostCallView| c is FireTrigger;
    let rest = calls_of_dice(results, sides, refusals, n);
    if n < results.len() {
        let value = results[n as int];
        let die = calls_of_die(value, sides, refusals[n as int]);
        lemma_fired(results, sides, refusals, n + 1);
        Seq::filter_distributes_over_add(die, calls_of_dice(results, sides, refusals, n + 1), fires);
        lemma_fired_by_die(value, sides, refusals[n as int]);
        assert(results.skip(n as int) =~= seq![value] + results.skip((n + 1) as int));
    } else {
        reveal_with_fuel(Seq::filter, 1);
    }
    assert(rest.filter(fires) =~= results.skip(n as int).map_values(
        |v: u32| fire_call(v, sides),
    ));
}

/// What the host refuses changes nothing of which triggers are asked for.
pub proof fn refusals_do_not_stop_triggers(
    results: Seq<u32>,
    sides: u32,
    refusals: Seq<Option<Seq<char>>>,
)
    requires
        refusals.len() == results.len(),
    ensures
        calls_from(
            RollTriggersView { results, sides, asked: 0 },
            HostReplyView::Start,
            refusals,
        ).filter(|c: HostCallView| c is FireTrigger) == results.map_values(
            |v: u32| fire_call(v, sides),
        ),
{
    let fires = |c: HostCallView| c is FireTrigger;
    let calls = calls_of_dice(results, sides, refusals, 0);
    every_die_fires(results, sides, refusals);
    lemma_fired(results, sides, refusals, 0);
    reveal_with_fuel(Seq::filter, 1);
    assert(calls.push(HostCallView::Done).drop_last() =~= calls);
    assert(results.skip(0) =~= results);
}

} // verus!
