//! The dice roller: its settings, the requests it answers, and what it keeps from
//! one request to the next.
use crate::clock::seed;
use crate::clock::seed_of;
use crate::clock::NANOS_PER_SECOND;
use crate::generator::dice;
use crate::generator::dice_are_in_range;
use crate::generator::first_state;
use crate::generator::start_state;
use crate::generator::throw;
use crate::json::parsed;
use crate::json::read_string_member;
use crate::json::string_member;
use crate::json::Reading;
use crate::notation;
use crate::notation::clamp;
use crate::notation::clamped;
use crate::notation::lowercase;
use crate::notation::notation_dice;
use crate::notation::notation_is_within_limits;
use crate::notation::reading_is_known;
use crate::notation::trimmed;
use crate::notation::MAX_COUNT;
use crate::notation::MAX_SIDES;
use crate::notation::MIN_COUNT;
use crate::notation::MIN_SIDES;
use crate::text::decimal;
use crate::text::join;
use crate::text::joined;
use crate::text::push_decimal;
use crate::text::push_roll;
use crate::text::roll_text;
use crate::text::total_is_bounded;
use crate::triggers::fire_roll_values;
use crate::triggers::RollTriggers;
use crate::triggers::RollTriggersView;
use std::time::SystemTime;
use vstd::prelude::*;
use vstd::string::StringExecFns;

verus! {

/// What the user sets.
#[derive(Clone, Copy, Debug, PartialEq, Eq)]
pub struct DiceConfig {
    /// Sides per die when a roll does not say.
    pub default_sides: u32,
}

impl Default for DiceConfig {
    fn default() -> (config: Self)
        ensures
            config.default_sides == 6,
    {
        DiceConfig { default_sides: 6 }
    }
}

/// The arguments of `roll_dice`.
#[derive(Clone, Copy, Debug, PartialEq, Eq)]
pub struct RollArgs {
    /// How many dice to roll (1-100).
    pub count: u32,
    /// Sides per die. Omitted means "whatever the user configured".
    pub sides: Option<u32>,
}

/// The arguments of `coin_flip`.
#[derive(Clone, Copy, Debug, PartialEq, Eq)]
pub struct FlipArgs {
    /// How many coins to flip (1-100).
    pub count: u32,
}

/// The action that rolls dice.
pub const ROLL_ACTION: &'static str = "roll_dice";

/// The parameter of that action that holds the notation.
pub const NOTATION_FIELD: &'static str = "dice_notation";

/// The notation, when the parameters hold none.
pub const DEFAULT_NOTATION: &'static str = "1d6";

/// How many dice or coins, when the arguments do not say.
pub fn one() -> (n: u32)
    ensures
        n == 1,
{
    1
}

/// Why a request was not answered, as the one who made it is told.
#[derive(Debug, PartialEq, Eq)]
pub enum ToolError {
    /// The arguments make no sense; others may.
    BadArguments(String),
    /// What was asked for does not exist.
    NotFound(String),
}

/// An action fails for the same reasons as a tool.
pub type ActionError = ToolError;

/// A `ToolError` with its text as a sequence of characters.
pub enum ToolErrorView {
    BadArguments(Seq<char>),
    NotFound(Seq<char>),
}

impl View for ToolError {
    type V = ToolErrorView;

    open spec fn view(&self) -> ToolErrorView {
        match *self {
            ToolError::BadArguments(message) => ToolErrorView::BadArguments(message@),
            ToolError::NotFound(message) => ToolErrorView::NotFound(message@),
        }
    }
}

/// Why no dice could be thrown. That is no answer to a request but a fault of the
/// machine.
#[derive(Clone, Copy, Debug, PartialEq, Eq)]
pub enum NoRoll {
    /// The system's clock, which seeds the generator, stands before the Unix epoch.
    ClockBeforeEpoch,
}

/// The answer to a roll: its text, and the triggers that it fires.
pub struct Answer {
    pub text: String,
    pub triggers: RollTriggers,
}

/// What an `Answer` stands for.
pub struct AnswerView {
    pub text: Seq<char>,
    pub triggers: RollTriggersView,
}

impl View for Answer {
    type V = AnswerView;

    open spec fn view(&self) -> AnswerView {
        AnswerView { text: self.text@, triggers: self.triggers@ }
    }
}

/// The dice roller.
#[derive(Clone, Copy, Debug, PartialEq, Eq)]
pub struct DiceRoller {
    /// What the user set last.
    pub config: DiceConfig,
    /// How many dice and coins were thrown so far, modulo two to the 64.
    pub total_rolls: u64,
}

impl Default for DiceRoller {
    fn default() -> (roller: Self)
        ensures
            roller.config.default_sides == 6,
            roller.total_rolls == 0,
    {
        DiceRoller { config: DiceConfig::default(), total_rolls: 0 }
    }
}

/// The tally after `count` more dice.
pub open spec fn tally(total_rolls: u64, count: u32) -> u64 {
    ((total_rolls + count) % 0x1_0000_0000_0000_0000) as u64
}

/// The tally after rolls of `counts` dice, one after another.
pub open spec fn tally_after(total_rolls: u64, counts: Seq<u32>) -> u64
    decreases counts.len(),
{
    if counts.len() == 0 {
        total_rolls
    } else {
        tally(tally_after(total_rolls, counts.drop_last()), counts.last())
    }
}

/// The label of a coin's face.
pub open spec fn coin_label(face: u32) -> Seq<char> {
    if face == 1 {
        "Heads"@
    } else {
        "Tails"@
    }
}

/// The labels of all the coins.
pub open spec fn coin_labels(faces: Seq<u32>) -> Seq<Seq<char>> {
    faces.map_values(|face: u32| coin_label(face))
}

/// What the flip of these coins is described by.
pub open spec fn flip_text(faces: Seq<u32>) -> Seq<char> {
    if faces.len() == 1 {
        "Flipped a coin: "@ + coin_label(faces[0])
    } else {
        "Flipped "@ + decimal(faces.len()) + " coins: ["@ + joined(coin_labels(faces), ", "@) + "]"@
    }
}

/// The notation that an action asks for, given what its parameters read as; or why
/// there is none.
pub open spec fn action_notation(kind: Seq<char>, params: Reading) -> Result<
    Seq<char>,
    ToolErrorView,
> {
    if kind != ROLL_ACTION@ {
        Err(ToolErrorView::NotFound("Unknown action: "@ + kind))
    } else {
        match params {
            Err(message) => Err(ToolErrorView::BadArguments(message)),
            Ok(members) => match string_member(members, NOTATION_FIELD@) {
                Some(notation) => Ok(notation),
                None => Ok(DEFAULT_NOTATION@),
            },
        }
    }
}

impl DiceRoller {
    /// The faces of a roll.
    pub open spec fn faces(self, seed: u32, count: u32, sides: u32) -> Seq<u32> {
        dice(start_state(seed, self.total_rolls), count as nat, sides)
    }

    /// The roller after a roll of `count` dice.
    pub open spec fn after_roll(self, count: u32) -> DiceRoller {
        DiceRoller { config: self.config, total_rolls: tally(self.total_rolls, count) }
    }

    /// The answer to a roll, its text starting with `prefix`.
    pub open spec fn answer(self, prefix: Seq<char>, seed: u32, count: u32, sides: u32) -> AnswerView {
        let results = self.faces(seed, count, sides);
        AnswerView {
            text: prefix + roll_text(count, sides, results),
            triggers: RollTriggersView { results, sides, asked: 0 },
        }
    }

    /// The sides that a request asks for.
    pub open spec fn wanted_sides(self, a: RollArgs) -> u32 {
        match a.sides {
            Some(sides) => sides,
            None => self.config.default_sides,
        }
    }

    /// The count and the sides that an action asks for, given what its parameters read
    /// as; or why it is refused. A die without sides is replaced by one with the fewest
    /// that a die can have.
    pub open spec fn action_dice(self, kind: Seq<char>, params: Reading) -> Result<
        (u32, u32),
        ToolErrorView,
    > {
        match action_notation(kind, params) {
            Ok(notation) => {
                let (count, sides) = notation_dice(notation, self.config.default_sides);
                Ok(
                    (
                        count,
                        if sides == 0 {
                            MIN_SIDES
                        } else {
                            sides
                        },
                    ),
                )
            },
            Err(refusal) => Err(refusal),
        }
    }

    /// Sides per die when a roll does not say.
    pub fn default_sides(&self) -> (sides: u32)
        ensures
            sides == self.config.default_sides,
    {
        self.config.default_sides
    }

    /// Rolls from a given seed.
    pub fn roll_from(&mut self, seed: u32, count: u32, sides: u32) -> (results: Vec<u32>)
        requires
            count == 0 || sides > 0,
        ensures
            results@ == old(self).faces(seed, count, sides),
            *final(self) == old(self).after_roll(count),
    {
        let results = throw(first_state(seed, self.total_rolls), count, sides);
        self.total_rolls = self.total_rolls.wrapping_add(count as u64);
        results
    }

    /// Rolls `count` dice of `sides` sides, seeded from the clock.
    pub fn roll(&mut self, count: u32, sides: u32) -> (results: Result<Vec<u32>, NoRoll>)
        requires
            count == 0 || sides > 0,
        ensures
            exists|time: SystemTime|
                match (#[trigger] seed_of(time), results) {
                    (Some(seed), Ok(results)) => seed < NANOS_PER_SECOND && results@ == old(
                        self,
                    ).faces(seed, count, sides) && *final(self) == old(self).after_roll(count),
                    (None, Err(fault)) => fault == NoRoll::ClockBeforeEpoch && *final(self)
                        == *old(self),
                    _ => false,
                },
    {
        match seed() {
            Some(seed) => Ok(self.roll_from(seed, count, sides)),
            None => Err(NoRoll::ClockBeforeEpoch),
        }
    }

    /// Reads dice notation: how many dice, and how many sides each.
    pub fn parse_notation(&self, notation: &str) -> (dice: (u32, u32))
        ensures
            dice == notation_dice(notation@, self.config.default_sides),
            reading_is_known(notation@, self.config.default_sides),
    {
        notation::parse(notation, self.default_sides())
    }

    /// Rolls from a given seed and describes the roll.
    pub fn roll_answer(&mut self, prefix: &str, seed: u32, count: u32, sides: u32) -> (answer:
        Answer)
        requires
            sides > 0,
            count * sides <= u32::MAX,
        ensures
            answer@ == old(self).answer(prefix@, seed, count, sides),
            *final(self) == old(self).after_roll(count),
    {
        let results = self.roll_from(seed, count, sides);
        proof {
            dice_are_in_range(
                start_state(seed, old(self).total_rolls),
                count as nat,
                sides,
            );
            total_is_bounded(results@, sides as nat);
        }
        let triggers = fire_roll_values(&results, sides);
        let mut text = prefix.to_owned();
        push_roll(&mut text, count, sides, &results);
        Answer { text, triggers }
    }
}

/// The notation that an action's parameters ask for, given the string found in
/// them, or the message of the error where they are no JSON.
pub fn requested_notation(found: Result<Option<String>, String>) -> (notation: Result<
    String,
    ActionError,
>)
    ensures
        match found {
            Ok(Some(s)) => notation matches Ok(n) && n@ == s@,
            Ok(None) => notation matches Ok(n) && n@ == DEFAULT_NOTATION@,
            Err(message) => notation matches Err(e) && e@ == ToolErrorView::BadArguments(message@),
        },
{
    match found {
        Ok(Some(s)) => Ok(s),
        Ok(None) => Ok(DEFAULT_NOTATION.to_owned()),
        Err(message) => Err(ToolError::BadArguments(message)),
    }
}

/// The notation that an action asks for.
pub fn notation_of_action(kind: &str, params_json: &str) -> (notation: Result<String, ActionError>)
    ensures
        match action_notation(kind@, parsed(params_json@)) {
            Ok(wanted) => notation matches Ok(n) && n@ == wanted,
            Err(refusal) => notation matches Err(e) && e@ == refusal,
        },
{
    if !(kind.to_owned() == ROLL_ACTION.to_owned()) {
        let mut message = "Unknown action: ".to_owned();
        message.append(kind);
        return Err(ToolError::NotFound(message));
    }
    requested_notation(read_string_member(params_json, NOTATION_FIELD))
}

/// The text of a flip.
fn describe_flip(faces: &Vec<u32>) -> (text: String)
    requires
        faces@.len() > 0,
    ensures
        text@ == flip_text(faces@),
{
    let mut labels: Vec<&str> = Vec::new();
    let mut i: usize = 0;
    while i < faces.len()
        invariant
            i <= faces.len(),
            labels.len() == i,
            forall|j: int| 0 <= j < i ==> (#[trigger] labels@[j])@ == coin_label(faces@[j]),
        decreases faces.len() - i,
    {
        labels.push(
            if faces[i] == 1 {
                "Heads"
            } else {
                "Tails"
            },
        );
        i = i + 1;
    }
    assert(labels@.map_values(|l: &str| l@) =~= coin_labels(faces@));
    if faces.len() == 1 {
        let mut text = "Flipped a coin: ".to_owned();
        text.append(labels[0]);
        text
    } else {
        let mut text = "Flipped ".to_owned();
        push_decimal(&mut text, faces.len() as u64);
        text.append(" coins: [");
        text.append(join(&labels, ", ").as_str());
        text.append("]");
        text
    }
}

impl DiceRoller {
    /// How many dice and how many sides a request asks for, within the limits.
    pub fn requested_dice(&self, a: RollArgs) -> (wanted: Result<(u32, u32), ToolError>)
        ensures
            match wanted {
                Ok((count, sides)) => self.wanted_sides(a) >= MIN_SIDES && count == clamped(
                    a.count,
                    MIN_COUNT,
                    MAX_COUNT,
                ) && sides == clamped(self.wanted_sides(a), MIN_SIDES, MAX_SIDES) && count * sides
                    <= MAX_COUNT * MAX_SIDES,
                Err(e) => self.wanted_sides(a) < MIN_SIDES && e@ == ToolErrorView::BadArguments(
                    "sides must be >= 2"@,
                ),
            },
    {
        let sides: u32 = match a.sides {
            Some(sides) => sides,
            None => self.default_sides(),
        };
        if sides < MIN_SIDES {
            return Err(ToolError::BadArguments("sides must be >= 2".to_owned()));
        }
        let count: u32 = clamp(a.count, MIN_COUNT, MAX_COUNT);
        let sides: u32 = clamp(sides, MIN_SIDES, MAX_SIDES);
        assert(count * sides <= 100 * 1000) by (nonlinear_arith)
            requires
                count <= 100,
                sides <= 1000,
        ;
        Ok((count, sides))
    }

    /// Answers `roll_dice` from a given seed.
    pub fn roll_dice_from(&mut self, seed: u32, a: RollArgs) -> (answer: Result<Answer, ToolError>)
        ensures
            match answer {
                Ok(answer) => old(self).wanted_sides(a) >= MIN_SIDES && answer@ == old(self).answer(
                    "Rolled "@,
                    seed,
                    clamped(a.count, MIN_COUNT, MAX_COUNT),
                    clamped(old(self).wanted_sides(a), MIN_SIDES, MAX_SIDES),
                ) && *final(self) == old(self).after_roll(clamped(a.count, MIN_COUNT, MAX_COUNT)),
                Err(e) => old(self).wanted_sides(a) < MIN_SIDES && e@
                    == ToolErrorView::BadArguments("sides must be >= 2"@) && *final(self) == *old(
                    self,
                ),
            },
    {
        match self.requested_dice(a) {
            Ok((count, sides)) => Ok(self.roll_answer("Rolled ", seed, count, sides)),
            Err(e) => Err(e),
        }
    }

    /// Rolls dice. Specify count and sides (e.g. 3d6).
    pub fn roll_dice(&mut self, a: RollArgs) -> (answer: Result<Result<Answer, ToolError>, NoRoll>)
        ensures
            old(self).wanted_sides(a) < MIN_SIDES ==> (answer matches Ok(Err(e)) && e@
                == ToolErrorView::BadArguments("sides must be >= 2"@)) && *final(self) == *old(
                self,
            ),
            old(self).wanted_sides(a) >= MIN_SIDES ==> exists|time: SystemTime|
                match (#[trigger] seed_of(time), answer) {
                    (Some(seed), Ok(Ok(answer))) => seed < NANOS_PER_SECOND && answer@ == old(
                        self,
                    ).answer(
                        "Rolled "@,
                        seed,
                        clamped(a.count, MIN_COUNT, MAX_COUNT),
                        clamped(old(self).wanted_sides(a), MIN_SIDES, MAX_SIDES),
                    ) && *final(self) == old(self).after_roll(
                        clamped(a.count, MIN_COUNT, MAX_COUNT),
                    ),
                    (None, Err(fault)) => fault == NoRoll::ClockBeforeEpoch && *final(self)
                        == *old(self),
                    _ => false,
                },
    {
        let (count, sides) = match self.requested_dice(a) {
            Ok(wanted) => wanted,
            Err(e) => return Ok(Err(e)),
        };
        match seed() {
            Some(seed) => Ok(Ok(self.roll_answer("Rolled ", seed, count, sides))),
            None => Err(NoRoll::ClockBeforeEpoch),
        }
    }

    /// Answers `coin_flip` from a given seed.
    pub fn coin_flip_from(&mut self, seed: u32, a: FlipArgs) -> (text: Result<String, ToolError>)
        ensures
            text matches Ok(text) && text@ == flip_text(
                old(self).faces(seed, clamped(a.count, MIN_COUNT, MAX_COUNT), 2),
            ),
            *final(self) == old(self).after_roll(clamped(a.count, MIN_COUNT, MAX_COUNT)),
    {
        let count: u32 = clamp(a.count, MIN_COUNT, MAX_COUNT);
        let faces = self.roll_from(seed, count, 2);
        Ok(describe_flip(&faces))
    }

    /// Flips one or more coins.
    pub fn coin_flip(&mut self, a: FlipArgs) -> (text: Result<Result<String, ToolError>, NoRoll>)
        ensures
            exists|time: SystemTime|
                match (#[trigger] seed_of(time), text) {
                    (Some(seed), Ok(Ok(text))) => seed < NANOS_PER_SECOND && text@ == flip_text(
                        old(self).faces(seed, clamped(a.count, MIN_COUNT, MAX_COUNT), 2),
                    ) && *final(self) == old(self).after_roll(
                        clamped(a.count, MIN_COUNT, MAX_COUNT),
                    ),
                    (None, Err(fault)) => fault == NoRoll::ClockBeforeEpoch && *final(self)
                        == *old(self),
                    _ => false,
                },
    {
        match seed() {
            Some(seed) => Ok(self.coin_flip_from(seed, a)),
            None => Err(NoRoll::ClockBeforeEpoch),
        }
    }

    /// How many dice and how many sides an action asks for.
    pub fn requested_action(&self, kind: &str, params_json: &str) -> (wanted: Result<
        (u32, u32),
        ActionError,
    >)
        ensures
            match self.action_dice(kind@, parsed(params_json@)) {
                Err(refusal) => wanted matches Err(e) && e@ == refusal,
                Ok((count, sides)) => {
                    &&& wanted matches Ok(dice)
                    &&& dice == (count, sides)
                    &&& sides > 0
                    &&& count * sides <= u32::MAX
                },
            },
            action_notation(kind@, parsed(params_json@)) matches Ok(notation) ==> reading_is_known(
                notation,
                self.config.default_sides,
            ),
    {
        let notation = match notation_of_action(kind, params_json) {
            Ok(notation) => notation,
            Err(e) => return Err(e),
        };
        let (count, read) = self.parse_notation(notation.as_str());
        let sides: u32 = if read == 0 {
            MIN_SIDES
        } else {
            read
        };
        proof {
            notation_is_within_limits(lowercase(trimmed(notation@)), self.config.default_sides);
            assert(count * sides <= u32::MAX) by (nonlinear_arith)
                requires
                    count == 1 || count <= 100 && sides <= 1000,
            ;
        }
        Ok((count, sides))
    }

    /// Runs an action from a given seed.
    pub fn execute_action_from(&mut self, seed: u32, kind: &str, params_json: &str) -> (answer:
        Result<Answer, ActionError>)
        ensures
            match old(self).action_dice(kind@, parsed(params_json@)) {
                Err(refusal) => answer matches Err(e) && e@ == refusal && *final(self) == *old(self),
                Ok((count, sides)) => answer matches Ok(answer) && answer@ == old(self).answer(
                    ""@,
                    seed,
                    count,
                    sides,
                ) && *final(self) == old(self).after_roll(count),
            },
            action_notation(kind@, parsed(params_json@)) matches Ok(notation) ==> reading_is_known(
                notation,
                old(self).config.default_sides,
            ),
    {
        match self.requested_action(kind, params_json) {
            Ok((count, sides)) => Ok(self.roll_answer("", seed, count, sides)),
            Err(e) => Err(e),
        }
    }

    /// Runs an action: `roll_dice`, with the notation in its parameters.
    pub fn execute_action(&mut self, kind: &str, params_json: &str) -> (answer: Result<
        Result<Answer, ActionError>,
        NoRoll,
    >)
        ensures
            match old(self).action_dice(kind@, parsed(params_json@)) {
                Err(refusal) => answer matches Ok(Err(e)) && e@ == refusal && *final(self) == *old(
                    self,
                ),
                Ok((count, sides)) => exists|time: SystemTime|
                    match (#[trigger] seed_of(time), answer) {
                        (Some(seed), Ok(Ok(answer))) => seed < NANOS_PER_SECOND && answer@ == old(
                            self,
                        ).answer(""@, seed, count, sides) && *final(self) == old(self).after_roll(
                            count,
                        ),
                        (None, Err(fault)) => fault == NoRoll::ClockBeforeEpoch && *final(self)
                            == *old(self),
                        _ => false,
                    },
            },
            action_notation(kind@, parsed(params_json@)) matches Ok(notation) ==> reading_is_known(
                notation,
                old(self).config.default_sides,
            ),
    {
        let (count, sides) = match self.requested_action(kind, params_json) {
            Ok(wanted) => wanted,
            Err(e) => return Ok(Err(e)),
        };
        match seed() {
            Some(seed) => Ok(Ok(self.roll_answer("", seed, count, sides))),
            None => Err(NoRoll::ClockBeforeEpoch),
        }
    }

    /// Takes new settings.
    pub fn on_config(&mut self, config: DiceConfig)
        ensures
            *final(self) == (DiceRoller { config, total_rolls: old(self).total_rolls }),
    {
        self.config = config;
    }

    /// Whether the roller is well, and what there is to say of it.
    pub fn health_check(&self) -> (health: (bool, String))
        ensures
            health.0,
            health.1@ == "ok \u{2014} "@ + decimal(self.total_rolls as nat) + " total rolls"@,
    {
        let mut text = "ok \u{2014} ".to_owned();
        push_decimal(&mut text, self.total_rolls);
        text.append(" total rolls");
        (true, text)
    }
}

/// What is logged of new settings.
pub fn config_message(config: &DiceConfig) -> (message: String)
    ensures
        message@ == "config: default_sides = "@ + decimal(config.default_sides as nat),
{
    let mut message = "config: default_sides = ".to_owned();
    push_decimal(&mut message, config.default_sides as u64);
    message
}

} // verus!
