//! The roller as its host sees it: requests in, answers and triggers out.
use dice_roller::roller::{ActionError, DiceConfig, DiceRoller, RollArgs, ToolError};
use dice_roller::triggers::{HostCall, HostReply, RollTriggers};

/// The roller as a user with default settings has it.
fn dice() -> DiceRoller {
    let mut roller = DiceRoller::default();
    roller.on_config(DiceConfig { default_sides: 6 });
    roller
}

/// Every trigger a roll fires, as pairs of type and payload, with a host that
/// refuses none.
fn fired(triggers: &mut RollTriggers) -> Vec<(String, String)> {
    let mut fired = Vec::new();
    let mut reply = HostReply::Start;
    loop {
        match triggers.step(reply) {
            HostCall::FireTrigger { trigger, payload } => {
                fired.push((trigger, payload));
                reply = HostReply::Fired;
            }
            HostCall::LogWarn { message } => panic!("unexpected warning: {}", message),
            HostCall::Done => return fired,
        }
    }
}

#[test]
fn rolls_the_dice_it_was_asked_for() {
    let mut h = dice();
    let answer = h.roll_dice(RollArgs { count: 3, sides: Some(20) }).unwrap().ok().unwrap();
    let out = answer.text;
    assert!(out.starts_with("Rolled 3d20: "), "{out}");

    // Three dice, three values in 1..=20: the roll is seeded from the clock, so the
    // shape is what can be asserted.
    let values = &out[out.find('[').unwrap() + 1..out.find(']').unwrap()];
    let values: Vec<u32> = values.split(", ").map(|v| v.parse().unwrap()).collect();
    assert_eq!(values.len(), 3);
    assert!(values.iter().all(|v| (1..=20).contains(v)), "{values:?}");
    assert_eq!(values, answer.triggers.results);
}

#[test]
fn an_unconfigured_roll_uses_the_configured_default() {
    let mut h = dice();
    h.on_config(DiceConfig { default_sides: 4 });
    let out = h.roll_dice(RollArgs { count: 1, sides: None }).unwrap().ok().unwrap().text;
    assert!(out.starts_with("Rolled 1d4: "), "{out}");
}

#[test]
fn a_fresh_install_gets_the_documented_default() {
    let mut h = DiceRoller::default();
    h.on_config(DiceConfig::default());
    let out = h.roll_dice(RollArgs { count: 1, sides: None }).unwrap().ok().unwrap().text;
    assert!(out.starts_with("Rolled 1d6: "), "{out}");
}

#[test]
fn a_one_sided_die_is_bad_arguments() {
    let mut h = dice();
    let err = h.roll_dice(RollArgs { count: 1, sides: Some(1) }).unwrap().err().unwrap();
    assert!(matches!(err, ToolError::BadArguments(_)), "{err:?}");
    assert_eq!(h, dice());
}

#[test]
fn every_die_fires_on_roll_value() {
    let mut h = dice();
    let mut answer = h.roll_dice(RollArgs { count: 4, sides: Some(6) }).unwrap().ok().unwrap();
    let results = answer.triggers.results.clone();

    let fired = fired(&mut answer.triggers);
    assert_eq!(fired.len(), 4);
    for (i, (trigger, payload)) in fired.iter().enumerate() {
        assert_eq!(trigger, "on_roll_value");
        let payload: serde_json::Value = serde_json::from_str(payload).unwrap();
        assert_eq!(payload["roll"], "1d6");
        assert!(payload["value"].is_string(), "{payload}");
        assert_eq!(payload["value"], results[i].to_string());
        assert_eq!(payload["sum"], results[i].to_string());
    }
}

#[test]
fn a_denied_fire_trigger_is_logged_and_the_roll_still_answers() {
    let mut h = dice();
    let mut answer = h.roll_dice(RollArgs { count: 1, sides: None }).unwrap().ok().unwrap();
    assert!(answer.text.starts_with("Rolled 1d6: "), "the roll is still the answer");

    let call = answer.triggers.step(HostReply::Start);
    assert!(matches!(call, HostCall::FireTrigger { .. }));
    let call = answer.triggers.step(HostReply::Refused("permission denied".to_string()));
    match call {
        HostCall::LogWarn { message } => {
            assert!(message.contains("on_roll_value"), "{message}");
            assert_eq!(message, "failed to fire on_roll_value: permission denied");
        }
        _ => panic!("no warning was logged"),
    }
    assert!(matches!(answer.triggers.step(HostReply::Logged), HostCall::Done));
}

#[test]
fn the_action_parses_dice_notation() {
    let mut h = dice();

    let types = h.action_types();
    assert_eq!(types.len(), 1);
    assert_eq!(types[0].type_id, "roll_dice");
    assert!(
        types[0].fields.iter().any(|f| f.id == "dice_notation"),
        "the command editor needs the field to render",
    );

    let out = h
        .execute_action("roll_dice", "{\"dice_notation\":\"2d10\"}")
        .unwrap()
        .ok()
        .unwrap()
        .text;
    assert!(out.starts_with("2d10: "), "{out}");

    // Nonsense notation falls back rather than failing the command.
    let out = h
        .execute_action("roll_dice", "{\"dice_notation\":\"nonsense\"}")
        .unwrap()
        .ok()
        .unwrap()
        .text;
    assert!(out.starts_with("1d6: "), "{out}");

    let err = h.execute_action("nope", "{}").unwrap().err().unwrap();
    assert!(matches!(err, ActionError::NotFound(_)), "{err:?}");
}

#[test]
fn survives_every_config_the_daemon_can_send() {
    let mut h = dice();
    for default_sides in [0, 1, 2, 6, 1000, 1001, u32::MAX] {
        h.on_config(DiceConfig { default_sides });
        assert_eq!(h.default_sides(), default_sides);
        let nonsense = "{\"dice_notation\":\"nonsense\"}";
        assert!(h.execute_action("roll_dice", nonsense).unwrap().is_ok());
    }

    h.on_config(DiceConfig { default_sides: 6 });
    let out = h.roll_dice(RollArgs { count: 1, sides: None }).unwrap().ok().unwrap().text;
    assert!(out.starts_with("Rolled 1d6: "));
    assert!(h.health_check().0);
}
