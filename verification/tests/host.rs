//! What is asked of the host, and what the editor is told.
use dice_roller::editor::{FieldCondition, FieldKind};
use dice_roller::json::{read_string_member, roll_payload};
use dice_roller::roller::{
    notation_of_action, requested_notation, ActionError, DiceRoller, DEFAULT_NOTATION,
};
use dice_roller::triggers::{fire_roll_values, HostCall, HostReply};

#[test]
fn a_payload_is_an_object_of_three_strings() {
    assert_eq!(roll_payload(17, 20), "{\"roll\":\"1d20\",\"sum\":\"17\",\"value\":\"17\"}");
    let payload = roll_payload(4, 6);
    for (key, text) in [("value", "4"), ("roll", "1d6"), ("sum", "4")] {
        assert_eq!(read_string_member(&payload, key), Ok(Some(text.to_string())));
    }
    assert_eq!(read_string_member(&payload, "other"), Ok(None));
    let value: serde_json::Value = serde_json::from_str(&payload).unwrap();
    assert_eq!(value.as_object().unwrap().len(), 3);
}

#[test]
fn strings_are_found_in_json() {
    let found = |text: &str| read_string_member(text, "dice_notation");
    assert_eq!(found("{\"dice_notation\":\"2d\\u0036\"}"), Ok(Some("2d6".to_string())));
    assert_eq!(found("{\"a\":1,\"dice_notation\":\"\"}"), Ok(Some(String::new())));
    assert_eq!(found("{\"dice_notation\":\"a\",\"dice_notation\":\"b\"}"), Ok(Some("b".to_string())));
    assert_eq!(found("{\"dice_notation\":7}"), Ok(None));
    assert_eq!(found("{\"dice_notation\":null}"), Ok(None));
    assert_eq!(found("{\"x\":{\"dice_notation\":\"2d6\"}}"), Ok(None));
    assert_eq!(found("{}"), Ok(None));
    assert_eq!(found("[\"dice_notation\"]"), Ok(None));
    assert_eq!(found("\"dice_notation\""), Ok(None));
    for text in ["", "{ not json", "{} {}"] {
        let error = serde_json::from_str::<serde_json::Value>(text).unwrap_err();
        assert_eq!(found(text), Err(error.to_string()));
    }
}

#[test]
fn an_action_says_its_notation() {
    assert_eq!(notation_of_action("roll_dice", "{\"dice_notation\":\"x\"}"), Ok("x".to_string()));
    assert_eq!(notation_of_action("roll_dice", "[]"), Ok("1d6".to_string()));
    assert_eq!(
        notation_of_action("nope", "{ not json"),
        Err(ActionError::NotFound("Unknown action: nope".to_string())),
    );
    assert!(matches!(
        notation_of_action("roll_dice", "{ not json"),
        Err(ActionError::BadArguments(_))
    ));
    assert_eq!(requested_notation(Ok(None)), Ok(DEFAULT_NOTATION.to_string()));
    assert_eq!(requested_notation(Ok(Some("d8".to_string()))), Ok("d8".to_string()));
    assert_eq!(
        requested_notation(Err("no JSON".to_string())),
        Err(ActionError::BadArguments("no JSON".to_string())),
    );
}

#[test]
fn a_refused_action_changes_nothing() {
    let mut roller = DiceRoller::default();
    let error = roller.execute_action("roll_dice", "{ not json").unwrap().err().unwrap();
    let message = serde_json::from_str::<serde_json::Value>("{ not json").unwrap_err().to_string();
    assert_eq!(error, ActionError::BadArguments(message));
    let error = roller.execute_action_from(3, "Roll_dice", "{}").err().unwrap();
    assert_eq!(error, ActionError::NotFound("Unknown action: Roll_dice".to_string()));
    assert_eq!(roller, DiceRoller::default());
}

#[test]
fn an_action_without_a_notation_rolls_the_offered_default() {
    let mut roller = DiceRoller::default();
    roller.config.default_sides = 20;
    let text = roller.execute_action("roll_dice", "{}").unwrap().ok().unwrap().text;
    assert!(text.starts_with("1d6: "), "{text}");
    assert_eq!(roller.action_types()[0].fields[0].default_value, "1d6");
}

/// Every die is asked for in its order, and each refusal is followed by its warning.
#[test]
fn refusals_do_not_stop_the_triggers() {
    let mut triggers = fire_roll_values(&vec![3, 1, 6], 6);
    let mut seen = Vec::new();
    let mut reply = HostReply::Start;
    loop {
        match triggers.step(reply) {
            HostCall::FireTrigger { trigger, payload } => {
                assert_eq!(trigger, "on_roll_value");
                let refuse = payload == roll_payload(1, 6);
                seen.push(payload);
                reply = if refuse { HostReply::Refused("no".to_string()) } else { HostReply::Fired };
            }
            HostCall::LogWarn { message } => {
                seen.push(message);
                reply = HostReply::Logged;
            }
            HostCall::Done => break,
        }
    }
    assert_eq!(
        seen,
        vec![
            roll_payload(3, 6),
            roll_payload(1, 6),
            "failed to fire on_roll_value: no".to_string(),
            roll_payload(6, 6),
        ],
    );
    assert!(matches!(triggers.step(HostReply::Fired), HostCall::Done));
}

#[test]
fn the_editor_is_told_of_the_action() {
    let actions = DiceRoller::default().action_types();
    assert_eq!(actions.len(), 1);
    let action = &actions[0];
    assert_eq!(action.type_id, "roll_dice");
    assert_eq!(action.label, "Roll Dice");
    assert!(action.icon_svg.starts_with("<svg viewBox=\"0 0 24 24\"><rect x=\"3\""));
    assert_eq!(action.fields.len(), 2);
    assert_eq!(action.fields[0].id, "dice_notation");
    assert_eq!(action.fields[0].placeholder, "3d6");
    assert_eq!(action.fields[0].description, "Dice notation like 2d10, d20, 4d6");
    assert!(action.fields[0].conditions.is_empty());
    assert_eq!(action.fields[1].id, "store_in");
    assert_eq!(action.fields[1].default_value, "");
    assert_eq!(
        action.fields[1].conditions,
        vec![FieldCondition {
            field_id: "dice_notation".to_string(),
            operator: "not_empty".to_string(),
            value: String::new(),
        }],
    );
    assert!(action.ai_available && !action.hidden && action.platforms.is_empty());
    assert_eq!(action.ai_primary_field, "dice_notation");
}

#[test]
fn the_editor_is_told_of_the_trigger() {
    let triggers = DiceRoller::default().trigger_types();
    assert_eq!(triggers.len(), 1);
    let trigger = &triggers[0];
    assert_eq!(trigger.type_id, "on_roll_value");
    assert_eq!(trigger.label, "Dice Roll Value");
    assert!(trigger.icon_svg.ends_with("2,9 9,9\" fill=\"none\" stroke=\"currentColor\" stroke-width=\"2\"/></svg>"));
    assert_eq!(trigger.fields.len(), 2);
    assert_eq!(trigger.fields[0].default_value, "20");
    assert_eq!(trigger.fields[0].kind, FieldKind::Text);
    assert_eq!(trigger.fields[1].id, "message");
    assert_eq!(trigger.fields[1].kind, FieldKind::TextareaWithVariables);
    assert_eq!(trigger.fields[1].default_value, "Natural 20! Critical success!");
}
