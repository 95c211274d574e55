//! What the command editor is told: the action that rolls dice and the trigger that
//! a die fires, each with the fields that the editor draws for it.
use crate::roller::DiceRoller;
use crate::roller::DEFAULT_NOTATION;
use crate::roller::NOTATION_FIELD;
use crate::roller::ROLL_ACTION;
use crate::triggers::ROLL_TRIGGER;
use vstd::prelude::*;

verus! {

/// The icon of the action: a die.
pub const DIE_ICON: &'static str =
    "<svg viewBox=\"0 0 24 24\"><rect x=\"3\" y=\"3\" width=\"18\" height=\"18\" rx=\"3\" fill=\"none\" stroke=\"currentColor\" stroke-width=\"2\"/><circle cx=\"8\" cy=\"8\" r=\"1.5\" fill=\"currentColor\"/><circle cx=\"12\" cy=\"12\" r=\"1.5\" fill=\"currentColor\"/><circle cx=\"16\" cy=\"16\" r=\"1.5\" fill=\"currentColor\"/></svg>";

/// The icon of the trigger: a star.
pub const STAR_ICON: &'static str =
    "<svg viewBox=\"0 0 24 24\"><polygon points=\"12,2 15,9 22,9 16,14 18,22 12,17 6,22 8,14 2,9 9,9\" fill=\"none\" stroke=\"currentColor\" stroke-width=\"2\"/></svg>";

/// How a field is drawn.
#[derive(Clone, Copy, Debug, PartialEq, Eq)]
pub enum FieldKind {
    /// One line of text.
    Text,
    /// Several lines of text, in which variables are replaced.
    TextareaWithVariables,
}

/// When a field is drawn: when the value of another field meets a condition.
#[derive(Debug, PartialEq, Eq)]
pub struct FieldCondition {
    pub field_id: String,
    pub operator: String,
    pub value: String,
}

/// A field of an action or a trigger. A text that is empty is not drawn.
#[derive(Debug, PartialEq, Eq)]
pub struct FieldDef {
    pub id: String,
    pub label: String,
    pub kind: FieldKind,
    pub placeholder: String,
    pub default_value: String,
    pub description: String,
    /// The field is drawn when all of these hold.
    pub conditions: Vec<FieldCondition>,
}

/// An action that the editor offers.
#[derive(Debug, PartialEq, Eq)]
pub struct ActionTypeDef {
    /// The kind that `execute_action` is given.
    pub type_id: String,
    pub label: String,
    pub icon_svg: String,
    pub fields: Vec<FieldDef>,
    /// Whether the assistant is offered the action too.
    pub ai_available: bool,
    pub ai_description: String,
    /// The field that the assistant fills in.
    pub ai_primary_field: String,
    /// The platforms that the action runs on; none stands for every one.
    pub platforms: Vec<String>,
    /// Whether the action is kept out of the editor's menus.
    pub hidden: bool,
}

/// A trigger that starts a command.
#[derive(Debug, PartialEq, Eq)]
pub struct TriggerTypeDef {
    /// The trigger that is fired.
    pub type_id: String,
    pub label: String,
    pub icon_svg: String,
    pub fields: Vec<FieldDef>,
}

/// What a `FieldCondition` stands for.
pub struct FieldConditionView {
    pub field_id: Seq<char>,
    pub operator: Seq<char>,
    pub value: Seq<char>,
}

/// What a `FieldDef` stands for.
pub struct FieldDefView {
    pub id: Seq<char>,
    pub label: Seq<char>,
    pub kind: FieldKind,
    pub placeholder: Seq<char>,
    pub default_value: Seq<char>,
    pub description: Seq<char>,
    pub conditions: Seq<FieldConditionView>,
}

/// What an `ActionTypeDef` stands for.
pub struct ActionTypeDefView {
    pub type_id: Seq<char>,
    pub label: Seq<char>,
    pub icon_svg: Seq<char>,
    pub fields: Seq<FieldDefView>,
    pub ai_available: bool,
    pub ai_description: Seq<char>,
    pub ai_primary_field: Seq<char>,
    pub platforms: Seq<Seq<char>>,
    pub hidden: bool,
}

/// What a `TriggerTypeDef` stands for.
pub struct TriggerTypeDefView {
    pub type_id: Seq<char>,
    pub label: Seq<char>,
    pub icon_svg: Seq<char>,
    pub fields: Seq<FieldDefView>,
}

impl View for FieldCondition {
    type V = FieldConditionView;

    open spec fn view(&self) -> FieldConditionView {
        FieldConditionView {
            field_id: self.field_id@,
            operator: self.operator@,
            value: self.value@,
        }
    }
}

impl View for FieldDef {
    type V = FieldDefView;

    open spec fn view(&self) -> FieldDefView {
        FieldDefView {
            id: self.id@,
            label: self.label@,
            kind: self.kind,
            placeholder: self.placeholder@,
            default_value: self.default_value@,
            description: self.description@,
            conditions: self.conditions@.map_values(|c: FieldCondition| c@),
        }
    }
}

impl View for ActionTypeDef {
    type V = ActionTypeDefView;

    open spec fn view(&self) -> ActionTypeDefView {
        ActionTypeDefView {
            type_id: self.type_id@,
            label: self.label@,
            icon_svg: self.icon_svg@,
            fields: self.fields@.map_values(|f: FieldDef| f@),
            ai_available: self.ai_available,
            ai_description: self.ai_description@,
            ai_primary_field: self.ai_primary_field@,
            platforms: self.platforms@.map_values(|p: String| p@),
            hidden: self.hidden,
        }
    }
}

impl View for TriggerTypeDef {
    type V = TriggerTypeDefView;

    open spec fn view(&self) -> TriggerTypeDefView {
        TriggerTypeDefView {
            type_id: self.type_id@,
            label: self.label@,
            icon_svg: self.icon_svg@,
            fields: self.fields@.map_values(|f: FieldDef| f@),
        }
    }
}

/// The field that holds the notation.
pub open spec fn notation_field() -> FieldDefView {
    FieldDefView {
        id: NOTATION_FIELD@,
        label: "Dice Notation"@,
        kind: FieldKind::Text,
        placeholder: "3d6"@,
        default_value: DEFAULT_NOTATION@,
        description: "Dice notation like 2d10, d20, 4d6"@,
        conditions: seq![],
    }
}

/// The field that names the variable for the result, drawn once there is a notation.
pub open spec fn store_field() -> FieldDefView {
    FieldDefView {
        id: "store_in"@,
        label: "Store Result In"@,
        kind: FieldKind::Text,
        placeholder: "roll_result"@,
        default_value: ""@,
        description: "Variable name to store the result"@,
        conditions: seq![
            FieldConditionView { field_id: NOTATION_FIELD@, operator: "not_empty"@, value: ""@ },
        ],
    }
}

/// The action that rolls dice.
pub open spec fn roll_action() -> ActionTypeDefView {
    ActionTypeDefView {
        type_id: ROLL_ACTION@,
        label: "Roll Dice"@,
        icon_svg: DIE_ICON@,
        fields: seq![notation_field(), store_field()],
        ai_available: true,
        ai_description: "Roll dice and store the result in a variable"@,
        ai_primary_field: NOTATION_FIELD@,
        platforms: seq![],
        hidden: false,
    }
}

/// The field that holds the value to wait for.
pub open spec fn value_field() -> FieldDefView {
    FieldDefView {
        id: "value"@,
        label: "Trigger on Value"@,
        kind: FieldKind::Text,
        placeholder: "20"@,
        default_value: "20"@,
        description:
            "The die value that triggers this (e.g. 20 for nat 20, 1 for fumble). Leave empty for any roll."@,
        conditions: seq![],
    }
}

/// The field that holds the message.
pub open spec fn message_field() -> FieldDefView {
    FieldDefView {
        id: "message"@,
        label: "Message"@,
        kind: FieldKind::TextareaWithVariables,
        placeholder: "Natural 20!"@,
        default_value: "Natural 20! Critical success!"@,
        description: ""@,
        conditions: seq![],
    }
}

/// The trigger that a die fires.
pub open spec fn roll_trigger() -> TriggerTypeDefView {
    TriggerTypeDefView {
        type_id: ROLL_TRIGGER@,
        label: "Dice Roll Value"@,
        icon_svg: STAR_ICON@,
        fields: seq![value_field(), message_field()],
    }
}

impl DiceRoller {
    /// The actions that the editor offers: rolling dice.
    pub fn action_types(&self) -> (actions: Vec<ActionTypeDef>)
        ensures
            actions@.map_values(|a: ActionTypeDef| a@) == seq![roll_action()],
    {
        let notation = FieldDef {
            id: NOTATION_FIELD.to_owned(),
            label: "Dice Notation".to_owned(),
            kind: FieldKind::Text,
            placeholder: "3d6".to_owned(),
            default_value: DEFAULT_NOTATION.to_owned(),
            description: "Dice notation like 2d10, d20, 4d6".to_owned(),
            conditions: Vec::new(),
        };
        let condition = FieldCondition {
            field_id: NOTATION_FIELD.to_owned(),
            operator: "not_empty".to_owned(),
            value: "".to_owned(),
        };
        let store = FieldDef {
            id: "store_in".to_owned(),
            label: "Store Result In".to_owned(),
            kind: FieldKind::Text,
            placeholder: "roll_result".to_owned(),
            default_value: "".to_owned(),
            description: "Variable name to store the result".to_owned(),
            conditions: vec![condition],
        };
        assert(notation@.conditions =~= notation_field().conditions);
        assert(store@.conditions =~= store_field().conditions);
        let action = ActionTypeDef {
            type_id: ROLL_ACTION.to_owned(),
            label: "Roll Dice".to_owned(),
            icon_svg: DIE_ICON.to_owned(),
            fields: vec![notation, store],
            ai_available: true,
            ai_description: "Roll dice and store the result in a variable".to_owned(),
            ai_primary_field: NOTATION_FIELD.to_owned(),
            // Rolling dice needs nothing of the platform.
            platforms: Vec::new(),
            hidden: false,
        };
        assert(action@.fields =~= roll_action().fields);
        assert(action@.platforms =~= roll_action().platforms);
        vec![action]
    }

    /// The triggers that a command can start from: the value of a die.
    pub fn trigger_types(&self) -> (triggers: Vec<TriggerTypeDef>)
        ensures
            triggers@.map_values(|t: TriggerTypeDef| t@) == seq![roll_trigger()],
    {
        let value = FieldDef {
            id: "value".to_owned(),
            label: "Trigger on Value".to_owned(),
            kind: FieldKind::Text,
            placeholder: "20".to_owned(),
            default_value: "20".to_owned(),
            description:
                "The die value that triggers this (e.g. 20 for nat 20, 1 for fumble). Leave empty for any roll.".to_owned(),
            conditions: Vec::new(),
        };
        let message = FieldDef {
            id: "message".to_owned(),
            label: "Message".to_owned(),
            kind: FieldKind::TextareaWithVariables,
            placeholder: "Natural 20!".to_owned(),
            default_value: "Natural 20! Critical success!".to_owned(),
            description: "".to_owned(),
            conditions: Vec::new(),
        };
        assert(value@.conditions =~= value_field().conditions);
        assert(message@.conditions =~= message_field().conditions);
        let trigger = TriggerTypeDef {
            type_id: ROLL_TRIGGER.to_owned(),
            label: "Dice Roll Value".to_owned(),
            icon_svg: STAR_ICON.to_owned(),
            fields: vec![value, message],
        };
        assert(trigger@.fields =~= roll_trigger().fields);
        vec![trigger]
    }
}

/// What the editor draws for the action, text by text.
pub proof fn roll_action_reads()
    ensures
        ({
            let action = roll_action();
            let notation = action.fields[0];
            let store = action.fields[1];
            &&& action.type_id == "roll_dice"@
            &&& action.label == "Roll Dice"@
            &&& action.icon_svg
                == "<svg viewBox=\"0 0 24 24\"><rect x=\"3\" y=\"3\" width=\"18\" height=\"18\" rx=\"3\" fill=\"none\" stroke=\"currentColor\" stroke-width=\"2\"/><circle cx=\"8\" cy=\"8\" r=\"1.5\" fill=\"currentColor\"/><circle cx=\"12\" cy=\"12\" r=\"1.5\" fill=\"currentColor\"/><circle cx=\"16\" cy=\"16\" r=\"1.5\" fill=\"currentColor\"/></svg>"@
            &&& action.fields.len() == 2
            &&& action.ai_available
            &&& action.ai_description == "Roll dice and store the result in a variable"@
            &&& action.ai_primary_field == "dice_notation"@
            &&& action.platforms.len() == 0
            &&& !action.hidden
            &&& notation.id == "dice_notation"@
            &&& notation.label == "Dice Notation"@
            &&& notation.kind is Text
            &&& notation.placeholder == "3d6"@
            &&& notation.default_value == "1d6"@
            &&& notation.description == "Dice notation like 2d10, d20, 4d6"@
            &&& notation.conditions.len() == 0
            &&& store.id == "store_in"@
            &&& store.label == "Store Result In"@
            &&& store.kind is Text
            &&& store.placeholder == "roll_result"@
            &&& store.default_value == ""@
            &&& store.description == "Variable name to store the result"@
            &&& store.conditions.len() == 1
            &&& store.conditions[0].field_id == notation.id
            &&& store.conditions[0].operator == "not_empty"@
            &&& store.conditions[0].value == ""@
        }),
{
}

/// What the editor draws for the trigger, text by text.
pub proof fn roll_trigger_reads()
    ensures
        ({
            let trigger = roll_trigger();
            let value = trigger.fields[0];
            let message = trigger.fields[1];
            &&& trigger.type_id == "on_roll_value"@
            &&& trigger.label == "Dice Roll Value"@
            &&& trigger.icon_svg
                == "<svg viewBox=\"0 0 24 24\"><polygon points=\"12,2 15,9 22,9 16,14 18,22 12,17 6,22 8,14 2,9 9,9\" fill=\"none\" stroke=\"currentColor\" stroke-width=\"2\"/></svg>"@
            &&& trigger.fields.len() == 2
            &&& value.id == "value"@
            &&& value.label == "Trigger on Value"@
            &&& value.kind is Text
            &&& value.placeholder == "20"@
            &&& value.default_value == "20"@
            &&& value.description
                == "The die value that triggers this (e.g. 20 for nat 20, 1 for fumble). Leave empty for any roll."@
            &&& value.conditions.len() == 0
            &&& message.id == "message"@
            &&& message.label == "Message"@
            &&& message.kind is TextareaWithVariables
            &&& message.placeholder == "Natural 20!"@
            &&& message.default_value == "Natural 20! Critical success!"@
            &&& message.description == ""@
            &&& message.conditions.len() == 0
        }),
{
}

} // verus!
