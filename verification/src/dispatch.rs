//! From logical events to actions.
//!
//! The dispatcher looks the scancode of an event up in the binding table
//! and says what has to be done.  It does nothing itself: the caller
//! carries the action out.

use vstd::prelude::*;
use vstd::string::*;
use crate::config::{BindingModel, BindingType, Configuration, ConfigurationModel};
use crate::gkey::{format_gkey, gkey_label};
use crate::keys::Key;
use crate::record::LogicalEvent;
use crate::table::{
    best_known_gkey, binding_table, is_last_binding_for, lemma_binding_is_filed,
    scancodes_by_gkey, BindingTable, ScancodeMap,
};
use crate::text::{decimal_text, push_decimal};

verus! {

/// What has to be done in answer to a button edge.
#[derive(Debug, PartialEq, Eq)]
pub enum Action {
    /// Hand the command line to the shell and wait until it has finished.
    RunShell(String),
    /// Press the key.
    KeyDown(Key),
    /// Release the key.
    KeyUp(Key),
    /// Press the mouse button.
    MouseDown(u8),
    /// Release the mouse button.
    MouseUp(u8),
    /// Nothing.
    Nothing,
}

/// An action as a mathematical value.
pub enum ActionModel {
    RunShell(Seq<char>),
    KeyDown(Key),
    KeyUp(Key),
    MouseDown(u8),
    MouseUp(u8),
    Nothing,
}

impl View for Action {
    type V = ActionModel;

    open spec fn view(&self) -> ActionModel {
        match *self {
            Action::RunShell(command) => ActionModel::RunShell(command@),
            Action::KeyDown(key) => ActionModel::KeyDown(key),
            Action::KeyUp(key) => ActionModel::KeyUp(key),
            Action::MouseDown(button) => ActionModel::MouseDown(button),
            Action::MouseUp(button) => ActionModel::MouseUp(button),
            Action::Nothing => ActionModel::Nothing,
        }
    }
}

/// The action that a binding asks for on a button edge.  A command runs
/// when the button goes down and at no other time.  An emulated key or
/// mouse button goes down and up together with the button.  A text to type
/// asks for nothing.
pub open spec fn action_of(binding: BindingModel, pressed: bool) -> ActionModel {
    match binding {
        BindingModel::Command(command) => if pressed {
            ActionModel::RunShell(command)
        } else {
            ActionModel::Nothing
        },
        BindingModel::EmulateKey(key) => if pressed {
            ActionModel::KeyDown(key)
        } else {
            ActionModel::KeyUp(key)
        },
        BindingModel::EmulateMouse(button) => if pressed {
            ActionModel::MouseDown(button)
        } else {
            ActionModel::MouseUp(button)
        },
        BindingModel::KeySequence(_) => ActionModel::Nothing,
    }
}

impl BindingType {
    /// The action that the binding asks for on a button edge.
    pub fn action(&self, pressed: bool) -> (action: Action)
        ensures
            action@ == action_of(self@, pressed),
    {
        match self {
            BindingType::Command(command) => if pressed {
                Action::RunShell(command.clone())
            } else {
                Action::Nothing
            },
            BindingType::EmulateKey(key) => if pressed {
                Action::KeyDown(*key)
            } else {
                Action::KeyUp(*key)
            },
            BindingType::EmulateMouse(button) => if pressed {
                Action::MouseDown(*button)
            } else {
                Action::MouseUp(*button)
            },
            BindingType::KeySequence(_) => Action::Nothing,
        }
    }
}

/// What became of a logical event.
#[derive(Debug, PartialEq, Eq)]
pub enum Outcome {
    /// No binding is filed under the scancode.  `known_as` is the logical
    /// key by which the scancode is best known, if it is known by any.
    Unbound { scancode: u32, known_as: Option<u32> },
    /// The binding of the logical key `gkey` is filed under the scancode
    /// and asks for `action`.
    Bound { gkey: u32, action: Action },
}

/// An outcome as a mathematical value.
pub enum OutcomeModel {
    Unbound { scancode: u32, known_as: Option<u32> },
    Bound { gkey: u32, action: ActionModel },
}

impl View for Outcome {
    type V = OutcomeModel;

    open spec fn view(&self) -> OutcomeModel {
        match *self {
            Outcome::Unbound { scancode, known_as } => OutcomeModel::Unbound { scancode, known_as },
            Outcome::Bound { gkey, action } => OutcomeModel::Bound { gkey, action: action@ },
        }
    }
}

/// What becomes of a logical event, given the binding table and the
/// scancodes of the logical keys.
pub open spec fn outcome_of(
    table: Map<u32, (u32, BindingModel)>,
    by_gkey: Map<u32, u32>,
    event: LogicalEvent,
) -> OutcomeModel {
    if table.contains_key(event.scancode) {
        OutcomeModel::Bound {
            gkey: table[event.scancode].0,
            action: action_of(table[event.scancode].1, event.pressed),
        }
    } else {
        OutcomeModel::Unbound {
            scancode: event.scancode,
            known_as: best_known_gkey(by_gkey, event.scancode),
        }
    }
}

/// The notice to log for an outcome that calls for one: an unbound
/// scancode is reported with the logical key by which it is best known, or
/// by its number alone where it is known by none.
pub open spec fn notice_of(outcome: OutcomeModel) -> Option<Seq<char>> {
    match outcome {
        OutcomeModel::Unbound { scancode, known_as: Some(gkey) } => Some(
            "Scancode "@ + decimal_text(scancode as nat) + " ("@ + gkey_label(gkey)
                + ") is unbound"@,
        ),
        OutcomeModel::Unbound { scancode, known_as: None } => Some(
            "Scancode "@ + decimal_text(scancode as nat) + " is unbound"@,
        ),
        OutcomeModel::Bound { .. } => None,
    }
}

/// The notice to log for a binding that is filed under the number of its
/// logical key for want of a scancode.
pub open spec fn fallback_notice_of(gkey: u32) -> Seq<char> {
    "GKey "@ + decimal_text(gkey as nat) + " not mapped to scancode; using as scancode"@
}

/// The notice to log for a binding that is filed under the number of its
/// logical key for want of a scancode.
pub fn fallback_notice(gkey: u32) -> (notice: String)
    ensures
        notice@ == fallback_notice_of(gkey),
{
    let mut notice = String::from_str("GKey ");
    push_decimal(&mut notice, gkey);
    notice.append(" not mapped to scancode; using as scancode");
    notice
}

impl Outcome {
    /// The action to carry out.
    pub fn action(&self) -> (action: &Action)
        ensures
            action@ == match self@ {
                OutcomeModel::Unbound { .. } => ActionModel::Nothing,
                OutcomeModel::Bound { action, .. } => action,
            },
    {
        match self {
            Outcome::Unbound { .. } => &Action::Nothing,
            Outcome::Bound { action, .. } => action,
        }
    }

    /// The notice to log, if the outcome calls for one.
    pub fn notice(&self) -> (notice: Option<String>)
        ensures
            notice is Some == notice_of(self@) is Some,
            notice matches Some(text) ==> notice_of(self@) == Some(text@),
    {
        match self {
            Outcome::Unbound { scancode, known_as: Some(gkey) } => {
                let mut text = String::from_str("Scancode ");
                push_decimal(&mut text, *scancode);
                text.append(" (");
                let label = format_gkey(*gkey);
                text.append(label.as_str());
                text.append(") is unbound");
                Some(text)
            },
            Outcome::Unbound { scancode, known_as: None } => {
                let mut text = String::from_str("Scancode ");
                push_decimal(&mut text, *scancode);
                text.append(" is unbound");
                Some(text)
            },
            Outcome::Bound { .. } => None,
        }
    }
}

/// The dispatcher: the two tables of a configuration, built once.
pub struct Dispatcher {
    table: BindingTable,
    scancodes: ScancodeMap,
}

impl Dispatcher {
    /// The binding table: what is filed under each scancode.
    pub closed spec fn table(&self) -> Map<u32, (u32, BindingModel)> {
        self.table@
    }

    /// The scancode of each logical key.
    pub closed spec fn scancodes(&self) -> Map<u32, u32> {
        self.scancodes@
    }

    /// Whether the two tables are those that `config` determines.
    pub open spec fn built_from(&self, config: ConfigurationModel) -> bool {
        &&& self.scancodes() == scancodes_by_gkey(config.scancodes)
        &&& self.table() == binding_table(config.bindings, scancodes_by_gkey(config.scancodes))
    }

    /// Builds the two tables from a configuration.
    pub fn new(config: &Configuration) -> (dispatcher: Dispatcher)
        ensures
            dispatcher.built_from(config@),
    {
        let scancodes = ScancodeMap::new(&config.scancodes);
        let table = BindingTable::build(&config.bindings, &scancodes);
        Dispatcher { table, scancodes }
    }

    /// The scancodes of the logical keys.
    pub fn scancode_map(&self) -> (map: &ScancodeMap)
        ensures
            map@ == self.scancodes(),
    {
        &self.scancodes
    }

    /// The binding table.
    pub fn binding_table(&self) -> (table: &BindingTable)
        ensures
            table@ == self.table(),
    {
        &self.table
    }

    /// Says what becomes of a logical event.
    pub fn dispatch(&self, event: LogicalEvent) -> (outcome: Outcome)
        ensures
            outcome@ == outcome_of(self.table(), self.scancodes(), event),
    {
        match self.table.lookup(event.scancode) {
            Some((gkey, binding)) => Outcome::Bound { gkey, action: binding.action(event.pressed) },
            None => Outcome::Unbound {
                scancode: event.scancode,
                known_as: self.scancodes.gkey_of(event.scancode),
            },
        }
    }
}

/// Building the tables is repeatable: two dispatchers built from the same
/// configuration hold the same mapping from scancodes to bindings, and
/// answer every event alike.
pub proof fn lemma_construction_is_repeatable(
    first: Dispatcher,
    second: Dispatcher,
    config: ConfigurationModel,
    event: LogicalEvent,
)
    requires
        first.built_from(config),
        second.built_from(config),
    ensures
        first.table() == second.table(),
        first.scancodes() == second.scancodes(),
        outcome_of(first.table(), first.scancodes(), event) == outcome_of(
            second.table(),
            second.scancodes(),
            event,
        ),
{
}

/// A command runs on the press edge and never on the release edge.  An
/// emulated mouse button or key acts on both edges: down on press, up on
/// release.
pub proof fn lemma_edge_rules(binding: BindingModel, pressed: bool)
    ensures
        binding matches BindingModel::Command(command) ==> action_of(binding, true)
            == ActionModel::RunShell(command) && action_of(binding, false) == ActionModel::Nothing,
        binding matches BindingModel::EmulateMouse(button) ==> action_of(binding, true)
            == ActionModel::MouseDown(button) && action_of(binding, false)
            == ActionModel::MouseUp(button),
        binding matches BindingModel::EmulateKey(key) ==> action_of(binding, true)
            == ActionModel::KeyDown(key) && action_of(binding, false) == ActionModel::KeyUp(key),
        action_of(binding, pressed) is RunShell <==> binding is Command && pressed,
        binding is EmulateMouse || binding is EmulateKey ==> !(action_of(binding, pressed)
            is Nothing),
{
}

/// A logical key that has a binding but no scancode can still be reached:
/// an event with the number of the logical key as its scancode finds a
/// binding, and finds the key's own unless a later binding is filed under
/// the same number.
pub proof fn lemma_unmapped_gkey_is_dispatchable(
    config: ConfigurationModel,
    index: int,
    pressed: bool,
)
    requires
        0 <= index < config.bindings.len(),
        !scancodes_by_gkey(config.scancodes).contains_key(config.bindings[index].0),
    ensures
        outcome_of(
            binding_table(config.bindings, scancodes_by_gkey(config.scancodes)),
            scancodes_by_gkey(config.scancodes),
            LogicalEvent { scancode: config.bindings[index].0, pressed },
        ) is Bound,
        is_last_binding_for(
            config.bindings,
            scancodes_by_gkey(config.scancodes),
            config.bindings[index].0,
            index,
        ) ==> outcome_of(
            binding_table(config.bindings, scancodes_by_gkey(config.scancodes)),
            scancodes_by_gkey(config.scancodes),
            LogicalEvent { scancode: config.bindings[index].0, pressed },
        ) == (OutcomeModel::Bound {
            gkey: config.bindings[index].0,
            action: action_of(config.bindings[index].1, pressed),
        }),
{
    lemma_binding_is_filed(config.bindings, scancodes_by_gkey(config.scancodes), index);
}

} // verus!
