//! The configuration: what each logical key is bound to, and which
//! scancode the device sends for it.

use vstd::prelude::*;
use vstd::string::*;
use crate::document::{
    find_integer, find_table, find_text, integer_field, parse_document, table_field, text_field,
    toml_entries, Node,
};
use crate::keys::{key_of_name, Key};
use crate::text::{parse_u32, parsed_u32, same_text};

verus! {

/// What a logical key is bound to.
#[derive(Debug, PartialEq, Eq)]
pub enum BindingType {
    /// A command line to hand to the shell.
    Command(String),
    /// A key to press and release together with the button.
    EmulateKey(Key),
    /// A mouse button to press and release together with the button.
    EmulateMouse(u8),
    /// A text to type.  It is carried through; nothing is done with it.
    KeySequence(String),
}

/// A binding as a mathematical value.
pub enum BindingModel {
    Command(Seq<char>),
    EmulateKey(Key),
    EmulateMouse(u8),
    KeySequence(Seq<char>),
}

impl View for BindingType {
    type V = BindingModel;

    open spec fn view(&self) -> BindingModel {
        match *self {
            BindingType::Command(command) => BindingModel::Command(command@),
            BindingType::EmulateKey(key) => BindingModel::EmulateKey(key),
            BindingType::EmulateMouse(button) => BindingModel::EmulateMouse(button),
            BindingType::KeySequence(text) => BindingModel::KeySequence(text@),
        }
    }
}

impl Clone for BindingType {
    fn clone(&self) -> (copy: BindingType)
        ensures
            copy@ == self@,
    {
        match self {
            BindingType::Command(command) => BindingType::Command(command.clone()),
            BindingType::EmulateKey(key) => BindingType::EmulateKey(*key),
            BindingType::EmulateMouse(button) => BindingType::EmulateMouse(*button),
            BindingType::KeySequence(text) => BindingType::KeySequence(text.clone()),
        }
    }
}

/// The bindings of a configuration as a mathematical sequence.
pub open spec fn bindings_model(bindings: Seq<(u32, BindingType)>) -> Seq<(u32, BindingModel)> {
    bindings.map_values(|binding: (u32, BindingType)| (binding.0, binding.1@))
}

/// A loaded configuration.  Each binding pairs a logical key with what it
/// is bound to; each scancode entry pairs a logical key with the scancode
/// that the device sends for it.
#[derive(Debug)]
pub struct Configuration {
    pub bindings: Vec<(u32, BindingType)>,
    pub scancodes: Vec<(u32, u32)>,
}

/// A configuration as a mathematical value.
pub struct ConfigurationModel {
    pub bindings: Seq<(u32, BindingModel)>,
    pub scancodes: Seq<(u32, u32)>,
}

impl View for Configuration {
    type V = ConfigurationModel;

    open spec fn view(&self) -> ConfigurationModel {
        ConfigurationModel {
            bindings: bindings_model(self.bindings@),
            scancodes: self.scancodes@,
        }
    }
}

/// Why a text is no configuration.  Where an entry of the `bindings` or the
/// `scancodes` table is at fault, the error carries the entry's name.
#[derive(Debug, PartialEq, Eq)]
pub enum ConfigError {
    /// The text is no TOML document.  The error carries the parser's
    /// message.
    Syntax(String),
    /// The document has no table named `bindings`.
    MissingBindings,
    /// The document has no table named `scancodes`.
    MissingScancodes,
    /// The binding is neither a text nor a table.
    UnsupportedBinding(String),
    /// The entry's name is not the number of a logical key.
    InvalidGKey(String),
    /// The binding is a table without a text named `type`.
    MissingType(String),
    /// The `type` of the binding is neither `mouse` nor `keyboard`.
    UnknownType(String),
    /// The mouse binding has no whole number named `button`.
    MissingButton(String),
    /// The keyboard binding has no text named `key`.
    MissingKey(String),
    /// The `key` of the keyboard binding is not the name of a key.
    UnknownKey(String),
    /// The scancode is neither a whole number nor a text that holds one.
    InvalidScancode(String),
}

/// An error as a mathematical value.  Of a parser's message nothing is
/// kept.
pub enum ConfigErrorModel {
    Syntax,
    MissingBindings,
    MissingScancodes,
    UnsupportedBinding(Seq<char>),
    InvalidGKey(Seq<char>),
    MissingType(Seq<char>),
    UnknownType(Seq<char>),
    MissingButton(Seq<char>),
    MissingKey(Seq<char>),
    UnknownKey(Seq<char>),
    InvalidScancode(Seq<char>),
}

impl View for ConfigError {
    type V = ConfigErrorModel;

    open spec fn view(&self) -> ConfigErrorModel {
        match *self {
            ConfigError::Syntax(_) => ConfigErrorModel::Syntax,
            ConfigError::MissingBindings => ConfigErrorModel::MissingBindings,
            ConfigError::MissingScancodes => ConfigErrorModel::MissingScancodes,
            ConfigError::UnsupportedBinding(name) => ConfigErrorModel::UnsupportedBinding(name@),
            ConfigError::InvalidGKey(name) => ConfigErrorModel::InvalidGKey(name@),
            ConfigError::MissingType(name) => ConfigErrorModel::MissingType(name@),
            ConfigError::UnknownType(name) => ConfigErrorModel::UnknownType(name@),
            ConfigError::MissingButton(name) => ConfigErrorModel::MissingButton(name@),
            ConfigError::MissingKey(name) => ConfigErrorModel::MissingKey(name@),
            ConfigError::UnknownKey(name) => ConfigErrorModel::UnknownKey(name@),
            ConfigError::InvalidScancode(name) => ConfigErrorModel::InvalidScancode(name@),
        }
    }
}

/// What an error says in words.  A syntax error says what the parser said;
/// an error of an entry names the entry.
pub open spec fn message_of(error: ConfigError) -> Seq<char> {
    match error {
        ConfigError::Syntax(said) => "the configuration is no TOML document: "@ + said@,
        ConfigError::MissingBindings => "the configuration has no table of bindings"@,
        ConfigError::MissingScancodes => "the configuration has no table of scancodes"@,
        ConfigError::UnsupportedBinding(name) => "binding "@ + name@ + " is neither a command nor a table"@,
        ConfigError::InvalidGKey(name) => "entry "@ + name@ + " is not named by the number of a logical key"@,
        ConfigError::MissingType(name) => "binding "@ + name@ + " has no type"@,
        ConfigError::UnknownType(name) => "binding "@ + name@ + " is neither of type mouse nor of type keyboard"@,
        ConfigError::MissingButton(name) => "mouse binding "@ + name@ + " has no button"@,
        ConfigError::MissingKey(name) => "keyboard binding "@ + name@ + " has no key"@,
        ConfigError::UnknownKey(name) => "keyboard binding "@ + name@ + " names no key"@,
        ConfigError::InvalidScancode(name) => "scancode "@ + name@ + " is not a number"@,
    }
}

impl ConfigError {
    /// What the error says in words.
    pub fn message(&self) -> (message: String)
        ensures
            message@ == message_of(*self),
    {
        let (before, subject, after): (&'static str, &str, &'static str) = match self {
            ConfigError::Syntax(said) => ("the configuration is no TOML document: ", said.as_str(), ""),
            ConfigError::MissingBindings => ("the configuration has no table of bindings", "", ""),
            ConfigError::MissingScancodes => ("the configuration has no table of scancodes", "", ""),
            ConfigError::UnsupportedBinding(name) => ("binding ", name.as_str(), " is neither a command nor a table"),
            ConfigError::InvalidGKey(name) => ("entry ", name.as_str(), " is not named by the number of a logical key"),
            ConfigError::MissingType(name) => ("binding ", name.as_str(), " has no type"),
            ConfigError::UnknownType(name) => ("binding ", name.as_str(), " is neither of type mouse nor of type keyboard"),
            ConfigError::MissingButton(name) => ("mouse binding ", name.as_str(), " has no button"),
            ConfigError::MissingKey(name) => ("keyboard binding ", name.as_str(), " has no key"),
            ConfigError::UnknownKey(name) => ("keyboard binding ", name.as_str(), " names no key"),
            ConfigError::InvalidScancode(name) => ("scancode ", name.as_str(), " is not a number"),
        };
        proof {
            reveal_strlit("");
        }
        let mut message = String::from_str(before);
        message.append(subject);
        message.append(after);
        proof {
            assert(message@ =~= message_of(*self));
        }
        message
    }
}

/// What a table binding stands for: a mouse button, given as a whole
/// number of which the lowest eight bits count, or a key, given by its
/// name.
pub open spec fn table_binding_of(name: Seq<char>, fields: Seq<(String, Node)>) -> Result<
    BindingModel,
    ConfigErrorModel,
> {
    match text_field(fields, "type"@) {
        None => Err(ConfigErrorModel::MissingType(name)),
        Some(kind) => if kind == "mouse"@ {
            match integer_field(fields, "button"@) {
                None => Err(ConfigErrorModel::MissingButton(name)),
                Some(button) => Ok(BindingModel::EmulateMouse(button as u8)),
            }
        } else if kind == "keyboard"@ {
            match text_field(fields, "key"@) {
                None => Err(ConfigErrorModel::MissingKey(name)),
                Some(key_name) => match key_of_name(key_name) {
                    None => Err(ConfigErrorModel::UnknownKey(name)),
                    Some(key) => Ok(BindingModel::EmulateKey(key)),
                },
            }
        } else {
            Err(ConfigErrorModel::UnknownType(name))
        },
    }
}

/// What an entry of the `bindings` table stands for.  Its name is the
/// number of a logical key.  A text is a command; a table is a mouse or a
/// keyboard binding.
pub open spec fn binding_of(name: Seq<char>, node: Node) -> Result<
    (u32, BindingModel),
    ConfigErrorModel,
> {
    match node {
        Node::Text(command) => match parsed_u32(name) {
            None => Err(ConfigErrorModel::InvalidGKey(name)),
            Some(gkey) => Ok((gkey, BindingModel::Command(command@))),
        },
        Node::Table(fields) => match parsed_u32(name) {
            None => Err(ConfigErrorModel::InvalidGKey(name)),
            Some(gkey) => match table_binding_of(name, fields@) {
                Err(error) => Err(error),
                Ok(binding) => Ok((gkey, binding)),
            },
        },
        _ => Err(ConfigErrorModel::UnsupportedBinding(name)),
    }
}

/// What the `bindings` table stands for: its entries in their order, or
/// the error of the first entry that is at fault.
pub open spec fn bindings_of(entries: Seq<(String, Node)>) -> Result<
    Seq<(u32, BindingModel)>,
    ConfigErrorModel,
>
    decreases entries.len(),
{
    if entries.len() == 0 {
        Ok(Seq::empty())
    } else {
        match bindings_of(entries.drop_last()) {
            Err(error) => Err(error),
            Ok(front) => match binding_of(entries.last().0@, entries.last().1) {
                Err(error) => Err(error),
                Ok(binding) => Ok(front.push(binding)),
            },
        }
    }
}

/// What an entry of the `scancodes` table stands for.  Its name is the
/// number of a logical key.  Its value is a whole number, of which the
/// lowest 32 bits count, or a text that holds a number.
pub open spec fn scancode_of_entry(name: Seq<char>, node: Node) -> Result<
    (u32, u32),
    ConfigErrorModel,
> {
    match parsed_u32(name) {
        None => Err(ConfigErrorModel::InvalidGKey(name)),
        Some(gkey) => match node {
            Node::Integer(scancode) => Ok((gkey, scancode as u32)),
            Node::Text(text) => match parsed_u32(text@) {
                None => Err(ConfigErrorModel::InvalidScancode(name)),
                Some(scancode) => Ok((gkey, scancode)),
            },
            _ => Err(ConfigErrorModel::InvalidScancode(name)),
        },
    }
}

/// What the `scancodes` table stands for: its entries in their order, or
/// the error of the first entry that is at fault.
pub open spec fn scancodes_of(entries: Seq<(String, Node)>) -> Result<
    Seq<(u32, u32)>,
    ConfigErrorModel,
>
    decreases entries.len(),
{
    if entries.len() == 0 {
        Ok(Seq::empty())
    } else {
        match scancodes_of(entries.drop_last()) {
            Err(error) => Err(error),
            Ok(front) => match scancode_of_entry(entries.last().0@, entries.last().1) {
                Err(error) => Err(error),
                Ok(entry) => Ok(front.push(entry)),
            },
        }
    }
}

/// The configuration that a document stands for.  The document needs a
/// table named `bindings` and one named `scancodes`; whatever else it holds
/// is passed over.  The bindings are looked at before the scancodes.
pub open spec fn configuration_of(document: Seq<(String, Node)>) -> Result<
    ConfigurationModel,
    ConfigErrorModel,
> {
    match table_field(document, "bindings"@) {
        None => Err(ConfigErrorModel::MissingBindings),
        Some(bindings) => match table_field(document, "scancodes"@) {
            None => Err(ConfigErrorModel::MissingScancodes),
            Some(scancodes) => match bindings_of(bindings) {
                Err(error) => Err(error),
                Ok(bindings) => match scancodes_of(scancodes) {
                    Err(error) => Err(error),
                    Ok(scancodes) => Ok(ConfigurationModel { bindings, scancodes }),
                },
            },
        },
    }
}

/// A configuration or an error as a mathematical value.
pub open spec fn result_model(result: Result<Configuration, ConfigError>) -> Result<
    ConfigurationModel,
    ConfigErrorModel,
> {
    match result {
        Ok(config) => Ok(config@),
        Err(error) => Err(error@),
    }
}

fn parse_table_binding(name: &String, fields: &Vec<(String, Node)>) -> (result: Result<
    BindingType,
    ConfigError,
>)
    ensures
        match result {
            Ok(binding) => table_binding_of(name@, fields@) == Ok::<
                BindingModel,
                ConfigErrorModel,
            >(binding@),
            Err(error) => table_binding_of(name@, fields@) == Err::<
                BindingModel,
                ConfigErrorModel,
            >(error@),
        },
{
    let kind = match find_text(fields, "type") {
        None => {
            return Err(ConfigError::MissingType(name.clone()));
        },
        Some(kind) => kind,
    };
    if same_text(kind.as_str(), "mouse") {
        match find_integer(fields, "button") {
            None => Err(ConfigError::MissingButton(name.clone())),
            Some(button) => Ok(BindingType::EmulateMouse(
                #[verifier::truncate]
                (button as u8),
            )),
        }
    } else if same_text(kind.as_str(), "keyboard") {
        match find_text(fields, "key") {
            None => Err(ConfigError::MissingKey(name.clone())),
            Some(key_name) => match Key::from_name(key_name.as_str()) {
                None => Err(ConfigError::UnknownKey(name.clone())),
                Some(key) => Ok(BindingType::EmulateKey(key)),
            },
        }
    } else {
        Err(ConfigError::UnknownType(name.clone()))
    }
}

/// Reads one entry of the `bindings` table.
pub fn parse_binding(name: &String, node: &Node) -> (result: Result<
    (u32, BindingType),
    ConfigError,
>)
    ensures
        match result {
            Ok(binding) => binding_of(name@, *node) == Ok::<(u32, BindingModel), ConfigErrorModel>(
                (binding.0, binding.1@),
            ),
            Err(error) => binding_of(name@, *node) == Err::<(u32, BindingModel), ConfigErrorModel>(
                error@,
            ),
        },
{
    match node {
        Node::Text(command) => match parse_u32(name.as_str()) {
            None => Err(ConfigError::InvalidGKey(name.clone())),
            Some(gkey) => Ok((gkey, BindingType::Command(command.clone()))),
        },
        Node::Table(fields) => match parse_u32(name.as_str()) {
            None => Err(ConfigError::InvalidGKey(name.clone())),
            Some(gkey) => match parse_table_binding(name, fields) {
                Err(error) => Err(error),
                Ok(binding) => Ok((gkey, binding)),
            },
        },
        _ => Err(ConfigError::UnsupportedBinding(name.clone())),
    }
}

/// Reads one entry of the `scancodes` table.
pub fn parse_scancode(name: &String, node: &Node) -> (result: Result<(u32, u32), ConfigError>)
    ensures
        match result {
            Ok(entry) => scancode_of_entry(name@, *node) == Ok::<(u32, u32), ConfigErrorModel>(
                entry,
            ),
            Err(error) => scancode_of_entry(name@, *node) == Err::<(u32, u32), ConfigErrorModel>(
                error@,
            ),
        },
{
    let gkey: u32 = match parse_u32(name.as_str()) {
        None => {
            return Err(ConfigError::InvalidGKey(name.clone()));
        },
        Some(gkey) => gkey,
    };
    match node {
        Node::Integer(scancode) => Ok((
            gkey,
            #[verifier::truncate]
            (*scancode as u32),
        )),
        Node::Text(text) => match parse_u32(text.as_str()) {
            None => Err(ConfigError::InvalidScancode(name.clone())),
            Some(scancode) => Ok((gkey, scancode)),
        },
        _ => Err(ConfigError::InvalidScancode(name.clone())),
    }
}

/// Turns a document into the configuration that it stands for.
pub fn configuration_from_document(document: &Vec<(String, Node)>) -> (result: Result<
    Configuration,
    ConfigError,
>)
    ensures
        result_model(result) == configuration_of(document@),
{
    let binding_entries = match find_table(document, "bindings") {
        None => {
            return Err(ConfigError::MissingBindings);
        },
        Some(table) => table,
    };
    let scancode_entries = match find_table(document, "scancodes") {
        None => {
            return Err(ConfigError::MissingScancodes);
        },
        Some(table) => table,
    };
    let mut bindings: Vec<(u32, BindingType)> = Vec::new();
    let mut i: usize = 0;
    proof {
        assert(bindings_model(bindings@) =~= Seq::<(u32, BindingModel)>::empty());
    }
    while i < binding_entries.len()
        invariant
            i <= binding_entries.len(),
            bindings_of(binding_entries@.take(i as int)) == Ok::<
                Seq<(u32, BindingModel)>,
                ConfigErrorModel,
            >(bindings_model(bindings@)),
            table_field(document@, "bindings"@) == Some(binding_entries@),
            table_field(document@, "scancodes"@) == Some(scancode_entries@),
        decreases binding_entries.len() - i,
    {
        proof {
            assert(binding_entries@.take(i + 1).drop_last() =~= binding_entries@.take(i as int));
        }
        let ghost before = bindings@;
        match parse_binding(&binding_entries[i].0, &binding_entries[i].1) {
            Err(error) => {
                proof {
                    lemma_first_binding_error_stays(binding_entries@, i + 1);
                }
                return Err(error);
            },
            Ok(binding) => {
                bindings.push(binding);
                proof {
                    assert(bindings_model(bindings@) =~= bindings_model(before).push(
                        (binding.0, binding.1@),
                    ));
                }
            },
        }
        i += 1;
    }
    proof {
        assert(binding_entries@.take(i as int) =~= binding_entries@);
    }
    let mut scancodes: Vec<(u32, u32)> = Vec::new();
    let mut j: usize = 0;
    while j < scancode_entries.len()
        invariant
            j <= scancode_entries.len(),
            scancodes_of(scancode_entries@.take(j as int)) == Ok::<
                Seq<(u32, u32)>,
                ConfigErrorModel,
            >(scancodes@),
            bindings_of(binding_entries@) == Ok::<Seq<(u32, BindingModel)>, ConfigErrorModel>(
                bindings_model(bindings@),
            ),
            table_field(document@, "bindings"@) == Some(binding_entries@),
            table_field(document@, "scancodes"@) == Some(scancode_entries@),
        decreases scancode_entries.len() - j,
    {
        proof {
            assert(scancode_entries@.take(j + 1).drop_last() =~= scancode_entries@.take(
                j as int,
            ));
        }
        match parse_scancode(&scancode_entries[j].0, &scancode_entries[j].1) {
            Err(error) => {
                proof {
                    lemma_first_scancode_error_stays(scancode_entries@, j + 1);
                }
                return Err(error);
            },
            Ok(entry) => {
                scancodes.push(entry);
            },
        }
        j += 1;
    }
    proof {
        assert(scancode_entries@.take(j as int) =~= scancode_entries@);
    }
    Ok(Configuration { bindings, scancodes })
}

/// An error among the first entries of the `bindings` table is the error
/// of the whole table.
pub proof fn lemma_first_binding_error_stays(entries: Seq<(String, Node)>, count: int)
    requires
        0 <= count <= entries.len(),
        bindings_of(entries.take(count)) is Err,
    ensures
        bindings_of(entries) == bindings_of(entries.take(count)),
    decreases entries.len(),
{
    if count < entries.len() {
        assert(entries.drop_last().take(count) =~= entries.take(count));
        lemma_first_binding_error_stays(entries.drop_last(), count);
    } else {
        assert(entries.take(count) =~= entries);
    }
}

/// An error among the first entries of the `scancodes` table is the error
/// of the whole table.
pub proof fn lemma_first_scancode_error_stays(entries: Seq<(String, Node)>, count: int)
    requires
        0 <= count <= entries.len(),
        scancodes_of(entries.take(count)) is Err,
    ensures
        scancodes_of(entries) == scancodes_of(entries.take(count)),
    decreases entries.len(),
{
    if count < entries.len() {
        assert(entries.drop_last().take(count) =~= entries.take(count));
        lemma_first_scancode_error_stays(entries.drop_last(), count);
    } else {
        assert(entries.take(count) =~= entries);
    }
}

/// Reads a configuration from the text of a configuration file.  A text
/// that is no TOML document is a syntax error; any other text gives what
/// its document stands for.
pub fn parse_config_from_toml_string(tomlstr: &String) -> (result: Result<
    Configuration,
    ConfigError,
>)
    ensures
        match toml_entries(tomlstr@) {
            None => result matches Err(ConfigError::Syntax(_)),
            Some(document) => result_model(result) == configuration_of(document),
        },
{
    match parse_document(tomlstr.as_str()) {
        Err(message) => Err(ConfigError::Syntax(message)),
        Ok(document) => configuration_from_document(&document),
    }
}

} // verus!
