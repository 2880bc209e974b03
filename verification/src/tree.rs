//! The command tree: commands with their subcommands and parameters,
//! parameters with their choices, and what makes a node localizable.

use vstd::prelude::*;

use crate::string_map::StringMap;

verus! {

/// What a choice is: its name and its localized names by locale tag.
pub struct ChoiceView {
    pub name: Seq<char>,
    pub localizations: Map<Seq<char>, Seq<char>>,
}

/// What a parameter is: its name, its localized names and descriptions by
/// locale tag, and its choices in their order.
pub struct ParameterView {
    pub name: Seq<char>,
    pub name_localizations: Map<Seq<char>, Seq<char>>,
    pub description_localizations: Map<Seq<char>, Seq<char>>,
    pub choices: Seq<ChoiceView>,
}

/// What a command is: its name, its localized names and descriptions by
/// locale tag, and its subcommands and parameters in their order.
pub struct CommandView {
    pub name: Seq<char>,
    pub name_localizations: Map<Seq<char>, Seq<char>>,
    pub description_localizations: Map<Seq<char>, Seq<char>>,
    pub subcommands: Seq<CommandView>,
    pub parameters: Seq<ParameterView>,
}

/// One of the values that a parameter offers. It has localized names and,
/// by its structure, no localized descriptions.
pub struct CommandParameterChoice {
    pub name: String,
    pub localizations: StringMap,
}

/// A parameter of a command.
pub struct CommandParameter {
    pub name: String,
    pub name_localizations: StringMap,
    pub description_localizations: StringMap,
    pub choices: Vec<CommandParameterChoice>,
}

/// A command, which owns its subcommands and its parameters.
pub struct Command {
    pub name: String,
    pub name_localizations: StringMap,
    pub description_localizations: StringMap,
    pub subcommands: Vec<Command>,
    pub parameters: Vec<CommandParameter>,
}

impl View for CommandParameterChoice {
    type V = ChoiceView;

    open spec fn view(&self) -> ChoiceView {
        ChoiceView { name: self.name@, localizations: self.localizations@ }
    }
}

/// What each of the choices is, in the same order.
pub open spec fn choice_views(choices: Seq<CommandParameterChoice>) -> Seq<ChoiceView> {
    Seq::new(choices.len(), |i: int| choices[i]@)
}

impl View for CommandParameter {
    type V = ParameterView;

    open spec fn view(&self) -> ParameterView {
        ParameterView {
            name: self.name@,
            name_localizations: self.name_localizations@,
            description_localizations: self.description_localizations@,
            choices: choice_views(self.choices@),
        }
    }
}

/// What each of the parameters is, in the same order.
pub open spec fn parameter_views(parameters: Seq<CommandParameter>) -> Seq<ParameterView> {
    Seq::new(parameters.len(), |i: int| parameters[i]@)
}

/// What a command is, its subcommands taken the same way.
pub open spec fn command_view(command: Command) -> CommandView
    decreases command,
{
    CommandView {
        name: command.name@,
        name_localizations: command.name_localizations@,
        description_localizations: command.description_localizations@,
        subcommands: Seq::new(
            command.subcommands@.len(),
            |i: int|
                if 0 <= i < command.subcommands@.len() {
                    command_view(command.subcommands@[i])
                } else {
                    arbitrary()
                },
        ),
        parameters: parameter_views(command.parameters@),
    }
}

impl View for Command {
    type V = CommandView;

    open spec fn view(&self) -> CommandView {
        command_view(*self)
    }
}

/// What each of the commands is, in the same order.
pub open spec fn command_views(commands: Seq<Command>) -> Seq<CommandView> {
    Seq::new(commands.len(), |i: int| commands[i]@)
}

/// A command's view holds the views of its subcommands.
pub proof fn lemma_command_view(command: Command)
    ensures
        command@.name == command.name@,
        command@.name_localizations == command.name_localizations@,
        command@.description_localizations == command.description_localizations@,
        command@.subcommands == command_views(command.subcommands@),
        command@.parameters == parameter_views(command.parameters@),
{
    assert(command@.subcommands =~= command_views(command.subcommands@));
}

/// A node that carries localization mappings: always one for its name, and
/// one for its description where its kind of node has descriptions.
pub trait PoiseI18NLocalizable: Sized {
    /// The node's name mapping.
    spec fn name_map(&self) -> StringMap;

    /// The node's description mapping; `None` for a kind of node without
    /// descriptions.
    spec fn description_map(&self) -> Option<StringMap>;

    /// The node with these mappings in the place of its own, and nothing
    /// else changed. A kind of node without descriptions takes none.
    spec fn with_maps(&self, names: StringMap, descriptions: Option<StringMap>) -> Self;

    /// The two mappings and `with_maps` fit together: what is put in is what
    /// is read back, a second put undoes the first, and putting a node's own
    /// mappings changes nothing.
    proof fn lemma_with_maps(
        &self,
        names: StringMap,
        descriptions: Option<StringMap>,
        later_names: StringMap,
        later_descriptions: Option<StringMap>,
    )
        requires
            descriptions.is_some() == self.description_map().is_some(),
            later_descriptions.is_some() == self.description_map().is_some(),
        ensures
            self.with_maps(names, descriptions).name_map() == names,
            self.with_maps(names, descriptions).description_map() == descriptions,
            self.with_maps(names, descriptions).with_maps(later_names, later_descriptions)
                == self.with_maps(later_names, later_descriptions),
            self.with_maps(self.name_map(), self.description_map()) == *self,
    ;

    /// The node's name mapping, to be written through.
    fn name_localizations(&mut self) -> (names: &mut StringMap)
        ensures
            *names == old(self).name_map(),
            *final(self) == old(self).with_maps(*final(names), old(self).description_map()),
    ;

    /// The node's description mapping, to be written through, where its kind
    /// of node has one.
    fn description_localizations(&mut self) -> (descriptions: Option<&mut StringMap>)
        ensures
            match descriptions {
                Some(map) => old(self).description_map() == Some(*map) && *final(self) == old(self).with_maps(old(self).name_map(), Some(*final(map))),
                None => old(self).description_map().is_none() && *final(self) == *old(self),
            },
    ;
}

impl PoiseI18NLocalizable for Command {
    open spec fn name_map(&self) -> StringMap {
        self.name_localizations
    }

    open spec fn description_map(&self) -> Option<StringMap> {
        Some(self.description_localizations)
    }

    open spec fn with_maps(&self, names: StringMap, descriptions: Option<StringMap>) -> Self {
        Command {
            name: self.name,
            name_localizations: names,
            description_localizations: match descriptions {
                Some(map) => map,
                None => self.description_localizations,
            },
            subcommands: self.subcommands,
            parameters: self.parameters,
        }
    }

    proof fn lemma_with_maps(
        &self,
        names: StringMap,
        descriptions: Option<StringMap>,
        later_names: StringMap,
        later_descriptions: Option<StringMap>,
    ) {
    }

    fn name_localizations(&mut self) -> (names: &mut StringMap) {
        &mut self.name_localizations
    }

    fn description_localizations(&mut self) -> (descriptions: Option<&mut StringMap>) {
        Some(&mut self.description_localizations)
    }
}

impl PoiseI18NLocalizable for CommandParameter {
    open spec fn name_map(&self) -> StringMap {
        self.name_localizations
    }

    open spec fn description_map(&self) -> Option<StringMap> {
        Some(self.description_localizations)
    }

    open spec fn with_maps(&self, names: StringMap, descriptions: Option<StringMap>) -> Self {
        CommandParameter {
            name: self.name,
            name_localizations: names,
            description_localizations: match descriptions {
                Some(map) => map,
                None => self.description_localizations,
            },
            choices: self.choices,
        }
    }

    proof fn lemma_with_maps(
        &self,
        names: StringMap,
        descriptions: Option<StringMap>,
        later_names: StringMap,
        later_descriptions: Option<StringMap>,
    ) {
    }

    fn name_localizations(&mut self) -> (names: &mut StringMap) {
        &mut self.name_localizations
    }

    fn description_localizations(&mut self) -> (descriptions: Option<&mut StringMap>) {
        Some(&mut self.description_localizations)
    }
}

impl PoiseI18NLocalizable for CommandParameterChoice {
    open spec fn name_map(&self) -> StringMap {
        self.localizations
    }

    open spec fn description_map(&self) -> Option<StringMap> {
        None
    }

    open spec fn with_maps(&self, names: StringMap, descriptions: Option<StringMap>) -> Self {
        CommandParameterChoice { name: self.name, localizations: names }
    }

    proof fn lemma_with_maps(
        &self,
        names: StringMap,
        descriptions: Option<StringMap>,
        later_names: StringMap,
        later_descriptions: Option<StringMap>,
    ) {
    }

    fn name_localizations(&mut self) -> (names: &mut StringMap) {
        &mut self.localizations
    }

    fn description_localizations(&mut self) -> (descriptions: Option<&mut StringMap>) {
        None
    }
}

} // verus!
