//! The walk over the command tree: what the translation pass makes of a
//! tree, and the functions that carry it out in place.

use vstd::prelude::*;

use crate::apply::{apply_localization, overlay};
use crate::kind::CommandLocalization;
use crate::path::{lookup_key_of, KeyPath};
use crate::store::{I18NAccesses, LocaleView, TranslationStore};
use crate::tree::{
    choice_views, command_views, lemma_command_view, parameter_views, ChoiceView, Command,
    CommandParameter, CommandParameterChoice, CommandView, ParameterView,
};

verus! {

/// A choice after the pass, `prefix` being the path of its parameter: its
/// names are looked up under the prefix and its own name.
pub open spec fn localized_choice(
    choice: ChoiceView,
    prefix: Seq<Seq<char>>,
    locales: Seq<LocaleView>,
) -> ChoiceView {
    ChoiceView {
        name: choice.name,
        localizations: overlay(
            choice.localizations,
            locales,
            lookup_key_of(prefix.push(choice.name), CommandLocalization::Name),
        ),
    }
}

/// The choices of one parameter after the pass.
pub open spec fn localized_choices(
    choices: Seq<ChoiceView>,
    prefix: Seq<Seq<char>>,
    locales: Seq<LocaleView>,
) -> Seq<ChoiceView> {
    Seq::new(choices.len(), |i: int| localized_choice(choices[i], prefix, locales))
}

/// A parameter after the pass, `prefix` being the path of its command: its
/// names and descriptions are looked up under the prefix and its own name,
/// and its choices one level further down.
pub open spec fn localized_parameter(
    parameter: ParameterView,
    prefix: Seq<Seq<char>>,
    locales: Seq<LocaleView>,
) -> ParameterView {
    let path = prefix.push(parameter.name);
    ParameterView {
        name: parameter.name,
        name_localizations: overlay(
            parameter.name_localizations,
            locales,
            lookup_key_of(path, CommandLocalization::Name),
        ),
        description_localizations: overlay(
            parameter.description_localizations,
            locales,
            lookup_key_of(path, CommandLocalization::Description),
        ),
        choices: localized_choices(parameter.choices, path, locales),
    }
}

/// The parameters of one command after the pass.
pub open spec fn localized_parameters(
    parameters: Seq<ParameterView>,
    prefix: Seq<Seq<char>>,
    locales: Seq<LocaleView>,
) -> Seq<ParameterView> {
    Seq::new(parameters.len(), |i: int| localized_parameter(parameters[i], prefix, locales))
}

/// A command after the pass. Its own path is its name alone, whatever
/// command it is a subcommand of: a subcommand's keys do not hold the names
/// of the commands above it.
pub open spec fn localized_command(command: CommandView, locales: Seq<LocaleView>) -> CommandView
    decreases command,
{
    let path = seq![command.name];
    CommandView {
        name: command.name,
        name_localizations: overlay(
            command.name_localizations,
            locales,
            lookup_key_of(path, CommandLocalization::Name),
        ),
        description_localizations: overlay(
            command.description_localizations,
            locales,
            lookup_key_of(path, CommandLocalization::Description),
        ),
        subcommands: Seq::new(
            command.subcommands.len(),
            |i: int|
                if 0 <= i < command.subcommands.len() {
                    localized_command(command.subcommands[i], locales)
                } else {
                    arbitrary()
                },
        ),
        parameters: localized_parameters(command.parameters, path, locales),
    }
}

/// A sequence of commands after the pass.
pub open spec fn localized_commands(commands: Seq<CommandView>, locales: Seq<LocaleView>) -> Seq<
    CommandView,
> {
    Seq::new(commands.len(), |i: int| localized_command(commands[i], locales))
}

/// A command after the pass has its subcommands after the pass.
pub proof fn lemma_localized_subcommands(command: CommandView, locales: Seq<LocaleView>)
    ensures
        localized_command(command, locales).subcommands == localized_commands(
            command.subcommands,
            locales,
        ),
{
    assert(localized_command(command, locales).subcommands =~= localized_commands(
        command.subcommands,
        locales,
    ));
}

/// Localizes the choices of one parameter, `path` leading to the parameter.
/// The path is left as it was found.
pub fn translate_choices(
    path: &mut KeyPath,
    choices: &mut Vec<CommandParameterChoice>,
    locale_accesses: &I18NAccesses<'_>,
)
    ensures
        final(path)@ == old(path)@,
        choice_views(final(choices)@) == localized_choices(
            choice_views(old(choices)@),
            old(path)@,
            locale_accesses@,
        ),
{
    let n: usize = choices.len();
    let mut i: usize = 0;
    while i < n
        invariant
            path@ == old(path)@,
            n == choices@.len(),
            n == old(choices)@.len(),
            i <= n,
            forall|j: int|
                0 <= j < i ==> choices@[j]@ == localized_choice(
                    old(choices)@[j]@,
                    old(path)@,
                    locale_accesses@,
                ),
            forall|j: int| i <= j < n ==> choices@[j] == old(choices)@[j],
        decreases n - i,
    {
        let choice = &mut choices[i];
        let name = choice.name.clone();
        apply_localization(path, name, choice, locale_accesses);
        path.pop();
        assert(path@ =~= old(path)@);
        i = i + 1;
    }
    assert(choice_views(choices@) =~= localized_choices(
        choice_views(old(choices)@),
        old(path)@,
        locale_accesses@,
    ));
}

/// Localizes the parameters of one command and their choices, `path`
/// leading to the command. The path is left as it was found.
pub fn translate_parameters(
    path: &mut KeyPath,
    parameters: &mut Vec<CommandParameter>,
    locale_accesses: &I18NAccesses<'_>,
)
    ensures
        final(path)@ == old(path)@,
        parameter_views(final(parameters)@) == localized_parameters(
            parameter_views(old(parameters)@),
            old(path)@,
            locale_accesses@,
        ),
{
    let n: usize = parameters.len();
    let mut i: usize = 0;
    while i < n
        invariant
            path@ == old(path)@,
            n == parameters@.len(),
            n == old(parameters)@.len(),
            i <= n,
            forall|j: int|
                0 <= j < i ==> parameters@[j]@ == localized_parameter(
                    old(parameters)@[j]@,
                    old(path)@,
                    locale_accesses@,
                ),
            forall|j: int| i <= j < n ==> parameters@[j] == old(parameters)@[j],
        decreases n - i,
    {
        let param = &mut parameters[i];
        let name = param.name.clone();
        apply_localization(path, name, param, locale_accesses);
        translate_choices(path, &mut param.choices, locale_accesses);
        path.pop();
        assert(path@ =~= old(path)@);
        i = i + 1;
    }
    assert(parameter_views(parameters@) =~= localized_parameters(
        parameter_views(old(parameters)@),
        old(path)@,
        locale_accesses@,
    ));
}

/// Localizes every command of the sequence: first its subcommands, each of
/// which starts a path of its own, then the command itself under its name,
/// then its parameters and their choices below it.
pub fn apply_translation(commands: &mut Vec<Command>, locale_accesses: &I18NAccesses<'_>)
    ensures
        command_views(final(commands)@) == localized_commands(
            command_views(old(commands)@),
            locale_accesses@,
        ),
    decreases *old(commands),
{
    let n: usize = commands.len();
    let mut i: usize = 0;
    while i < n
        invariant
            n == commands@.len(),
            n == old(commands)@.len(),
            i <= n,
            forall|j: int|
                0 <= j < i ==> commands@[j]@ == localized_command(
                    old(commands)@[j]@,
                    locale_accesses@,
                ),
            forall|j: int| i <= j < n ==> commands@[j] == old(commands)@[j],
        decreases n - i,
    {
        let ghost before = commands@[i as int];
        let command = &mut commands[i];
        let mut path_vec = KeyPath::new();
        apply_translation(&mut command.subcommands, locale_accesses);
        let name = command.name.clone();
        apply_localization(&mut path_vec, name, command, locale_accesses);
        assert(path_vec@ =~= seq![before.name@]);
        translate_parameters(&mut path_vec, &mut command.parameters, locale_accesses);
        proof {
            lemma_command_view(before);
            lemma_command_view(*command);
            lemma_localized_subcommands(before@, locale_accesses@);
        }
        i = i + 1;
    }
    assert(command_views(commands@) =~= localized_commands(
        command_views(old(commands)@),
        locale_accesses@,
    ));
}

/// Overlays the store's translations onto the command tree: the accessor
/// set is made of the store once, one accessor for each of its locales, and
/// the tree is walked with it.
pub fn apply_translations(commands: &mut Vec<Command>, wrapper: &TranslationStore)
    ensures
        command_views(final(commands)@) == localized_commands(
            command_views(old(commands)@),
            wrapper@,
        ),
{
    let locale_accesses = wrapper.accesses();
    apply_translation(commands, &locale_accesses)
}

} // verus!
