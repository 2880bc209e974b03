//! The lookup keys of a command tree: every key that a translation pass asks
//! the resources for, so that a store can be filled with them beforehand.

use vstd::prelude::*;

use crate::kind::CommandLocalization;
use crate::path::{lookup_key_of, segment_views, KeyPath};
use crate::tree::{
    choice_views, command_views, lemma_command_view, parameter_views, ChoiceView, Command,
    CommandParameter, CommandParameterChoice, CommandView, ParameterView,
};

verus! {

/// The parts put one behind the other.
pub open spec fn concat(parts: Seq<Seq<Seq<char>>>) -> Seq<Seq<char>>
    decreases parts.len(),
{
    if parts.len() == 0 {
        Seq::empty()
    } else {
        concat(parts.drop_last()) + parts.last()
    }
}

/// The first `done + 1` parts put together are the first `done` put
/// together and then the next one.
pub proof fn lemma_concat_step(parts: Seq<Seq<Seq<char>>>, done: int)
    requires
        0 <= done < parts.len(),
    ensures
        concat(parts.take(done + 1)) == concat(parts.take(done)) + parts[done],
{
    assert(parts.take(done + 1).drop_last() =~= parts.take(done));
    assert(parts.take(done + 1).last() == parts[done]);
}

/// The keys of the node at the end of a path: that of its name, then that
/// of its description.
pub open spec fn node_keys(path: Seq<Seq<char>>) -> Seq<Seq<char>> {
    seq![
        lookup_key_of(path, CommandLocalization::Name),
        lookup_key_of(path, CommandLocalization::Description),
    ]
}

/// The keys of each choice of a parameter, `prefix` being the parameter's
/// path.
pub open spec fn choice_key_parts(choices: Seq<ChoiceView>, prefix: Seq<Seq<char>>) -> Seq<
    Seq<Seq<char>>,
> {
    Seq::new(choices.len(), |i: int| node_keys(prefix.push(choices[i].name)))
}

/// The keys of a parameter and then of its choices, `prefix` being the
/// path of its command.
pub open spec fn parameter_keys(parameter: ParameterView, prefix: Seq<Seq<char>>) -> Seq<
    Seq<char>,
> {
    let path = prefix.push(parameter.name);
    node_keys(path) + concat(choice_key_parts(parameter.choices, path))
}

/// The keys of each parameter of a command, `prefix` being the command's
/// path.
pub open spec fn parameter_key_parts(
    parameters: Seq<ParameterView>,
    prefix: Seq<Seq<char>>,
) -> Seq<Seq<Seq<char>>> {
    Seq::new(parameters.len(), |i: int| parameter_keys(parameters[i], prefix))
}

/// The keys of each subcommand of a command.
pub open spec fn subcommand_key_parts(command: CommandView) -> Seq<Seq<Seq<char>>>
    decreases command, 0int,
{
    Seq::new(
        command.subcommands.len(),
        |i: int|
            if 0 <= i < command.subcommands.len() {
                command_keys(command.subcommands[i])
            } else {
                arbitrary()
            },
    )
}

/// The keys of a command in the order of the walk: those of its
/// subcommands, then its own, then those of its parameters.
pub open spec fn command_keys(command: CommandView) -> Seq<Seq<char>>
    decreases command, 1int,
{
    let path = seq![command.name];
    concat(subcommand_key_parts(command)) + node_keys(path) + concat(
        parameter_key_parts(command.parameters, path),
    )
}

/// The keys of each command of a sequence.
pub open spec fn command_key_parts(commands: Seq<CommandView>) -> Seq<Seq<Seq<char>>> {
    Seq::new(commands.len(), |i: int| command_keys(commands[i]))
}

/// Every key that a pass over the commands asks for, in the order of the
/// walk.
pub open spec fn tree_keys(commands: Seq<CommandView>) -> Seq<Seq<char>> {
    concat(command_key_parts(commands))
}

/// A command's keys start with the keys of its subcommands.
pub proof fn lemma_command_keys(command: CommandView)
    ensures
        command_keys(command) == tree_keys(command.subcommands) + node_keys(seq![command.name])
            + concat(parameter_key_parts(command.parameters, seq![command.name])),
{
    assert(subcommand_key_parts(command) =~= command_key_parts(command.subcommands));
}

/// Appends the keys of the node at the end of the path.
fn push_node_keys(path: &KeyPath, keys: &mut Vec<String>)
    ensures
        segment_views(final(keys)@) == segment_views(old(keys)@) + node_keys(path@),
{
    keys.push(path.lookup_key(CommandLocalization::Name));
    keys.push(path.lookup_key(CommandLocalization::Description));
    assert(segment_views(keys@) =~= segment_views(old(keys)@) + node_keys(path@));
}

/// Appends the keys of the choices of one parameter, `path` leading to the
/// parameter. The path is left as it was found.
fn push_choice_keys(
    path: &mut KeyPath,
    choices: &Vec<CommandParameterChoice>,
    keys: &mut Vec<String>,
)
    ensures
        final(path)@ == old(path)@,
        segment_views(final(keys)@) == segment_views(old(keys)@) + concat(
            choice_key_parts(choice_views(choices@), old(path)@),
        ),
{
    let ghost parts = choice_key_parts(choice_views(choices@), old(path)@);
    let n: usize = choices.len();
    let mut i: usize = 0;
    assert(parts.take(0) =~= Seq::<Seq<Seq<char>>>::empty());
    assert(segment_views(keys@) =~= segment_views(old(keys)@) + concat(parts.take(0)));
    while i < n
        invariant
            path@ == old(path)@,
            parts == choice_key_parts(choice_views(choices@), old(path)@),
            n == choices@.len(),
            i <= n,
            segment_views(keys@) == segment_views(old(keys)@) + concat(parts.take(i as int)),
        decreases n - i,
    {
        path.push(choices[i].name.clone());
        push_node_keys(path, keys);
        path.pop();
        proof {
            assert(path@ =~= old(path)@);
            lemma_concat_step(parts, i as int);
            assert(segment_views(keys@) =~= segment_views(old(keys)@) + concat(
                parts.take(i as int + 1),
            ));
        }
        i = i + 1;
    }
    assert(parts.take(n as int) =~= parts);
}

/// Appends the keys of the parameters of one command and of their choices,
/// `path` leading to the command. The path is left as it was found.
fn push_parameter_keys(path: &mut KeyPath, parameters: &Vec<CommandParameter>, keys: &mut Vec<String>)
    ensures
        final(path)@ == old(path)@,
        segment_views(final(keys)@) == segment_views(old(keys)@) + concat(
            parameter_key_parts(parameter_views(parameters@), old(path)@),
        ),
{
    let ghost parts = parameter_key_parts(parameter_views(parameters@), old(path)@);
    let n: usize = parameters.len();
    let mut i: usize = 0;
    assert(parts.take(0) =~= Seq::<Seq<Seq<char>>>::empty());
    assert(segment_views(keys@) =~= segment_views(old(keys)@) + concat(parts.take(0)));
    while i < n
        invariant
            path@ == old(path)@,
            parts == parameter_key_parts(parameter_views(parameters@), old(path)@),
            n == parameters@.len(),
            i <= n,
            segment_views(keys@) == segment_views(old(keys)@) + concat(parts.take(i as int)),
        decreases n - i,
    {
        path.push(parameters[i].name.clone());
        push_node_keys(path, keys);
        push_choice_keys(path, &parameters[i].choices, keys);
        path.pop();
        proof {
            assert(path@ =~= old(path)@);
            lemma_concat_step(parts, i as int);
            assert(segment_views(keys@) =~= segment_views(old(keys)@) + concat(
                parts.take(i as int + 1),
            ));
        }
        i = i + 1;
    }
    assert(parts.take(n as int) =~= parts);
}

/// Appends the keys of the commands and of everything below them.
fn push_command_keys(commands: &Vec<Command>, keys: &mut Vec<String>)
    ensures
        segment_views(final(keys)@) == segment_views(old(keys)@) + tree_keys(
            command_views(commands@),
        ),
    decreases commands,
{
    let ghost parts = command_key_parts(command_views(commands@));
    let n: usize = commands.len();
    let mut i: usize = 0;
    assert(parts.take(0) =~= Seq::<Seq<Seq<char>>>::empty());
    assert(segment_views(keys@) =~= segment_views(old(keys)@) + concat(parts.take(0)));
    while i < n
        invariant
            parts == command_key_parts(command_views(commands@)),
            n == commands@.len(),
            i <= n,
            segment_views(keys@) == segment_views(old(keys)@) + concat(parts.take(i as int)),
        decreases n - i,
    {
        let command = &commands[i];
        push_command_keys(&command.subcommands, keys);
        let mut path = KeyPath::new();
        path.push(command.name.clone());
        assert(path@ =~= seq![command.name@]);
        push_node_keys(&path, keys);
        push_parameter_keys(&mut path, &command.parameters, keys);
        proof {
            lemma_command_view(*command);
            lemma_command_keys(command@);
            lemma_concat_step(parts, i as int);
            assert(segment_views(keys@) =~= segment_views(old(keys)@) + concat(
                parts.take(i as int + 1),
            ));
        }
        i = i + 1;
    }
    assert(parts.take(n as int) =~= parts);
}

/// Every key that a pass over the commands asks the resources for, in the
/// order of the walk: two for each command, parameter and choice.
pub fn lookup_keys(commands: &Vec<Command>) -> (keys: Vec<String>)
    ensures
        segment_views(keys@) == tree_keys(command_views(commands@)),
{
    let mut keys: Vec<String> = Vec::new();
    push_command_keys(commands, &mut keys);
    assert(segment_views(keys@) =~= tree_keys(command_views(commands@)));
    keys
}

} // verus!
