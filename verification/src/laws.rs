//! What holds of the translation pass on every tree and every store.

use vstd::prelude::*;

use crate::apply::{overlay, resolved};
use crate::keys::{
    choice_key_parts, command_key_parts, command_keys, concat, lemma_command_keys, node_keys,
    parameter_key_parts, parameter_keys, tree_keys,
};
use crate::kind::CommandLocalization;
use crate::path::{dotted, lookup_key_of, separator};
use crate::store::LocaleView;
use crate::tree::{ChoiceView, CommandView, ParameterView};
use crate::walk::{
    lemma_localized_subcommands, localized_choice, localized_choices, localized_command,
    localized_commands, localized_parameter, localized_parameters,
};

verus! {

/// Whether one of the locales has this tag and holds a string under the key.
pub open spec fn has_translation(locales: Seq<LocaleView>, key: Seq<char>, tag: Seq<char>) -> bool {
    exists|i: int|
        0 <= i < locales.len() && (#[trigger] locales[i]).tag == tag
            && locales[i].resources.contains_key(key)
}

/// A string is found for a locale tag exactly where one of the locales has
/// the tag and holds the key, and it is a string that such a locale holds
/// under the key.
pub proof fn lemma_resolved(locales: Seq<LocaleView>, key: Seq<char>, tag: Seq<char>)
    ensures
        resolved(locales, key, tag).is_some() == has_translation(locales, key, tag),
        resolved(locales, key, tag).is_some() ==> exists|i: int|
            0 <= i < locales.len() && (#[trigger] locales[i]).tag == tag
                && locales[i].resources.contains_key(key) && locales[i].resources[key]
                == resolved(locales, key, tag).unwrap(),
    decreases locales.len(),
{
    if locales.len() > 0 {
        let front = locales.drop_last();
        let last = locales.last();
        lemma_resolved(front, key, tag);
        if last.tag == tag && last.resources.contains_key(key) {
            assert(locales[locales.len() - 1] == last);
        } else {
            if has_translation(front, key, tag) {
                let i = choose|i: int|
                    0 <= i < front.len() && (#[trigger] front[i]).tag == tag
                        && front[i].resources.contains_key(key) && front[i].resources[key]
                        == resolved(front, key, tag).unwrap();
                assert(locales[i] == front[i]);
            }
            if has_translation(locales, key, tag) {
                let i = choose|i: int|
                    0 <= i < locales.len() && (#[trigger] locales[i]).tag == tag
                        && locales[i].resources.contains_key(key);
                assert(i < front.len());
                assert(front[i] == locales[i]);
            }
        }
    }
}

/// A lookup that finds nothing changes nothing: where no locale with the
/// tag holds the key, the mapping has an entry for the tag after the pass
/// exactly if it had one before, and the entry is the one it had.
pub proof fn lemma_miss_keeps_entry(
    map: Map<Seq<char>, Seq<char>>,
    locales: Seq<LocaleView>,
    key: Seq<char>,
    tag: Seq<char>,
)
    requires
        !has_translation(locales, key, tag),
    ensures
        overlay(map, locales, key).contains_key(tag) == map.contains_key(tag),
        map.contains_key(tag) ==> overlay(map, locales, key)[tag] == map[tag],
{
    lemma_resolved(locales, key, tag);
}

/// The pass removes nothing: every locale tag that had an entry has one
/// afterwards, and a tag has one afterwards only if it had one before or a
/// string was found for it.
pub proof fn lemma_overlay_domain(
    map: Map<Seq<char>, Seq<char>>,
    locales: Seq<LocaleView>,
    key: Seq<char>,
    tag: Seq<char>,
)
    ensures
        map.contains_key(tag) ==> overlay(map, locales, key).contains_key(tag),
        overlay(map, locales, key).contains_key(tag) == (map.contains_key(tag) || has_translation(
            locales,
            key,
            tag,
        )),
{
    lemma_resolved(locales, key, tag);
}

/// The lookups of one key, made a second time, change nothing more.
pub proof fn lemma_overlay_idempotent(
    map: Map<Seq<char>, Seq<char>>,
    locales: Seq<LocaleView>,
    key: Seq<char>,
)
    ensures
        overlay(overlay(map, locales, key), locales, key) == overlay(map, locales, key),
{
    assert(overlay(overlay(map, locales, key), locales, key) =~= overlay(map, locales, key));
}

/// The pass on a choice, made a second time, changes nothing more.
pub proof fn lemma_choice_idempotent(
    choice: ChoiceView,
    prefix: Seq<Seq<char>>,
    locales: Seq<LocaleView>,
)
    ensures
        localized_choice(localized_choice(choice, prefix, locales), prefix, locales)
            == localized_choice(choice, prefix, locales),
{
    lemma_overlay_idempotent(
        choice.localizations,
        locales,
        lookup_key_of(prefix.push(choice.name), CommandLocalization::Name),
    );
}

/// The pass on a parameter and its choices, made a second time, changes
/// nothing more.
pub proof fn lemma_parameter_idempotent(
    parameter: ParameterView,
    prefix: Seq<Seq<char>>,
    locales: Seq<LocaleView>,
)
    ensures
        localized_parameter(localized_parameter(parameter, prefix, locales), prefix, locales)
            == localized_parameter(parameter, prefix, locales),
{
    let path = prefix.push(parameter.name);
    let once = localized_parameter(parameter, prefix, locales);
    lemma_overlay_idempotent(
        parameter.name_localizations,
        locales,
        lookup_key_of(path, CommandLocalization::Name),
    );
    lemma_overlay_idempotent(
        parameter.description_localizations,
        locales,
        lookup_key_of(path, CommandLocalization::Description),
    );
    assert forall|i: int| 0 <= i < parameter.choices.len() implies localized_choice(
        #[trigger] once.choices[i],
        path,
        locales,
    ) == once.choices[i] by {
        lemma_choice_idempotent(parameter.choices[i], path, locales);
    }
    assert(localized_choices(once.choices, path, locales) =~= once.choices);
}

/// The pass on a command and everything below it, made a second time,
/// changes nothing more.
pub proof fn lemma_command_idempotent(command: CommandView, locales: Seq<LocaleView>)
    ensures
        localized_command(localized_command(command, locales), locales) == localized_command(
            command,
            locales,
        ),
    decreases command,
{
    let path = seq![command.name];
    let once = localized_command(command, locales);
    let twice = localized_command(once, locales);
    lemma_overlay_idempotent(
        command.name_localizations,
        locales,
        lookup_key_of(path, CommandLocalization::Name),
    );
    lemma_overlay_idempotent(
        command.description_localizations,
        locales,
        lookup_key_of(path, CommandLocalization::Description),
    );
    assert forall|i: int| 0 <= i < command.parameters.len() implies localized_parameter(
        #[trigger] once.parameters[i],
        path,
        locales,
    ) == once.parameters[i] by {
        lemma_parameter_idempotent(command.parameters[i], path, locales);
    }
    assert(localized_parameters(once.parameters, path, locales) =~= once.parameters);
    lemma_localized_subcommands(command, locales);
    lemma_localized_subcommands(once, locales);
    assert forall|i: int| 0 <= i < command.subcommands.len() implies localized_command(
        #[trigger] once.subcommands[i],
        locales,
    ) == once.subcommands[i] by {
        lemma_command_idempotent(command.subcommands[i], locales);
    }
    assert(twice.subcommands =~= once.subcommands);
}

/// Idempotence: the pass applied twice in succession to a tree with the
/// same store leaves the tree as the pass applied once leaves it.
pub proof fn lemma_pass_idempotent(commands: Seq<CommandView>, locales: Seq<LocaleView>)
    ensures
        localized_commands(localized_commands(commands, locales), locales) == localized_commands(
            commands,
            locales,
        ),
{
    let once = localized_commands(commands, locales);
    assert forall|i: int| 0 <= i < commands.len() implies localized_command(
        #[trigger] once[i],
        locales,
    ) == once[i] by {
        lemma_command_idempotent(commands[i], locales);
    }
    assert(localized_commands(once, locales) =~= once);
}

/// The key of a command's own strings is its name and the kind's tag with a
/// separator between them, whatever the command is a subcommand of.
pub proof fn lemma_command_key(command: Seq<char>, kind: CommandLocalization)
    ensures
        lookup_key_of(seq![command], kind) == command + separator() + kind.tag_view(),
{
    let segments = seq![command].push(kind.tag_view());
    assert(segments.drop_last() =~= seq![command]);
    assert(dotted(seq![command]) == command);
}

/// The key of a parameter's strings is the command's name, the parameter's
/// name and the kind's tag, with a separator between neighbours.
pub proof fn lemma_parameter_key(command: Seq<char>, parameter: Seq<char>, kind: CommandLocalization)
    ensures
        lookup_key_of(seq![command].push(parameter), kind) == command + separator() + parameter
            + separator() + kind.tag_view(),
{
    let path = seq![command].push(parameter);
    let segments = path.push(kind.tag_view());
    assert(segments.drop_last() =~= path);
    assert(path.drop_last() =~= seq![command]);
    assert(dotted(seq![command]) == command);
    assert(dotted(path) == command + separator() + parameter);
}

/// The key of a choice's strings is the command's name, the parameter's
/// name, the choice's name and the kind's tag, with a separator between
/// neighbours.
pub proof fn lemma_choice_key(
    command: Seq<char>,
    parameter: Seq<char>,
    choice: Seq<char>,
    kind: CommandLocalization,
)
    ensures
        lookup_key_of(seq![command].push(parameter).push(choice), kind) == command + separator()
            + parameter + separator() + choice + separator() + kind.tag_view(),
{
    let upper = seq![command].push(parameter);
    let path = upper.push(choice);
    let segments = path.push(kind.tag_view());
    assert(segments.drop_last() =~= path);
    assert(path.drop_last() =~= upper);
    assert(upper.drop_last() =~= seq![command]);
    assert(dotted(seq![command]) == command);
    assert(dotted(upper) == command + separator() + parameter);
    assert(dotted(path) == command + separator() + parameter + separator() + choice);
}

/// Whether two stores have the same locale tags in the same order and hold
/// the same under one key.
pub open spec fn agree_on_key(
    locales: Seq<LocaleView>,
    others: Seq<LocaleView>,
    key: Seq<char>,
) -> bool {
    &&& locales.len() == others.len()
    &&& forall|i: int|
        0 <= i < locales.len() ==> (#[trigger] locales[i]).tag == others[i].tag
            && locales[i].resources.contains_key(key) == others[i].resources.contains_key(key)
            && (locales[i].resources.contains_key(key) ==> locales[i].resources[key]
            == others[i].resources[key])
}

/// What the lookups of one key leave depends on the store only through
/// what it holds under that key.
pub proof fn lemma_overlay_reads_one_key(
    map: Map<Seq<char>, Seq<char>>,
    locales: Seq<LocaleView>,
    others: Seq<LocaleView>,
    key: Seq<char>,
)
    requires
        agree_on_key(locales, others, key),
    ensures
        overlay(map, locales, key) == overlay(map, others, key),
{
    assert forall|tag: Seq<char>| resolved(locales, key, tag) == resolved(others, key, tag) by {
        lemma_resolved_reads_one_key(locales, others, key, tag);
    }
    assert(overlay(map, locales, key) =~= overlay(map, others, key));
}

/// The string found for a locale tag depends on the store only through
/// what it holds under the key.
proof fn lemma_resolved_reads_one_key(
    locales: Seq<LocaleView>,
    others: Seq<LocaleView>,
    key: Seq<char>,
    tag: Seq<char>,
)
    requires
        agree_on_key(locales, others, key),
    ensures
        resolved(locales, key, tag) == resolved(others, key, tag),
    decreases locales.len(),
{
    if locales.len() > 0 {
        assert(locales[locales.len() - 1] == locales.last());
        assert(others[others.len() - 1] == others.last());
        let front = locales.drop_last();
        let other_front = others.drop_last();
        assert forall|i: int| 0 <= i < front.len() implies (#[trigger] front[i]).tag
            == other_front[i].tag && front[i].resources.contains_key(key)
            == other_front[i].resources.contains_key(key) && (front[i].resources.contains_key(key)
            ==> front[i].resources[key] == other_front[i].resources[key]) by {
            assert(front[i] == locales[i]);
            assert(other_front[i] == others[i]);
        }
        lemma_resolved_reads_one_key(front, other_front, key, tag);
    }
}

/// Choice exclusion: a choice after the pass is the same whatever the store
/// holds under any key but that of the choice's name. No description that
/// the store may hold for the choice is written anywhere.
pub proof fn lemma_choice_reads_name_only(
    choice: ChoiceView,
    prefix: Seq<Seq<char>>,
    locales: Seq<LocaleView>,
    others: Seq<LocaleView>,
)
    requires
        agree_on_key(
            locales,
            others,
            lookup_key_of(prefix.push(choice.name), CommandLocalization::Name),
        ),
    ensures
        localized_choice(choice, prefix, locales) == localized_choice(choice, prefix, others),
{
    lemma_overlay_reads_one_key(
        choice.localizations,
        locales,
        others,
        lookup_key_of(prefix.push(choice.name), CommandLocalization::Name),
    );
}

/// Whether two stores hold the same under each of the keys.
pub open spec fn agree_on_keys(
    locales: Seq<LocaleView>,
    others: Seq<LocaleView>,
    keys: Seq<Seq<char>>,
) -> bool {
    forall|j: int| 0 <= j < keys.len() ==> agree_on_key(locales, others, #[trigger] keys[j])
}

/// Stores that agree on the keys of two sequences put together agree on
/// the keys of each.
proof fn lemma_agree_split(
    locales: Seq<LocaleView>,
    others: Seq<LocaleView>,
    front: Seq<Seq<char>>,
    back: Seq<Seq<char>>,
)
    requires
        agree_on_keys(locales, others, front + back),
    ensures
        agree_on_keys(locales, others, front),
        agree_on_keys(locales, others, back),
{
    let all = front + back;
    assert forall|j: int| 0 <= j < front.len() implies agree_on_key(
        locales,
        others,
        #[trigger] front[j],
    ) by {
        assert(all[j] == front[j]);
    }
    assert forall|j: int| 0 <= j < back.len() implies agree_on_key(
        locales,
        others,
        #[trigger] back[j],
    ) by {
        assert(all[front.len() + j] == back[j]);
    }
}

/// Stores that agree on the keys of all parts put together agree on the
/// keys of each part.
proof fn lemma_agree_part(
    locales: Seq<LocaleView>,
    others: Seq<LocaleView>,
    parts: Seq<Seq<Seq<char>>>,
    place: int,
)
    requires
        agree_on_keys(locales, others, concat(parts)),
        0 <= place < parts.len(),
    ensures
        agree_on_keys(locales, others, parts[place]),
    decreases parts.len(),
{
    lemma_agree_split(locales, others, concat(parts.drop_last()), parts.last());
    if place < parts.len() - 1 {
        lemma_agree_part(locales, others, parts.drop_last(), place);
        assert(parts.drop_last()[place] == parts[place]);
    }
}

/// Stores that agree on the keys of a node give the node's two mappings
/// the same entries.
proof fn lemma_node_reads_its_keys(
    names: Map<Seq<char>, Seq<char>>,
    descriptions: Map<Seq<char>, Seq<char>>,
    path: Seq<Seq<char>>,
    locales: Seq<LocaleView>,
    others: Seq<LocaleView>,
)
    requires
        agree_on_keys(locales, others, node_keys(path)),
    ensures
        overlay(names, locales, lookup_key_of(path, CommandLocalization::Name)) == overlay(
            names,
            others,
            lookup_key_of(path, CommandLocalization::Name),
        ),
        overlay(descriptions, locales, lookup_key_of(path, CommandLocalization::Description))
            == overlay(
            descriptions,
            others,
            lookup_key_of(path, CommandLocalization::Description),
        ),
{
    assert(node_keys(path)[0] == lookup_key_of(path, CommandLocalization::Name));
    assert(node_keys(path)[1] == lookup_key_of(path, CommandLocalization::Description));
    lemma_overlay_reads_one_key(
        names,
        locales,
        others,
        lookup_key_of(path, CommandLocalization::Name),
    );
    lemma_overlay_reads_one_key(
        descriptions,
        locales,
        others,
        lookup_key_of(path, CommandLocalization::Description),
    );
}

/// A parameter and its choices after the pass are the same with two stores
/// that agree on the parameter's keys.
proof fn lemma_parameter_reads_its_keys(
    parameter: ParameterView,
    prefix: Seq<Seq<char>>,
    locales: Seq<LocaleView>,
    others: Seq<LocaleView>,
)
    requires
        agree_on_keys(locales, others, parameter_keys(parameter, prefix)),
    ensures
        localized_parameter(parameter, prefix, locales) == localized_parameter(
            parameter,
            prefix,
            others,
        ),
{
    let path = prefix.push(parameter.name);
    let parts = choice_key_parts(parameter.choices, path);
    lemma_agree_split(locales, others, node_keys(path), concat(parts));
    lemma_node_reads_its_keys(
        parameter.name_localizations,
        parameter.description_localizations,
        path,
        locales,
        others,
    );
    assert forall|i: int| 0 <= i < parameter.choices.len() implies localized_choice(
        parameter.choices[i],
        path,
        locales,
    ) == localized_choice(parameter.choices[i], path, others) by {
        lemma_agree_part(locales, others, parts, i);
        let choice_path = path.push(parameter.choices[i].name);
        assert(parts[i] == node_keys(choice_path));
        assert(node_keys(choice_path)[0] == lookup_key_of(
            choice_path,
            CommandLocalization::Name,
        ));
        lemma_choice_reads_name_only(parameter.choices[i], path, locales, others);
    }
    assert(localized_choices(parameter.choices, path, locales) =~= localized_choices(
        parameter.choices,
        path,
        others,
    ));
}

/// A command and everything below it after the pass are the same with two
/// stores that agree on the command's keys.
proof fn lemma_command_reads_its_keys(
    command: CommandView,
    locales: Seq<LocaleView>,
    others: Seq<LocaleView>,
)
    requires
        agree_on_keys(locales, others, command_keys(command)),
    ensures
        localized_command(command, locales) == localized_command(command, others),
    decreases command,
{
    let path = seq![command.name];
    let parameter_parts = parameter_key_parts(command.parameters, path);
    let subcommand_parts = command_key_parts(command.subcommands);
    lemma_command_keys(command);
    lemma_agree_split(
        locales,
        others,
        tree_keys(command.subcommands) + node_keys(path),
        concat(parameter_parts),
    );
    lemma_agree_split(locales, others, tree_keys(command.subcommands), node_keys(path));
    lemma_node_reads_its_keys(
        command.name_localizations,
        command.description_localizations,
        path,
        locales,
        others,
    );
    assert forall|i: int| 0 <= i < command.parameters.len() implies localized_parameter(
        command.parameters[i],
        path,
        locales,
    ) == localized_parameter(command.parameters[i], path, others) by {
        lemma_agree_part(locales, others, parameter_parts, i);
        lemma_parameter_reads_its_keys(command.parameters[i], path, locales, others);
    }
    assert(localized_parameters(command.parameters, path, locales) =~= localized_parameters(
        command.parameters,
        path,
        others,
    ));
    assert forall|i: int| 0 <= i < command.subcommands.len() implies localized_command(
        command.subcommands[i],
        locales,
    ) == localized_command(command.subcommands[i], others) by {
        lemma_agree_part(locales, others, subcommand_parts, i);
        lemma_command_reads_its_keys(command.subcommands[i], locales, others);
    }
    assert(localized_command(command, locales).subcommands =~= localized_command(
        command,
        others,
    ).subcommands);
}

/// The pass reads the store at the tree's lookup keys and nowhere else:
/// with two stores that have the same locale tags in the same order and hold
/// the same under each of the tree's keys, it leaves the same tree.
pub proof fn lemma_pass_reads_lookup_keys(
    commands: Seq<CommandView>,
    locales: Seq<LocaleView>,
    others: Seq<LocaleView>,
)
    requires
        agree_on_keys(locales, others, tree_keys(commands)),
    ensures
        localized_commands(commands, locales) == localized_commands(commands, others),
{
    let parts = command_key_parts(commands);
    assert forall|i: int| 0 <= i < commands.len() implies localized_command(
        commands[i],
        locales,
    ) == localized_command(commands[i], others) by {
        lemma_agree_part(locales, others, parts, i);
        lemma_command_reads_its_keys(commands[i], locales, others);
    }
    assert(localized_commands(commands, locales) =~= localized_commands(commands, others));
}

} // verus!
