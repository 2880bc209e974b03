use poise_i18n::{
    apply_localization, apply_translation, apply_translations, Command, CommandParameter,
    CommandParameterChoice, KeyPath, StringMap, TranslationStore,
};

fn map_of(pairs: &[(&str, &str)]) -> StringMap {
    let mut map = StringMap::new();
    for (key, value) in pairs {
        map.insert(key.to_string(), value.to_string());
    }
    map
}

fn store_of(locales: &[(&str, &[(&str, &str)])]) -> TranslationStore {
    let mut store = TranslationStore::new();
    for (tag, resources) in locales {
        store.add_locale(tag.to_string(), map_of(resources));
    }
    store
}

fn command(name: &str) -> Command {
    Command {
        name: name.to_string(),
        name_localizations: StringMap::new(),
        description_localizations: StringMap::new(),
        subcommands: Vec::new(),
        parameters: Vec::new(),
    }
}

fn parameter(name: &str) -> CommandParameter {
    CommandParameter {
        name: name.to_string(),
        name_localizations: StringMap::new(),
        description_localizations: StringMap::new(),
        choices: Vec::new(),
    }
}

fn choice(name: &str) -> CommandParameterChoice {
    CommandParameterChoice { name: name.to_string(), localizations: StringMap::new() }
}

fn holds(map: &StringMap, pairs: &[(&str, &str)]) -> bool {
    map.len() == pairs.len()
        && pairs.iter().all(|(key, value)| {
            map.get(&key.to_string()).map(|found| found.as_str()) == Some(*value)
        })
}

#[test]
fn end_to_end_greet() {
    let store = store_of(&[
        ("en", &[("greet.name", "Greet"), ("greet.description", "Say hello")]),
        ("fr", &[("greet.name", "Saluer")]),
    ]);
    let mut tree = vec![command("greet")];
    apply_translations(&mut tree, &store);
    assert!(holds(&tree[0].name_localizations, &[("en", "Greet"), ("fr", "Saluer")]));
    assert!(holds(&tree[0].description_localizations, &[("en", "Say hello")]));
    assert!(!tree[0].description_localizations.contains_key(&"fr".to_string()));
    assert_eq!(tree[0].name, "greet");
}

#[test]
fn pass_applied_twice_equals_once() {
    let store = store_of(&[
        ("en", &[("ban.name", "Ban"), ("ban.user.name", "User"), ("ban.user.description", "Who")]),
        ("fr", &[("ban.name", "Bannir"), ("ban.user.a.name", "A")]),
    ]);
    let mut user = parameter("user");
    user.choices.push(choice("a"));
    let mut ban = command("ban");
    ban.name_localizations = map_of(&[("de", "Sperren")]);
    ban.parameters.push(user);
    let mut tree = vec![ban];
    apply_translations(&mut tree, &store);
    let names_once = [("de", "Sperren"), ("en", "Ban"), ("fr", "Bannir")];
    assert!(holds(&tree[0].name_localizations, &names_once));
    assert!(holds(&tree[0].description_localizations, &[]));
    assert!(holds(&tree[0].parameters[0].name_localizations, &[("en", "User")]));
    assert!(holds(&tree[0].parameters[0].description_localizations, &[("en", "Who")]));
    assert!(holds(&tree[0].parameters[0].choices[0].localizations, &[("fr", "A")]));
    apply_translations(&mut tree, &store);
    assert!(holds(&tree[0].name_localizations, &names_once));
    assert!(holds(&tree[0].description_localizations, &[]));
    assert!(holds(&tree[0].parameters[0].name_localizations, &[("en", "User")]));
    assert!(holds(&tree[0].parameters[0].description_localizations, &[("en", "Who")]));
    assert!(holds(&tree[0].parameters[0].choices[0].localizations, &[("fr", "A")]));
}

#[test]
fn parameter_key_is_command_then_parameter_then_kind() {
    let store = store_of(&[(
        "en",
        &[
            ("ban.user.name", "User"),
            ("user.name", "wrong: no command"),
            ("ban.name.user", "wrong: order"),
            ("ban.user", "wrong: no kind"),
        ],
    )]);
    let mut ban = command("ban");
    ban.parameters.push(parameter("user"));
    let mut tree = vec![ban];
    apply_translations(&mut tree, &store);
    assert!(holds(&tree[0].parameters[0].name_localizations, &[("en", "User")]));
    assert!(holds(&tree[0].parameters[0].description_localizations, &[]));
    assert!(holds(&tree[0].name_localizations, &[]));
}

#[test]
fn choice_gets_no_description() {
    let store = store_of(&[(
        "en",
        &[
            ("pick.colour.red.name", "Red"),
            ("pick.colour.red.description", "The colour red"),
            ("pick.colour.description", "Which colour"),
        ],
    )]);
    let mut colour = parameter("colour");
    colour.choices.push(choice("red"));
    let mut pick = command("pick");
    pick.parameters.push(colour);
    let mut tree = vec![pick];
    apply_translations(&mut tree, &store);
    let red = &tree[0].parameters[0].choices[0];
    assert!(holds(&red.localizations, &[("en", "Red")]));
    assert_eq!(red.name, "red");
    assert!(holds(&tree[0].parameters[0].description_localizations, &[("en", "Which colour")]));
}

#[test]
fn choice_lookup_still_counts_both_kinds() {
    let store = store_of(&[("en", &[("red.description", "The colour red")]), ("fr", &[])]);
    let accesses = store.accesses();
    let mut path = KeyPath::new();
    let mut red = choice("red");
    let lookups = apply_localization(&mut path, "red".to_string(), &mut red, &accesses);
    assert_eq!(lookups, 4);
    assert!(holds(&red.localizations, &[]));
}

#[test]
fn miss_leaves_existing_entry() {
    let store = store_of(&[("en", &[]), ("fr", &[])]);
    let mut ban = command("ban");
    ban.name_localizations = map_of(&[("en", "Ban")]);
    let mut tree = vec![ban];
    apply_translations(&mut tree, &store);
    assert!(holds(&tree[0].name_localizations, &[("en", "Ban")]));
    assert!(!tree[0].name_localizations.contains_key(&"fr".to_string()));
}

#[test]
fn miss_in_one_locale_leaves_other_locales() {
    let store = store_of(&[("en", &[("ban.description", "Bans")]), ("fr", &[("other.name", "x")])]);
    let mut ban = command("ban");
    ban.name_localizations = map_of(&[("en", "Ban"), ("fr", "Bannir")]);
    ban.description_localizations = map_of(&[("fr", "Bannit")]);
    let mut tree = vec![ban];
    apply_translations(&mut tree, &store);
    assert!(holds(&tree[0].name_localizations, &[("en", "Ban"), ("fr", "Bannir")]));
    assert!(holds(&tree[0].description_localizations, &[("en", "Bans"), ("fr", "Bannit")]));
}

#[test]
fn hit_replaces_existing_entry() {
    let store = store_of(&[("en", &[("ban.name", "Ban")])]);
    let mut ban = command("ban");
    ban.name_localizations = map_of(&[("en", "Old"), ("fr", "Bannir")]);
    let mut tree = vec![ban];
    apply_translations(&mut tree, &store);
    assert!(holds(&tree[0].name_localizations, &[("en", "Ban"), ("fr", "Bannir")]));
}

#[test]
fn three_locales_two_kinds_six_lookups() {
    let store = store_of(&[
        ("en", &[("ban.name", "Ban")]),
        ("fr", &[("ban.description", "Bannit")]),
        ("de", &[]),
    ]);
    let accesses = store.accesses();
    let mut path = KeyPath::new();
    let mut ban = command("ban");
    let lookups = apply_localization(&mut path, "ban".to_string(), &mut ban, &accesses);
    assert_eq!(lookups, 6);
    assert!(holds(&ban.name_localizations, &[("en", "Ban")]));
    assert!(holds(&ban.description_localizations, &[("fr", "Bannit")]));
    assert_eq!(path.len(), 1);
    assert_eq!(path.render(), "ban");
}

#[test]
fn no_locales_no_lookups() {
    let store = TranslationStore::new();
    let accesses = store.accesses();
    let mut path = KeyPath::new();
    let mut ban = command("ban");
    ban.name_localizations = map_of(&[("en", "Ban")]);
    let lookups = apply_localization(&mut path, "ban".to_string(), &mut ban, &accesses);
    assert_eq!(lookups, 0);
    assert!(holds(&ban.name_localizations, &[("en", "Ban")]));
    assert!(holds(&ban.description_localizations, &[]));
}

#[test]
fn subcommand_key_leaves_out_parent_name() {
    let store = store_of(&[(
        "en",
        &[
            ("add.name", "Add"),
            ("role.add.name", "wrong: chained"),
            ("role.name", "Role"),
            ("add.member.name", "Member"),
            ("role.add.member.name", "wrong: chained"),
        ],
    )]);
    let mut add = command("add");
    add.parameters.push(parameter("member"));
    let mut role = command("role");
    role.subcommands.push(add);
    let mut tree = vec![role];
    apply_translations(&mut tree, &store);
    assert!(holds(&tree[0].name_localizations, &[("en", "Role")]));
    assert!(holds(&tree[0].subcommands[0].name_localizations, &[("en", "Add")]));
    assert!(holds(&tree[0].subcommands[0].parameters[0].name_localizations, &[("en", "Member")]));
}

#[test]
fn sibling_keys_do_not_leak() {
    let store = store_of(&[(
        "en",
        &[
            ("pick.colour.red.name", "Red"),
            ("pick.colour.blue.name", "Blue"),
            ("pick.colour.red.blue.name", "wrong: red not popped"),
            ("pick.size.name", "Size"),
            ("pick.colour.size.name", "wrong: colour not popped"),
            ("pick.colour.blue.size.name", "wrong: nothing popped"),
            ("drop.name", "Drop"),
            ("pick.drop.name", "wrong: pick not popped"),
        ],
    )]);
    let mut colour = parameter("colour");
    colour.choices.push(choice("red"));
    colour.choices.push(choice("blue"));
    let mut pick = command("pick");
    pick.parameters.push(colour);
    pick.parameters.push(parameter("size"));
    let mut tree = vec![pick, command("drop")];
    apply_translations(&mut tree, &store);
    assert!(holds(&tree[0].parameters[0].choices[0].localizations, &[("en", "Red")]));
    assert!(holds(&tree[0].parameters[0].choices[1].localizations, &[("en", "Blue")]));
    assert!(holds(&tree[0].parameters[1].name_localizations, &[("en", "Size")]));
    assert!(holds(&tree[1].name_localizations, &[("en", "Drop")]));
    assert_eq!(tree[0].parameters[0].choices.len(), 2);
    assert_eq!(tree[0].parameters.len(), 2);
    assert_eq!(tree.len(), 2);
}

#[test]
fn later_locale_of_same_tag_wins() {
    let store = store_of(&[
        ("en", &[("ban.name", "First"), ("ban.description", "Only here")]),
        ("en", &[("ban.name", "Second")]),
    ]);
    let mut tree = vec![command("ban")];
    apply_translations(&mut tree, &store);
    assert!(holds(&tree[0].name_localizations, &[("en", "Second")]));
    assert!(holds(&tree[0].description_localizations, &[("en", "Only here")]));
}

#[test]
fn empty_tree_stays_empty() {
    let store = store_of(&[("en", &[("ban.name", "Ban")])]);
    let mut tree: Vec<Command> = Vec::new();
    apply_translations(&mut tree, &store);
    assert!(tree.is_empty());
}

#[test]
fn walk_with_accessor_set() {
    let store = store_of(&[("en", &[("greet.name", "Greet")]), ("fr", &[("greet.name", "Saluer")])]);
    let accesses = store.accesses();
    assert_eq!(accesses.0.len(), 2);
    assert_eq!(accesses.0[0].0, "en");
    assert_eq!(accesses.0[1].0, "fr");
    assert_eq!(
        accesses.0[1].1.by_path(&"greet.name".to_string()).map(|text| text.as_str()),
        Some("Saluer")
    );
    assert_eq!(accesses.0[1].1.by_path(&"greet.description".to_string()), None);
    let mut tree = vec![command("greet")];
    apply_translation(&mut tree, &accesses);
    assert!(holds(&tree[0].name_localizations, &[("en", "Greet"), ("fr", "Saluer")]));
}
