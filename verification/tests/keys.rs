use poise_i18n::keys::lookup_keys;
use poise_i18n::kind::CommandLocalization;
use poise_i18n::path::KeyPath;
use poise_i18n::store::TranslationStore;
use poise_i18n::string_map::StringMap;
use poise_i18n::tree::{Command, CommandParameter, CommandParameterChoice};
use poise_i18n::walk::apply_translations;

fn leaf(name: &str) -> Command {
    Command {
        name: name.to_string(),
        name_localizations: StringMap::new(),
        description_localizations: StringMap::new(),
        subcommands: Vec::new(),
        parameters: Vec::new(),
    }
}

fn sample_tree() -> Vec<Command> {
    let red = CommandParameterChoice { name: "red".to_string(), localizations: StringMap::new() };
    let colour = CommandParameter {
        name: "colour".to_string(),
        name_localizations: StringMap::new(),
        description_localizations: StringMap::new(),
        choices: vec![red],
    };
    let mut pick = leaf("pick");
    pick.parameters.push(colour);
    pick.subcommands.push(leaf("again"));
    vec![pick, leaf("drop")]
}

fn sorted_entries(map: &StringMap) -> Vec<(String, String)> {
    let mut pairs = map.entries();
    pairs.sort();
    pairs
}

#[test]
fn lookup_keys_follow_the_walk() {
    let keys = lookup_keys(&sample_tree());
    assert_eq!(
        keys,
        vec![
            "again.name",
            "again.description",
            "pick.name",
            "pick.description",
            "pick.colour.name",
            "pick.colour.description",
            "pick.colour.red.name",
            "pick.colour.red.description",
            "drop.name",
            "drop.description",
        ]
    );
}

#[test]
fn lookup_keys_of_no_commands() {
    assert_eq!(lookup_keys(&Vec::new()), Vec::<String>::new());
}

#[test]
fn single_command_has_two_keys() {
    assert_eq!(lookup_keys(&vec![leaf("greet")]), vec!["greet.name", "greet.description"]);
}

#[test]
fn store_cut_down_to_lookup_keys_gives_same_tree() {
    let texts = [
        ("pick.name", "Pick"),
        ("pick.colour.description", "Which colour"),
        ("pick.colour.red.name", "Red"),
        ("pick.colour.red.description", "never read"),
        ("again.description", "Once more"),
        ("pick.again.name", "never read"),
        ("drop", "never read"),
        ("elsewhere.name", "never read"),
    ];
    let mut whole = StringMap::new();
    for (key, text) in texts {
        whole.insert(key.to_string(), text.to_string());
    }
    let mut full = TranslationStore::new();
    full.add_locale("en".to_string(), whole);

    let mut cut = StringMap::new();
    for key in lookup_keys(&sample_tree()) {
        if let Some(text) = full.get(0).by_path(&key) {
            cut.insert(key.clone(), text.clone());
        }
    }
    assert_eq!(cut.len(), 5);
    let mut reduced = TranslationStore::new();
    reduced.add_locale("en".to_string(), cut);

    let mut first = sample_tree();
    let mut second = sample_tree();
    apply_translations(&mut first, &full);
    apply_translations(&mut second, &reduced);

    let en = |text: &str| vec![("en".to_string(), text.to_string())];
    for tree in [&first, &second] {
        assert_eq!(sorted_entries(&tree[0].name_localizations), en("Pick"));
        assert_eq!(sorted_entries(&tree[0].description_localizations), vec![]);
        assert_eq!(sorted_entries(&tree[0].subcommands[0].name_localizations), vec![]);
        assert_eq!(
            sorted_entries(&tree[0].subcommands[0].description_localizations),
            en("Once more")
        );
        assert_eq!(sorted_entries(&tree[0].parameters[0].name_localizations), vec![]);
        assert_eq!(
            sorted_entries(&tree[0].parameters[0].description_localizations),
            en("Which colour")
        );
        assert_eq!(sorted_entries(&tree[0].parameters[0].choices[0].localizations), en("Red"));
        assert_eq!(sorted_entries(&tree[1].name_localizations), vec![]);
        assert_eq!(sorted_entries(&tree[1].description_localizations), vec![]);
    }
}

#[test]
fn entries_hold_each_key_once() {
    let mut map = StringMap::new();
    map.insert("fr".to_string(), "Bannir".to_string());
    map.insert("en".to_string(), "Ban".to_string());
    map.insert("fr".to_string(), "Exclure".to_string());
    assert_eq!(
        sorted_entries(&map),
        vec![
            ("en".to_string(), "Ban".to_string()),
            ("fr".to_string(), "Exclure".to_string()),
        ]
    );
    assert_eq!(StringMap::new().entries(), vec![]);
}

#[test]
fn different_paths_have_different_keys() {
    let mut short = KeyPath::new();
    short.push("ban".to_string());
    let mut long = KeyPath::new();
    long.push("ban".to_string());
    long.push("name".to_string());
    let keys = [
        short.lookup_key(CommandLocalization::Name),
        short.lookup_key(CommandLocalization::Description),
        long.lookup_key(CommandLocalization::Name),
        long.lookup_key(CommandLocalization::Description),
    ];
    assert_eq!(keys, ["ban.name", "ban.description", "ban.name.name", "ban.name.description"]);
    for i in 0..keys.len() {
        for j in 0..keys.len() {
            assert_eq!(keys[i] == keys[j], i == j);
        }
    }
}

#[test]
fn segment_with_separator_can_collide() {
    let mut nested = KeyPath::new();
    nested.push("ban".to_string());
    nested.push("user".to_string());
    let mut flat = KeyPath::new();
    flat.push("ban.user".to_string());
    assert_eq!(
        nested.lookup_key(CommandLocalization::Name),
        flat.lookup_key(CommandLocalization::Name)
    );
}
