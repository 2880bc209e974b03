use poise_i18n::kind::CommandLocalization;
use poise_i18n::path::KeyPath;
use poise_i18n::string_map::StringMap;
use poise_i18n::tree::{Command, CommandParameterChoice, PoiseI18NLocalizable};

#[test]
fn kind_tags_are_lower_snake_case() {
    assert_eq!(CommandLocalization::Name.tag(), "name");
    assert_eq!(CommandLocalization::Description.tag(), "description");
}

#[test]
fn kinds_are_name_then_description() {
    assert_eq!(
        CommandLocalization::all(),
        vec![CommandLocalization::Name, CommandLocalization::Description]
    );
}

#[test]
fn empty_path_renders_empty() {
    let path = KeyPath::new();
    assert_eq!(path.len(), 0);
    assert_eq!(path.render(), "");
}

#[test]
fn one_segment_renders_without_separator() {
    let mut path = KeyPath::new();
    path.push("ban".to_string());
    assert_eq!(path.render(), "ban");
}

#[test]
fn segments_render_dotted() {
    let mut path = KeyPath::new();
    path.push("ban".to_string());
    path.push("user".to_string());
    path.push("id".to_string());
    assert_eq!(path.render(), "ban.user.id");
    assert_eq!(path.len(), 3);
}

#[test]
fn parameter_name_key_is_ban_user_name() {
    let mut path = KeyPath::new();
    path.push("ban".to_string());
    path.push("user".to_string());
    assert_eq!(path.lookup_key(CommandLocalization::Name), "ban.user.name");
    assert_eq!(path.lookup_key(CommandLocalization::Description), "ban.user.description");
}

#[test]
fn lookup_key_of_empty_path_is_the_tag() {
    let path = KeyPath::new();
    assert_eq!(path.lookup_key(CommandLocalization::Name), "name");
}

#[test]
fn localization_keys_hold_one_key_for_each_kind() {
    let mut path = KeyPath::new();
    path.push("greet".to_string());
    let keys = path.localization_keys();
    assert_eq!(
        keys,
        vec![
            (CommandLocalization::Name, "greet.name".to_string()),
            (CommandLocalization::Description, "greet.description".to_string()),
        ]
    );
    assert_eq!(path.render(), "greet");
}

#[test]
fn pop_undoes_push() {
    let mut path = KeyPath::new();
    path.push("ban".to_string());
    path.push("user".to_string());
    assert_eq!(path.pop(), Some("user".to_string()));
    assert_eq!(path.render(), "ban");
    assert_eq!(path.pop(), Some("ban".to_string()));
    assert_eq!(path.pop(), None);
    assert_eq!(path.len(), 0);
}

#[test]
fn map_insert_adds_and_replaces() {
    let mut map = StringMap::new();
    assert_eq!(map.len(), 0);
    assert_eq!(map.insert("en".to_string(), "Ban".to_string()), None);
    assert_eq!(map.insert("fr".to_string(), "Bannir".to_string()), None);
    assert_eq!(map.len(), 2);
    assert_eq!(map.insert("en".to_string(), "Block".to_string()), Some("Ban".to_string()));
    assert_eq!(map.len(), 2);
    assert_eq!(map.get(&"en".to_string()), Some(&"Block".to_string()));
    assert_eq!(map.get(&"fr".to_string()), Some(&"Bannir".to_string()));
    assert_eq!(map.get(&"de".to_string()), None);
    assert!(map.contains_key(&"fr".to_string()));
    assert!(!map.contains_key(&"de".to_string()));
}

#[test]
fn command_exposes_both_mappings() {
    let mut ban = Command {
        name: "ban".to_string(),
        name_localizations: StringMap::new(),
        description_localizations: StringMap::new(),
        subcommands: Vec::new(),
        parameters: Vec::new(),
    };
    ban.name_localizations().insert("en".to_string(), "Ban".to_string());
    match ban.description_localizations() {
        Some(descriptions) => {
            descriptions.insert("en".to_string(), "Bans a user".to_string());
        }
        None => panic!("a command has descriptions"),
    }
    assert_eq!(ban.name_localizations.get(&"en".to_string()), Some(&"Ban".to_string()));
    assert_eq!(
        ban.description_localizations.get(&"en".to_string()),
        Some(&"Bans a user".to_string())
    );
}

#[test]
fn choice_exposes_names_only() {
    let mut red =
        CommandParameterChoice { name: "red".to_string(), localizations: StringMap::new() };
    red.name_localizations().insert("en".to_string(), "Red".to_string());
    assert!(red.description_localizations().is_none());
    assert_eq!(red.localizations.get(&"en".to_string()), Some(&"Red".to_string()));
}
