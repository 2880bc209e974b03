//! The translation pass: what it leaves in one localization mapping, and the
//! function that carries it out on one node.

use vstd::prelude::*;

use crate::kind::{all_kinds, CommandLocalization};
use crate::path::{lookup_key_of, KeyPath};
use crate::store::{I18NAccesses, LocaleView};
use crate::tree::PoiseI18NLocalizable;

verus! {

/// The string that the lookups of one key leave for a locale tag: that of
/// the last locale with this tag that has the key, if there is such a locale.
pub open spec fn resolved(locales: Seq<LocaleView>, key: Seq<char>, tag: Seq<char>) -> Option<
    Seq<char>,
>
    decreases locales.len(),
{
    if locales.len() == 0 {
        None
    } else {
        let last = locales.last();
        if last.tag == tag && last.resources.contains_key(key) {
            Some(last.resources[key])
        } else {
            resolved(locales.drop_last(), key, tag)
        }
    }
}

/// A localization mapping after the lookups of one key: each locale tag for
/// which a string was found maps to that string, and every other entry is as
/// it was.
pub open spec fn overlay(
    map: Map<Seq<char>, Seq<char>>,
    locales: Seq<LocaleView>,
    key: Seq<char>,
) -> Map<Seq<char>, Seq<char>> {
    Map::new(
        |tag: Seq<char>| map.contains_key(tag) || resolved(locales, key, tag).is_some(),
        |tag: Seq<char>|
            match resolved(locales, key, tag) {
                Some(text) => text,
                None => map[tag],
            },
    )
}

/// The lookups in the first `done` locales and then in the next one give
/// what the lookups in the first `done + 1` give.
proof fn lemma_overlay_step(
    map: Map<Seq<char>, Seq<char>>,
    locales: Seq<LocaleView>,
    key: Seq<char>,
    done: int,
)
    requires
        0 <= done < locales.len(),
    ensures
        overlay(map, locales.take(done + 1), key) == (if locales[done].resources.contains_key(
            key,
        ) {
            overlay(map, locales.take(done), key).insert(
                locales[done].tag,
                locales[done].resources[key],
            )
        } else {
            overlay(map, locales.take(done), key)
        }),
{
    let longer = locales.take(done + 1);
    assert(longer.drop_last() =~= locales.take(done));
    assert(longer.last() == locales[done]);
    let stepped = if locales[done].resources.contains_key(key) {
        overlay(map, locales.take(done), key).insert(
            locales[done].tag,
            locales[done].resources[key],
        )
    } else {
        overlay(map, locales.take(done), key)
    };
    assert(overlay(map, longer, key) =~= stepped);
}

/// Without locales the lookups change nothing.
proof fn lemma_overlay_none(
    map: Map<Seq<char>, Seq<char>>,
    locales: Seq<LocaleView>,
    key: Seq<char>,
)
    requires
        locales.len() == 0,
    ensures
        overlay(map, locales, key) == map,
{
    assert(overlay(map, locales, key) =~= map);
}

/// How far the lookups of the kind at place `kind_place` have come, when
/// `done` locales are through and the current one has had the kinds before
/// place `kinds_done`.
spec fn locales_through(done: int, kinds_done: int, kind_place: int) -> int {
    if kinds_done > kind_place {
        done + 1
    } else {
        done
    }
}

/// Localizes one node. The node's name is appended to the path; then, for
/// each locale and each kind, the locale's resources are asked for the key of
/// that kind under the path, and a string that is found is written into the
/// node's mapping of that kind under the locale's tag. A string found for a
/// kind that the node has no mapping for is dropped. Nothing else of the node
/// changes. Returns the number of lookups made.
pub fn apply_localization<N: PoiseI18NLocalizable>(
    path: &mut KeyPath,
    next_tag: String,
    localizable: &mut N,
    locale_accesses: &I18NAccesses<'_>,
) -> (lookups: u128)
    ensures
        final(path)@ == old(path)@.push(next_tag@),
        final(localizable).name_map()@ == overlay(
            old(localizable).name_map()@,
            locale_accesses@,
            lookup_key_of(final(path)@, CommandLocalization::Name),
        ),
        match old(localizable).description_map() {
            Some(descriptions) => final(localizable).description_map().is_some() && final(localizable).description_map().unwrap()@ == overlay(
                descriptions@,
                locale_accesses@,
                lookup_key_of(final(path)@, CommandLocalization::Description),
            ),
            None => final(localizable).description_map().is_none(),
        },
        *final(localizable) == old(localizable).with_maps(
            final(localizable).name_map(),
            final(localizable).description_map(),
        ),
        lookups == locale_accesses@.len() * all_kinds().len(),
{
    path.push(next_tag);
    let locale_tags = path.localization_keys();
    let ghost locales = locale_accesses@;
    let ghost name_key = lookup_key_of(path@, CommandLocalization::Name);
    let ghost description_key = lookup_key_of(path@, CommandLocalization::Description);
    let kinds: usize = locale_tags.len();
    let n: usize = locale_accesses.0.len();
    let mut lookups: u128 = 0;
    let mut i: usize = 0;
    proof {
        lemma_overlay_none(old(localizable).name_map()@, locales.take(0), name_key);
        if old(localizable).description_map().is_some() {
            lemma_overlay_none(
                old(localizable).description_map().unwrap()@,
                locales.take(0),
                description_key,
            );
        }
        old(localizable).lemma_with_maps(
            old(localizable).name_map(),
            old(localizable).description_map(),
            old(localizable).name_map(),
            old(localizable).description_map(),
        );
    }
    while i < n
        invariant
            locales == locale_accesses@,
            n == locales.len(),
            i <= n,
            kinds == 2,
            locale_tags@.len() == 2,
            locale_tags@[0].0 == CommandLocalization::Name,
            locale_tags@[0].1@ == name_key,
            locale_tags@[1].0 == CommandLocalization::Description,
            locale_tags@[1].1@ == description_key,
            lookups == i * 2,
            localizable.name_map()@ == overlay(
                old(localizable).name_map()@,
                locales.take(i as int),
                name_key,
            ),
            localizable.description_map().is_some() == old(localizable).description_map().is_some(),
            old(localizable).description_map().is_some() ==> localizable.description_map().unwrap()@
                == overlay(
                old(localizable).description_map().unwrap()@,
                locales.take(i as int),
                description_key,
            ),
            *localizable == old(localizable).with_maps(
                localizable.name_map(),
                localizable.description_map(),
            ),
        decreases n - i,
    {
        let lang_key = &locale_accesses.0[i].0;
        let access = &locale_accesses.0[i].1;
        assert(locales[i as int].tag == lang_key@);
        assert(locales[i as int].resources == access.resources@);
        let mut j: usize = 0;
        while j < kinds
            invariant
                locales == locale_accesses@,
                n == locales.len(),
                i < n,
                j <= kinds,
                kinds == 2,
                locale_tags@.len() == 2,
                locale_tags@[0].0 == CommandLocalization::Name,
                locale_tags@[0].1@ == name_key,
                locale_tags@[1].0 == CommandLocalization::Description,
                locale_tags@[1].1@ == description_key,
                locales[i as int].tag == lang_key@,
                locales[i as int].resources == access.resources@,
                lookups == i * 2 + j,
                localizable.name_map()@ == overlay(
                    old(localizable).name_map()@,
                    locales.take(locales_through(i as int, j as int, 0)),
                    name_key,
                ),
                localizable.description_map().is_some() == old(localizable).description_map().is_some(),
                old(localizable).description_map().is_some()
                    ==> localizable.description_map().unwrap()@ == overlay(
                    old(localizable).description_map().unwrap()@,
                    locales.take(locales_through(i as int, j as int, 1)),
                    description_key,
                ),
                *localizable == old(localizable).with_maps(
                    localizable.name_map(),
                    localizable.description_map(),
                ),
            decreases kinds - j,
        {
            let locale_type = locale_tags[j].0;
            let tag = &locale_tags[j].1;
            let ghost before = *localizable;
            let possible_resource = access.by_path(tag);
            lookups = lookups + 1;
            proof {
                lemma_overlay_step(old(localizable).name_map()@, locales, name_key, i as int);
                if old(localizable).description_map().is_some() {
                    lemma_overlay_step(
                        old(localizable).description_map().unwrap()@,
                        locales,
                        description_key,
                        i as int,
                    );
                }
            }
            match possible_resource {
                Some(localized_key) => {
                    let lang_key = lang_key.clone();
                    let localized_key = localized_key.clone();
                    match locale_type {
                        CommandLocalization::Name => {
                            let names = localizable.name_localizations();
                            names.insert(lang_key, localized_key);
                            let ghost written = *names;
                            proof {
                                before.lemma_with_maps(
                                    written,
                                    before.description_map(),
                                    written,
                                    before.description_map(),
                                );
                                old(localizable).lemma_with_maps(
                                    before.name_map(),
                                    before.description_map(),
                                    localizable.name_map(),
                                    localizable.description_map(),
                                );
                            }
                        },
                        CommandLocalization::Description => {
                            match localizable.description_localizations() {
                                Some(descriptions) => {
                                    descriptions.insert(lang_key, localized_key);
                                    let ghost written = *descriptions;
                                    proof {
                                        before.lemma_with_maps(
                                            before.name_map(),
                                            Some(written),
                                            before.name_map(),
                                            Some(written),
                                        );
                                        old(localizable).lemma_with_maps(
                                            before.name_map(),
                                            before.description_map(),
                                            localizable.name_map(),
                                            localizable.description_map(),
                                        );
                                    }
                                },
                                None => {},
                            }
                        },
                    }
                },
                None => {},
            }
            j = j + 1;
        }
        i = i + 1;
    }
    assert(locales.take(n as int) =~= locales);
    lookups
}

} // verus!
