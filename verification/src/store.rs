//! The translation resources: for each known locale, the translated strings
//! by lookup key, and the accessors through which a pass reads them.

use vstd::prelude::*;

use crate::string_map::StringMap;

verus! {

/// What the resources of one locale are: its tag, and the translated string
/// of each lookup key that it has one for.
pub struct LocaleView {
    pub tag: Seq<char>,
    pub resources: Map<Seq<char>, Seq<char>>,
}

/// The resources of one locale.
pub struct Locale {
    pub tag: String,
    pub resources: StringMap,
}

impl View for Locale {
    type V = LocaleView;

    open spec fn view(&self) -> LocaleView {
        LocaleView { tag: self.tag@, resources: self.resources@ }
    }
}

/// The translation resources of every known locale.
pub struct TranslationStore {
    pub locales: Vec<Locale>,
}

impl View for TranslationStore {
    type V = Seq<LocaleView>;

    open spec fn view(&self) -> Seq<LocaleView> {
        Seq::new(self.locales@.len(), |i: int| self.locales@[i]@)
    }
}

/// Read access to the resources of one locale.
pub struct I18NAccess<'a> {
    pub resources: &'a StringMap,
}

impl<'a> I18NAccess<'a> {
    /// The translated string under a dotted lookup key, if the locale has
    /// one.
    pub fn by_path(&self, path: &String) -> (resource: Option<&'a String>)
        ensures
            match resource {
                Some(text) => self.resources@.contains_key(path@) && text@
                    == self.resources@[path@],
                None => !self.resources@.contains_key(path@),
            },
    {
        self.resources.get(path)
    }
}

/// One accessor for each known locale, beside the locale's tag.
pub struct I18NAccesses<'a>(pub Vec<(String, I18NAccess<'a>)>);

impl<'a> View for I18NAccesses<'a> {
    type V = Seq<LocaleView>;

    open spec fn view(&self) -> Seq<LocaleView> {
        Seq::new(
            self.0@.len(),
            |i: int| LocaleView { tag: self.0@[i].0@, resources: self.0@[i].1.resources@ },
        )
    }
}

impl TranslationStore {
    /// The store without locales.
    pub fn new() -> (store: TranslationStore)
        ensures
            store@ == Seq::<LocaleView>::empty(),
    {
        let store = TranslationStore { locales: Vec::new() };
        assert(store@ =~= Seq::<LocaleView>::empty());
        store
    }

    /// Adds a locale behind those that the store has.
    pub fn add_locale(&mut self, tag: String, resources: StringMap)
        ensures
            final(self)@ == old(self)@.push(LocaleView { tag: tag@, resources: resources@ }),
    {
        self.locales.push(Locale { tag, resources });
        assert(self@ =~= old(self)@.push(LocaleView { tag: tag@, resources: resources@ }));
    }

    /// Read access to the resources of the locale at a place in the store.
    pub fn get(&self, place: usize) -> (access: I18NAccess<'_>)
        requires
            place < self@.len(),
        ensures
            access.resources@ == self@[place as int].resources,
    {
        I18NAccess { resources: &self.locales[place].resources }
    }

    /// The accessor set of the store: for each locale, in the store's order,
    /// its tag and the access to its resources.
    pub fn accesses(&self) -> (accesses: I18NAccesses<'_>)
        ensures
            accesses@ == self@,
    {
        let mut pairs: Vec<(String, I18NAccess<'_>)> = Vec::new();
        let n: usize = self.locales.len();
        let mut i: usize = 0;
        while i < n
            invariant
                n == self.locales@.len(),
                i <= n,
                pairs@.len() == i,
                forall|j: int|
                    0 <= j < i ==> pairs@[j].0@ == self.locales@[j].tag@
                        && pairs@[j].1.resources@ == self.locales@[j].resources@,
            decreases n - i,
        {
            pairs.push((self.locales[i].tag.clone(), self.get(i)));
            i = i + 1;
        }
        let accesses = I18NAccesses(pairs);
        assert(accesses@ =~= self@);
        accesses
    }
}

} // verus!
