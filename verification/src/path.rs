//! The path of names that leads to a node, and the lookup keys made of it.

use itertools::Itertools;
use vstd::prelude::*;

use crate::kind::{all_kinds, CommandLocalization};

verus! {

/// The character that separates the segments of a rendered key.
pub open spec fn separator() -> Seq<char> {
    seq!['.']
}

/// The segments joined into one key, with a separator between neighbours.
/// No segments give the empty key.
pub open spec fn dotted(segments: Seq<Seq<char>>) -> Seq<char>
    decreases segments.len(),
{
    if segments.len() == 0 {
        Seq::empty()
    } else if segments.len() == 1 {
        segments[0]
    } else {
        dotted(segments.drop_last()) + separator() + segments.last()
    }
}

/// What each of the strings holds, in the same order.
pub open spec fn segment_views(segments: Seq<String>) -> Seq<Seq<char>> {
    Seq::new(segments.len(), |i: int| segments[i]@)
}

/// The key under which the string of one kind is looked up for the node at
/// the end of the path: the path's segments and the kind's tag, dotted.
pub open spec fn lookup_key_of(segments: Seq<Seq<char>>, kind: CommandLocalization) -> Seq<char> {
    dotted(segments.push(kind.tag_view()))
}

/// Joins the strings with `.` between them by `Itertools::join` of
/// itertools, which writes each item as `Display` shows it (a `String` as
/// its own text) and the separator before every item but the first; an
/// iterator without items gives the empty string.
#[verifier::external_body]
fn join_with_dots(segments: &Vec<String>) -> (key: String)
    ensures
        key@ == dotted(segment_views(segments@)),
{
    segments.iter().join(".")
}

/// The names on the way from a command down to the node that is being
/// localized, the node's own name last.
pub struct KeyPath {
    pub segments: Vec<String>,
}

impl View for KeyPath {
    type V = Seq<Seq<char>>;

    open spec fn view(&self) -> Seq<Seq<char>> {
        segment_views(self.segments@)
    }
}

impl KeyPath {
    /// The path without segments.
    pub fn new() -> (path: KeyPath)
        ensures
            path@ == Seq::<Seq<char>>::empty(),
    {
        let path = KeyPath { segments: Vec::new() };
        assert(path@ =~= Seq::<Seq<char>>::empty());
        path
    }

    /// Appends a segment: the path then leads one level further down.
    pub fn push(&mut self, segment: String)
        ensures
            final(self)@ == old(self)@.push(segment@),
    {
        self.segments.push(segment);
        assert(self@ =~= old(self)@.push(segment@));
    }

    /// Takes the last segment off again and returns it; `None`, and the path
    /// as it was, where there is none.
    pub fn pop(&mut self) -> (segment: Option<String>)
        ensures
            old(self)@.len() == 0 ==> segment.is_none() && final(self)@ == old(self)@,
            old(self)@.len() > 0 ==> segment.is_some() && segment.unwrap()@ == old(self)@.last()
                && final(self)@ == old(self)@.drop_last(),
    {
        let segment = self.segments.pop();
        assert(old(self)@.len() > 0 ==> self@ =~= old(self)@.drop_last());
        assert(old(self)@.len() == 0 ==> self@ =~= old(self)@);
        segment
    }

    /// The number of segments.
    pub fn len(&self) -> (n: usize)
        ensures
            n == self@.len(),
    {
        self.segments.len()
    }

    /// The segments joined with `.`: the prefix of every key of the node.
    pub fn render(&self) -> (key: String)
        ensures
            key@ == dotted(self@),
    {
        join_with_dots(&self.segments)
    }

    /// The key of one kind of string for the node at the end of the path.
    pub fn lookup_key(&self, kind: CommandLocalization) -> (key: String)
        ensures
            key@ == lookup_key_of(self@, kind),
    {
        let mut extended: Vec<String> = Vec::new();
        let n: usize = self.segments.len();
        let mut i: usize = 0;
        while i < n
            invariant
                n == self.segments.len(),
                i <= n,
                extended@.len() == i,
                forall|j: int| 0 <= j < i ==> extended@[j]@ == self.segments@[j]@,
            decreases n - i,
        {
            extended.push(self.segments[i].clone());
            i = i + 1;
        }
        let label = kind.tag();
        extended.push(label);
        assert(segment_views(extended@) =~= self@.push(kind.tag_view()));
        join_with_dots(&extended)
    }

    /// The lookup keys of the node at the end of the path, one for each
    /// kind, each beside its kind.
    pub fn localization_keys(&self) -> (keys: Vec<(CommandLocalization, String)>)
        ensures
            keys@.len() == all_kinds().len(),
            forall|j: int|
                0 <= j < keys@.len() ==> keys@[j].0 == all_kinds()[j] && keys@[j].1@
                    == lookup_key_of(self@, all_kinds()[j]),
    {
        let kinds = CommandLocalization::all();
        let mut keys: Vec<(CommandLocalization, String)> = Vec::new();
        let n: usize = kinds.len();
        let mut j: usize = 0;
        while j < n
            invariant
                kinds@ == all_kinds(),
                n == kinds@.len(),
                j <= n,
                keys@.len() == j,
                forall|k: int|
                    0 <= k < j ==> keys@[k].0 == all_kinds()[k] && keys@[k].1@ == lookup_key_of(
                        self@,
                        all_kinds()[k],
                    ),
            decreases n - j,
        {
            let kind = kinds[j];
            keys.push((kind, self.lookup_key(kind)));
            j = j + 1;
        }
        keys
    }
}

} // verus!
