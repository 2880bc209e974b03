//! Why no segment of a path may hold the separator: with such segments
//! different nodes and kinds have different lookup keys.

use vstd::prelude::*;

use crate::kind::{description_tag, name_tag, CommandLocalization};
use crate::path::{dotted, lookup_key_of, separator};

verus! {

/// Whether the segment holds no separator.
pub open spec fn separator_free(segment: Seq<char>) -> bool {
    forall|i: int| 0 <= i < segment.len() ==> segment[i] != '.'
}

/// Whether none of the segments holds a separator.
pub open spec fn all_separator_free(segments: Seq<Seq<char>>) -> bool {
    forall|i: int| 0 <= i < segments.len() ==> separator_free(#[trigger] segments[i])
}

/// Two strings that each end in a separator and a segment without one are
/// equal only if the segments are equal and what stands before the
/// separators is equal.
proof fn lemma_split_at_last_separator(
    front: Seq<char>,
    last: Seq<char>,
    other_front: Seq<char>,
    other_last: Seq<char>,
)
    requires
        separator_free(last),
        separator_free(other_last),
        front + separator() + last == other_front + separator() + other_last,
    ensures
        front == other_front,
        last == other_last,
{
    let whole = front + separator() + last;
    let other_whole = other_front + separator() + other_last;
    assert(whole.len() == front.len() + 1 + last.len());
    assert(other_whole.len() == other_front.len() + 1 + other_last.len());
    assert(whole[front.len() as int] == '.');
    assert(other_whole[other_front.len() as int] == '.');
    if front.len() < other_front.len() {
        let place = other_front.len() as int;
        assert(whole[place] == last[place - front.len() - 1]);
        assert(false);
    }
    if other_front.len() < front.len() {
        let place = front.len() as int;
        assert(other_whole[place] == other_last[place - other_front.len() - 1]);
        assert(false);
    }
    assert forall|i: int| 0 <= i < front.len() implies front[i] == other_front[i] by {
        assert(whole[i] == front[i]);
        assert(other_whole[i] == other_front[i]);
    }
    assert(front =~= other_front);
    assert forall|i: int| 0 <= i < last.len() implies last[i] == other_last[i] by {
        assert(whole[front.len() + 1 + i] == last[i]);
        assert(other_whole[other_front.len() + 1 + i] == other_last[i]);
    }
    assert(last =~= other_last);
}

/// Paths of segments without separators render to the same key only if
/// they are the same path.
pub proof fn lemma_dotted_injective(segments: Seq<Seq<char>>, others: Seq<Seq<char>>)
    requires
        segments.len() > 0,
        others.len() > 0,
        all_separator_free(segments),
        all_separator_free(others),
        dotted(segments) == dotted(others),
    ensures
        segments == others,
    decreases segments.len() + others.len(),
{
    let last = segments.last();
    let other_last = others.last();
    assert(separator_free(segments[segments.len() - 1]));
    assert(separator_free(others[others.len() - 1]));
    if segments.len() == 1 && others.len() == 1 {
        assert(segments =~= others);
    } else if segments.len() == 1 {
        let key = dotted(others);
        let place = dotted(others.drop_last()).len() as int;
        assert(key[place] == '.');
        assert(false);
    } else if others.len() == 1 {
        let key = dotted(segments);
        let place = dotted(segments.drop_last()).len() as int;
        assert(key[place] == '.');
        assert(false);
    } else {
        let front = segments.drop_last();
        let other_front = others.drop_last();
        lemma_split_at_last_separator(dotted(front), last, dotted(other_front), other_last);
        assert forall|i: int| 0 <= i < front.len() implies separator_free(
            #[trigger] front[i],
        ) by {
            assert(front[i] == segments[i]);
        }
        assert forall|i: int| 0 <= i < other_front.len() implies separator_free(
            #[trigger] other_front[i],
        ) by {
            assert(other_front[i] == others[i]);
        }
        lemma_dotted_injective(front, other_front);
        assert(segments =~= front.push(last));
        assert(others =~= other_front.push(other_last));
    }
}

/// Where no name on the way holds a separator, the key tells the node and
/// the kind: two lookups have the same key only if they are for the same
/// path and the same kind.
pub proof fn lemma_lookup_key_injective(
    path: Seq<Seq<char>>,
    kind: CommandLocalization,
    other_path: Seq<Seq<char>>,
    other_kind: CommandLocalization,
)
    requires
        all_separator_free(path),
        all_separator_free(other_path),
        lookup_key_of(path, kind) == lookup_key_of(other_path, other_kind),
    ensures
        path == other_path,
        kind == other_kind,
{
    let segments = path.push(kind.tag_view());
    let others = other_path.push(other_kind.tag_view());
    assert(separator_free(name_tag()));
    assert(separator_free(description_tag()));
    assert forall|i: int| 0 <= i < segments.len() implies separator_free(
        #[trigger] segments[i],
    ) by {
        if i < path.len() {
            assert(segments[i] == path[i]);
        }
    }
    assert forall|i: int| 0 <= i < others.len() implies separator_free(#[trigger] others[i]) by {
        if i < other_path.len() {
            assert(others[i] == other_path[i]);
        }
    }
    lemma_dotted_injective(segments, others);
    assert(segments.drop_last() =~= path);
    assert(others.drop_last() =~= other_path);
    assert(segments.last() == kind.tag_view());
    assert(others.last() == other_kind.tag_view());
    assert(name_tag()[0] != description_tag()[0]);
}

} // verus!
