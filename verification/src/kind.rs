//! The kinds of display string that a node can carry.

use vstd::prelude::*;

verus! {

/// Which localization map of a node a translated string belongs to.
#[derive(Clone, Copy, Debug, PartialEq, Eq, Structural)]
pub enum CommandLocalization {
    Name,
    Description,
}

/// The tag of the name kind, as it ends a lookup key.
pub open spec fn name_tag() -> Seq<char> {
    seq!['n', 'a', 'm', 'e']
}

/// The tag of the description kind, as it ends a lookup key.
pub open spec fn description_tag() -> Seq<char> {
    seq!['d', 'e', 's', 'c', 'r', 'i', 'p', 't', 'i', 'o', 'n']
}

impl CommandLocalization {
    /// The kind's label in lower snake case.
    pub open spec fn tag_view(self) -> Seq<char> {
        match self {
            CommandLocalization::Name => name_tag(),
            CommandLocalization::Description => description_tag(),
        }
    }

    /// The kind's label in lower snake case: `name` or `description`.
    pub fn tag(&self) -> (label: String)
        ensures
            label@ == self.tag_view(),
    {
        match self {
            CommandLocalization::Name => {
                proof {
                    reveal_strlit("name");
                    assert("name"@ =~= name_tag());
                }
                "name".to_owned()
            },
            CommandLocalization::Description => {
                proof {
                    reveal_strlit("description");
                    assert("description"@ =~= description_tag());
                }
                "description".to_owned()
            },
        }
    }

    /// Every kind, in the order in which a node's lookups are made.
    pub fn all() -> (kinds: Vec<CommandLocalization>)
        ensures
            kinds@ == all_kinds(),
    {
        let mut kinds: Vec<CommandLocalization> = Vec::new();
        kinds.push(CommandLocalization::Name);
        kinds.push(CommandLocalization::Description);
        assert(kinds@ =~= all_kinds());
        kinds
    }
}

/// Every kind, in the order in which a node's lookups are made.
pub open spec fn all_kinds() -> Seq<CommandLocalization> {
    seq![CommandLocalization::Name, CommandLocalization::Description]
}

} // verus!
