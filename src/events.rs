//! Event kinds, their names, and the mapping from platform events to script invocations.
use vstd::prelude::*;
use crate::text::chars_of;

verus! {

/// The platform events that can carry a stored script, one per guild and kind.
#[derive(Debug, Clone, Copy, PartialEq, Eq, Structural)]
pub enum EventKind {
    MemberJoin,
    MemberLeave,
    MemberUpdate,
    RoleCreate,
    RoleUpdate,
    RoleDelete,
    ChannelCreate,
    ChannelDelete,
    ChannelUpdate,
    GuildUpdate,
    VoiceUpdate,
    ReactionAdd,
    ReactionRemove,
}

/// `c` is an ASCII letter.
pub open spec fn is_ascii_letter(c: char) -> bool {
    ('A' <= c <= 'Z') || ('a' <= c <= 'z')
}

/// `a` and `b` are the same character once ASCII letters are lowercased.
pub open spec fn same_ignoring_ascii_case(a: char, b: char) -> bool {
    a == b || (is_ascii_letter(a) && is_ascii_letter(b) && (a as u32 + 32 == b as u32 || b as u32
        + 32 == a as u32))
}

/// `a` and `b` are equal once ASCII letters are lowercased.
pub open spec fn eq_ignoring_ascii_case(a: Seq<char>, b: Seq<char>) -> bool {
    a.len() == b.len() && forall|i: int|
        0 <= i < a.len() ==> #[trigger] same_ignoring_ascii_case(a[i], b[i])
}

fn same_char_ignoring_ascii_case(a: char, b: char) -> (r: bool)
    ensures
        r == same_ignoring_ascii_case(a, b),
{
    let x = a as u32;
    let y = b as u32;
    let a_letter = ('A' <= a && a <= 'Z') || ('a' <= a && a <= 'z');
    let b_letter = ('A' <= b && b <= 'Z') || ('a' <= b && b <= 'z');
    a == b || (a_letter && b_letter && (x + 32 == y || y + 32 == x))
}

/// Compares two strings, treating ASCII letters case-insensitively.
pub fn eq_ignore_ascii_case(a: &str, b: &str) -> (r: bool)
    ensures
        r == eq_ignoring_ascii_case(a@, b@),
{
    let x = chars_of(a);
    let y = chars_of(b);
    if x.len() != y.len() {
        return false;
    }
    let mut i: usize = 0;
    while i < x.len()
        invariant
            x.len() == y.len(),
            x@ == a@,
            y@ == b@,
            i <= x.len(),
            forall|j: int| 0 <= j < i ==> #[trigger] same_ignoring_ascii_case(x@[j], y@[j]),
        decreases x.len() - i,
    {
        if !same_char_ignoring_ascii_case(x[i], y[i]) {
            return false;
        }
        i = i + 1;
    }
    true
}

impl EventKind {
    /// The canonical name of the kind, as stored.
    pub open spec fn spec_name(self) -> Seq<char> {
        match self {
            EventKind::MemberJoin => "MemberJoin"@,
            EventKind::MemberLeave => "MemberLeave"@,
            EventKind::MemberUpdate => "MemberUpdate"@,
            EventKind::RoleCreate => "RoleCreate"@,
            EventKind::RoleUpdate => "RoleUpdate"@,
            EventKind::RoleDelete => "RoleDelete"@,
            EventKind::ChannelCreate => "ChannelCreate"@,
            EventKind::ChannelDelete => "ChannelDelete"@,
            EventKind::ChannelUpdate => "ChannelUpdate"@,
            EventKind::GuildUpdate => "GuildUpdate"@,
            EventKind::VoiceUpdate => "VoiceUpdate"@,
            EventKind::ReactionAdd => "ReactionAdd"@,
            EventKind::ReactionRemove => "ReactionRemove"@,
        }
    }

    /// The canonical name of the kind, as stored.
    pub fn name(&self) -> (r: &'static str)
        ensures
            r@ == self.spec_name(),
    {
        match self {
            EventKind::MemberJoin => "MemberJoin",
            EventKind::MemberLeave => "MemberLeave",
            EventKind::MemberUpdate => "MemberUpdate",
            EventKind::RoleCreate => "RoleCreate",
            EventKind::RoleUpdate => "RoleUpdate",
            EventKind::RoleDelete => "RoleDelete",
            EventKind::ChannelCreate => "ChannelCreate",
            EventKind::ChannelDelete => "ChannelDelete",
            EventKind::ChannelUpdate => "ChannelUpdate",
            EventKind::GuildUpdate => "GuildUpdate",
            EventKind::VoiceUpdate => "VoiceUpdate",
            EventKind::ReactionAdd => "ReactionAdd",
            EventKind::ReactionRemove => "ReactionRemove",
        }
    }

    /// All kinds, in the order in which names are tried.
    pub open spec fn all() -> Seq<EventKind> {
        seq![
            EventKind::MemberJoin,
            EventKind::MemberLeave,
            EventKind::MemberUpdate,
            EventKind::RoleCreate,
            EventKind::RoleUpdate,
            EventKind::RoleDelete,
            EventKind::ChannelCreate,
            EventKind::ChannelDelete,
            EventKind::ChannelUpdate,
            EventKind::GuildUpdate,
            EventKind::VoiceUpdate,
            EventKind::ReactionAdd,
            EventKind::ReactionRemove,
        ]
    }

    /// The first kind in `kinds` whose name equals `s` up to ASCII case.
    pub open spec fn first_named(kinds: Seq<EventKind>, s: Seq<char>) -> Option<EventKind>
        decreases kinds.len(),
    {
        if kinds.len() == 0 {
            None
        } else if eq_ignoring_ascii_case(s, kinds[0].spec_name()) {
            Some(kinds[0])
        } else {
            Self::first_named(kinds.drop_first(), s)
        }
    }

    /// The kind named by `s`, compared without regard to ASCII case.
    pub open spec fn spec_from_name(s: Seq<char>) -> Option<EventKind> {
        Self::first_named(Self::all(), s)
    }

    /// Reads an event kind from its name, compared without regard to ASCII case.
    pub fn from_name(s: &str) -> (r: Option<EventKind>)
        ensures
            r == Self::spec_from_name(s@),
    {
        let kinds: Vec<EventKind> = vec![
            EventKind::MemberJoin,
            EventKind::MemberLeave,
            EventKind::MemberUpdate,
            EventKind::RoleCreate,
            EventKind::RoleUpdate,
            EventKind::RoleDelete,
            EventKind::ChannelCreate,
            EventKind::ChannelDelete,
            EventKind::ChannelUpdate,
            EventKind::GuildUpdate,
            EventKind::VoiceUpdate,
            EventKind::ReactionAdd,
            EventKind::ReactionRemove,
        ];
        assert(kinds@ == Self::all());
        assert(kinds@.skip(0) == kinds@);
        let mut i: usize = 0;
        while i < kinds.len()
            invariant
                i <= kinds.len(),
                kinds@ == Self::all(),
                Self::first_named(Self::all(), s@) == Self::first_named(kinds@.skip(i as int), s@),
            decreases kinds.len() - i,
        {
            let k = kinds[i];
            assert(kinds@.skip(i as int).drop_first() == kinds@.skip(i + 1));
            if eq_ignore_ascii_case(s, k.name()) {
                return Some(k);
            }
            i = i + 1;
        }
        assert(kinds@.skip(i as int) == Seq::<EventKind>::empty());
        None
    }
}

/// Returns the properly capitalized name of the event kind that `name` names
/// (compared without regard to ASCII case), or [None] if it names no kind.
pub fn proper_event_name(name: &str) -> (r: Option<&'static str>)
    ensures
        match r {
            Some(n) => EventKind::spec_from_name(name@) matches Some(k) && n@ == k.spec_name(),
            None => EventKind::spec_from_name(name@) is None,
        },
{
    match EventKind::from_name(name) {
        Some(k) => Some(k.name()),
        None => None,
    }
}

} // verus!
