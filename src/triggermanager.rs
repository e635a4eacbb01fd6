//! The scripts of every guild, each guild's kept apart from the others'.
use vstd::prelude::*;
use crate::events::EventKind;
use crate::triggers::{
    has_key, keys_unique, lemma_key_at, lemma_lookup_insert, lemma_unique_preserved, lookup, remove_key, upsert,
    RuleHit, Triggers, TriggersView, is_first_hit, rule_match,
};

verus! {

/// The scripts of one guild.
pub struct GuildTriggerManager {
    guild_id: u64,
    triggers: Triggers,
}

impl GuildTriggerManager {
    /// A guild with no scripts.
    pub fn new(guild_id: u64) -> (r: Self)
        ensures
            r.guild_id() == guild_id,
            r.triggers().wf(),
            r.triggers()@ == TriggersView::empty(),
    {
        Self { guild_id, triggers: Triggers::new() }
    }

    /// The guild these scripts belong to.
    pub closed spec fn guild_id(&self) -> u64 {
        self.guild_id
    }

    /// The guild's scripts.
    pub closed spec fn triggers(&self) -> Triggers {
        self.triggers
    }

    /// The guild these scripts belong to.
    pub fn get_guild_id(&self) -> (r: u64)
        ensures
            r == self.guild_id(),
    {
        self.guild_id
    }

    /// The guild's scripts.
    pub fn get_triggers(&self) -> (r: &Triggers)
        ensures
            *r == self.triggers(),
    {
        &self.triggers
    }
}

/// The scripts of guild `g` in `s` (none if it has no entry).
pub open spec fn guild_of(s: Seq<(u64, TriggersView)>, g: u64) -> TriggersView {
    match lookup(s, g) {
        Some(t) => t,
        None => TriggersView::empty(),
    }
}

/// Stores the scripts of all guilds.
pub struct TriggerManager {
    guilds: Vec<GuildTriggerManager>,
}

impl View for TriggerManager {
    type V = Seq<(u64, TriggersView)>;

    closed spec fn view(&self) -> Seq<(u64, TriggersView)> {
        self.guilds@.map_values(|g: GuildTriggerManager| (g.guild_id, g.triggers@))
    }
}

impl TriggerManager {
    /// A guild's entry changed from `before` to `after`, the others kept.
    proof fn lemma_replaced(
        old_s: Seq<(u64, TriggersView)>,
        mid: Seq<(u64, TriggersView)>,
        i: int,
        g: u64,
        after: TriggersView,
        h: u64,
    )
        requires
            0 <= i <= mid.len(),
            keys_unique(old_s),
            keys_unique(mid),
            keys_unique(mid.insert(i, (g, after))),
            forall|j: int| 0 <= j < mid.len() ==> (#[trigger] mid[j]).0 != g,
            mid.insert(i, (g, guild_of(old_s, g))) == (if has_key(old_s, g) {
                old_s
            } else {
                old_s.push((g, TriggersView::empty()))
            }),
        ensures
            guild_of(mid.insert(i, (g, after)), h) == (if h == g {
                after
            } else {
                guild_of(old_s, h)
            }),
    {
        let before = guild_of(old_s, g);
        lemma_lookup_insert(mid, i, g, after, h);
        assert(keys_unique(mid.insert(i, (g, before)))) by {
            let t = mid.insert(i, (g, before));
            assert forall|a: int, b: int| 0 <= a < b < t.len() implies t[a].0 != t[b].0 by {
                let u = mid.insert(i, (g, after));
                assert(t[a].0 == u[a].0);
                assert(t[b].0 == u[b].0);
            }
        }
        lemma_lookup_insert(mid, i, g, before, h);
        if h != g && !has_key(old_s, g) {
            assert(old_s.insert(old_s.len() as int, (g, TriggersView::empty())) == old_s.push(
                (g, TriggersView::empty()),
            ));
            lemma_unique_preserved(old_s, g, TriggersView::empty());
            lemma_lookup_insert(old_s, old_s.len() as int, g, TriggersView::empty(), h);
        }
    }

    /// One entry per guild, each with well-formed scripts.
    pub open spec fn wf(&self) -> bool {
        &&& keys_unique(self@)
        &&& forall|i: int| 0 <= i < self@.len() ==> (#[trigger] self@[i]).1.wf()
    }

    /// The scripts of guild `g` (none if it has never stored any).
    pub open spec fn guild(&self, g: u64) -> TriggersView {
        guild_of(self@, g)
    }

    /// The (pattern, script) rules of guild `g`, in storage order.
    pub open spec fn rules(&self, g: u64) -> Seq<(Seq<char>, Seq<char>)> {
        self.guild(g).messages
    }

    /// The (kind, script) event scripts of guild `g`.
    pub open spec fn event_scripts(&self, g: u64) -> Seq<(EventKind, Seq<char>)> {
        self.guild(g).events
    }

    /// No guild has any script.
    pub fn new() -> (r: Self)
        ensures
            r.wf(),
            forall|g: u64| #[trigger] r.guild(g) == TriggersView::empty(),
    {
        let r = Self { guilds: Vec::new() };
        assert(r@ =~= Seq::<(u64, TriggersView)>::empty());
        r
    }

    fn position(&self, guild_id: u64) -> (r: Option<usize>)
        requires
            self.wf(),
        ensures
            match r {
                Some(i) => {
                    &&& i < self@.len()
                    &&& self@[i as int].0 == guild_id
                    &&& self.guild(guild_id) == self@[i as int].1
                    &&& self@[i as int].1 == self.guilds@[i as int].triggers@
                },
                None => !has_key(self@, guild_id) && self.guild(guild_id) == TriggersView::empty(),
            },
    {
        let mut i: usize = 0;
        while i < self.guilds.len()
            invariant
                self.wf(),
                i <= self.guilds.len(),
                forall|j: int| 0 <= j < i ==> self@[j].0 != guild_id,
            decreases self.guilds.len() - i,
        {
            if self.guilds[i].guild_id == guild_id {
                proof {
                    lemma_key_at(self@, guild_id, i as int);
                }
                return Some(i);
            }
            i = i + 1;
        }
        None
    }

    /// The scripts of the guild, if it has ever stored any.
    pub fn get_guild(&self, guild_id: u64) -> (r: Option<&GuildTriggerManager>)
        requires
            self.wf(),
        ensures
            match r {
                Some(g) => g.guild_id() == guild_id && g.triggers()@ == self.guild(guild_id)
                    && g.triggers().wf(),
                None => self.guild(guild_id) == TriggersView::empty(),
            },
    {
        match self.position(guild_id) {
            Some(i) => {
                assert(self@[i as int].1.wf());
                Some(&self.guilds[i])
            },
            None => None,
        }
    }

    /// Takes out the entry of guild `g`, adding an empty one if there is none.
    fn take_guild(&mut self, guild_id: u64) -> (r: (usize, GuildTriggerManager))
        requires
            old(self).wf(),
        ensures
            r.0 <= final(self)@.len(),
            r.1.guild_id == guild_id,
            r.1.triggers@ == old(self).guild(guild_id),
            r.1.triggers.wf(),
            final(self)@.insert(r.0 as int, (guild_id, old(self).guild(guild_id))) == (if has_key(
                old(self)@,
                guild_id,
            ) {
                old(self)@
            } else {
                old(self)@.push((guild_id, TriggersView::empty()))
            }),
            forall|j: int| 0 <= j < final(self)@.len() ==> (#[trigger] final(self)@[j]).0 != guild_id,
            forall|j: int| 0 <= j < final(self)@.len() ==> (#[trigger] final(self)@[j]).1.wf(),
            keys_unique(final(self)@),
    {
        let i = match self.position(guild_id) {
            Some(i) => i,
            None => {
                let g = GuildTriggerManager::new(guild_id);
                self.guilds.push(g);
                assert(self@ =~= old(self)@.push((guild_id, TriggersView::empty())));
                proof {
                    lemma_unique_preserved(old(self)@, guild_id, TriggersView::empty());
                }
                assert(self.guilds@.last().triggers@ == TriggersView::empty());
                self.guilds.len() - 1
            },
        };
        let ghost before = self@;
        assert(before[i as int].1.wf());
        let g = self.guilds.remove(i);
        assert(self@ =~= before.remove(i as int));
        assert(self@.insert(i as int, before[i as int]) =~= before);
        assert forall|j: int| 0 <= j < self@.len() implies (#[trigger] self@[j]).0 != guild_id by {
            let k = if j < i { j } else { j + 1 };
            assert(self@[j] == before[k]);
            if k < i {
                assert(before[k].0 != before[i as int].0);
            } else {
                assert(before[i as int].0 != before[k].0);
            }
        }
        assert forall|j: int| 0 <= j < self@.len() implies (#[trigger] self@[j]).1.wf() by {
            let k = if j < i { j } else { j + 1 };
            assert(self@[j] == before[k]);
        }
        assert forall|a: int, b: int| 0 <= a < b < self@.len() implies self@[a].0 != self@[b].0 by {
            let ka = if a < i { a } else { a + 1 };
            let kb = if b < i { b } else { b + 1 };
            assert(self@[a] == before[ka]);
            assert(self@[b] == before[kb]);
        }
        (i, g)
    }

    /// Stores `script` under `pattern` in guild `guild_id`, replacing the
    /// script of an identical pattern there; other guilds are untouched.
    pub fn put_rule(&mut self, guild_id: u64, pattern: String, script: String)
        requires
            old(self).wf(),
        ensures
            final(self).wf(),
            final(self).rules(guild_id) == upsert(old(self).rules(guild_id), pattern@, script@),
            final(self).event_scripts(guild_id) == old(self).event_scripts(guild_id),
            forall|h: u64| h != guild_id ==> #[trigger] final(self).guild(h) == old(self).guild(h),
    {
        let ghost old_s = self@;
        let (i, mut g) = self.take_guild(guild_id);
        let ghost mid = self@;
        g.triggers.put_rule(pattern, script);
        let ghost after = g.triggers@;
        self.put_back(i, g);
        assert forall|h: u64| #[trigger] guild_of(self@, h) == (if h == guild_id {
            after
        } else {
            guild_of(old_s, h)
        }) by {
            Self::lemma_replaced(old_s, mid, i as int, guild_id, after, h);
        }
        assert(self.guild(guild_id) == after);
    }

    /// Deletes the rule stored for `pattern` in guild `guild_id`; true iff
    /// there was one. Other guilds are untouched.
    pub fn delete_rule(&mut self, guild_id: u64, pattern: &String) -> (r: bool)
        requires
            old(self).wf(),
        ensures
            final(self).wf(),
            r == has_key(old(self).rules(guild_id), pattern@),
            final(self).rules(guild_id) == remove_key(old(self).rules(guild_id), pattern@),
            final(self).event_scripts(guild_id) == old(self).event_scripts(guild_id),
            forall|h: u64| h != guild_id ==> #[trigger] final(self).guild(h) == old(self).guild(h),
    {
        let ghost old_s = self@;
        let (i, mut g) = self.take_guild(guild_id);
        let ghost mid = self@;
        let r = g.triggers.delete_rule(pattern);
        let ghost after = g.triggers@;
        self.put_back(i, g);
        assert forall|h: u64| #[trigger] guild_of(self@, h) == (if h == guild_id {
            after
        } else {
            guild_of(old_s, h)
        }) by {
            Self::lemma_replaced(old_s, mid, i as int, guild_id, after, h);
        }
        assert(self.guild(guild_id) == after);
        r
    }

    /// Stores `script` for the event kind in guild `guild_id`, replacing any
    /// earlier one there; other guilds are untouched.
    pub fn put_event_script(&mut self, guild_id: u64, kind: EventKind, script: String)
        requires
            old(self).wf(),
        ensures
            final(self).wf(),
            final(self).event_scripts(guild_id) == upsert(
                old(self).event_scripts(guild_id),
                kind,
                script@,
            ),
            final(self).rules(guild_id) == old(self).rules(guild_id),
            forall|h: u64| h != guild_id ==> #[trigger] final(self).guild(h) == old(self).guild(h),
    {
        let ghost old_s = self@;
        let (i, mut g) = self.take_guild(guild_id);
        let ghost mid = self@;
        g.triggers.put_event_script(kind, script);
        let ghost after = g.triggers@;
        self.put_back(i, g);
        assert forall|h: u64| #[trigger] guild_of(self@, h) == (if h == guild_id {
            after
        } else {
            guild_of(old_s, h)
        }) by {
            Self::lemma_replaced(old_s, mid, i as int, guild_id, after, h);
        }
        assert(self.guild(guild_id) == after);
    }

    /// Deletes the script of the event kind in guild `guild_id`; true iff
    /// there was one. Other guilds are untouched.
    pub fn delete_event_script(&mut self, guild_id: u64, kind: EventKind) -> (r: bool)
        requires
            old(self).wf(),
        ensures
            final(self).wf(),
            r == has_key(old(self).event_scripts(guild_id), kind),
            final(self).event_scripts(guild_id) == remove_key(
                old(self).event_scripts(guild_id),
                kind,
            ),
            final(self).rules(guild_id) == old(self).rules(guild_id),
            forall|h: u64| h != guild_id ==> #[trigger] final(self).guild(h) == old(self).guild(h),
    {
        let ghost old_s = self@;
        let (i, mut g) = self.take_guild(guild_id);
        let ghost mid = self@;
        let r = g.triggers.delete_event_script(kind);
        let ghost after = g.triggers@;
        self.put_back(i, g);
        assert forall|h: u64| #[trigger] guild_of(self@, h) == (if h == guild_id {
            after
        } else {
            guild_of(old_s, h)
        }) by {
            Self::lemma_replaced(old_s, mid, i as int, guild_id, after, h);
        }
        assert(self.guild(guild_id) == after);
        r
    }

    /// The script stored for `pattern` in guild `guild_id`.
    pub fn get_rule(&self, guild_id: u64, pattern: &String) -> (r: Option<String>)
        requires
            self.wf(),
        ensures
            match r {
                Some(s) => lookup(self.rules(guild_id), pattern@) == Some(s@),
                None => lookup(self.rules(guild_id), pattern@) is None,
            },
    {
        match self.position(guild_id) {
            Some(i) => {
                assert(self@[i as int].1.wf());
                self.guilds[i].triggers.get_rule(pattern)
            },
            None => None,
        }
    }

    /// The script stored for the event kind in guild `guild_id`.
    pub fn get_event_script(&self, guild_id: u64, kind: EventKind) -> (r: Option<String>)
        requires
            self.wf(),
        ensures
            match r {
                Some(s) => lookup(self.event_scripts(guild_id), kind) == Some(s@),
                None => lookup(self.event_scripts(guild_id), kind) is None,
            },
    {
        match self.position(guild_id) {
            Some(i) => {
                assert(self@[i as int].1.wf());
                self.guilds[i].triggers.get_event_script(kind)
            },
            None => None,
        }
    }

    /// The first rule of guild `guild_id`, in storage order, whose pattern matches `text`.
    pub fn select_rule(&self, guild_id: u64, text: &str) -> (r: Option<RuleHit>)
        requires
            self.wf(),
        ensures
            match r {
                Some(hit) => {
                    &&& is_first_hit(self.rules(guild_id), text@, hit.index as int)
                    &&& hit.script@ == self.rules(guild_id)[hit.index as int].1
                    &&& rule_match(self.rules(guild_id)[hit.index as int].0, text@) == Some(
                        hit.result@,
                    )
                },
                None => forall|j: int|
                    0 <= j < self.rules(guild_id).len() ==> (#[trigger] rule_match(
                        self.rules(guild_id)[j].0,
                        text@,
                    )) is None,
            },
    {
        match self.position(guild_id) {
            Some(i) => self.guilds[i].triggers.select_rule(text),
            None => None,
        }
    }

    /// Puts back an entry taken out by `take_guild`, after changing its scripts.
    fn put_back(&mut self, i: usize, g: GuildTriggerManager)
        requires
            i <= old(self)@.len(),
            g.triggers.wf(),
            forall|j: int| 0 <= j < old(self)@.len() ==> (#[trigger] old(self)@[j]).0 != g.guild_id,
            forall|j: int| 0 <= j < old(self)@.len() ==> (#[trigger] old(self)@[j]).1.wf(),
            keys_unique(old(self)@),
        ensures
            final(self).wf(),
            final(self)@ == old(self)@.insert(i as int, (g.guild_id, g.triggers@)),
    {
        let ghost entry = (g.guild_id, g.triggers@);
        self.guilds.insert(i, g);
        assert(self@ =~= old(self)@.insert(i as int, entry));
        assert forall|j: int| 0 <= j < self@.len() implies (#[trigger] self@[j]).1.wf() by {
            if j < i {
                assert(self@[j] == old(self)@[j]);
            } else if j > i {
                assert(self@[j] == old(self)@[j - 1]);
            }
        }
        assert forall|a: int, b: int| 0 <= a < b < self@.len() implies self@[a].0 != self@[b].0 by {
            if a < i && b < i {
                assert(self@[a] == old(self)@[a]);
                assert(self@[b] == old(self)@[b]);
            } else if a < i && b == i {
                assert(self@[a] == old(self)@[a]);
            } else if a < i && b > i {
                assert(self@[a] == old(self)@[a]);
                assert(self@[b] == old(self)@[b - 1]);
            } else if a == i {
                assert(self@[b] == old(self)@[b - 1]);
            } else {
                assert(self@[a] == old(self)@[a - 1]);
                assert(self@[b] == old(self)@[b - 1]);
            }
        }
    }
}

} // verus!
