//! The scripts stored for one guild: message rules, in storage order, and event scripts.
use vstd::prelude::*;
use crate::events::EventKind;
use crate::match_engine::{check_match, classify, match_spec, MatchResult, MatchSpan, MatchType};

verus! {

/// No key appears twice in `s`.
pub open spec fn keys_unique<K, V>(s: Seq<(K, V)>) -> bool {
    forall|i: int, j: int| 0 <= i < j < s.len() ==> s[i].0 != s[j].0
}

/// Some entry of `s` has key `k`.
pub open spec fn has_key<K, V>(s: Seq<(K, V)>, k: K) -> bool {
    exists|i: int| 0 <= i < s.len() && s[i].0 == k
}

/// The position of an entry with key `k`.
pub open spec fn key_position<K, V>(s: Seq<(K, V)>, k: K) -> int {
    choose|i: int| 0 <= i < s.len() && s[i].0 == k
}

/// The value stored under `k`.
pub open spec fn lookup<K, V>(s: Seq<(K, V)>, k: K) -> Option<V> {
    if has_key(s, k) {
        Some(s[key_position(s, k)].1)
    } else {
        None
    }
}

/// `s` after writing `v` under `k`: in place if `k` is present, at the end otherwise.
pub open spec fn upsert<K, V>(s: Seq<(K, V)>, k: K, v: V) -> Seq<(K, V)> {
    if has_key(s, k) {
        s.update(key_position(s, k), (k, v))
    } else {
        s.push((k, v))
    }
}

/// `s` without the entry under `k`, the others keeping their order.
pub open spec fn remove_key<K, V>(s: Seq<(K, V)>, k: K) -> Seq<(K, V)> {
    if has_key(s, k) {
        s.remove(key_position(s, k))
    } else {
        s
    }
}

/// With unique keys, the entry at `i` is the one under its key.
pub proof fn lemma_key_at<K, V>(s: Seq<(K, V)>, k: K, i: int)
    requires
        keys_unique(s),
        0 <= i < s.len(),
        s[i].0 == k,
    ensures
        has_key(s, k),
        key_position(s, k) == i,
        lookup(s, k) == Some(s[i].1),
{
    assert(has_key(s, k));
    let j = key_position(s, k);
    if j < i {
        assert(s[j].0 != s[i].0);
    } else if i < j {
        assert(s[i].0 != s[j].0);
    }
}

/// Writing and removing keep keys unique.
pub proof fn lemma_unique_preserved<K, V>(s: Seq<(K, V)>, k: K, v: V)
    requires
        keys_unique(s),
    ensures
        keys_unique(upsert(s, k, v)),
        keys_unique(remove_key(s, k)),
{
    if has_key(s, k) {
        let p = key_position(s, k);
        let u = upsert(s, k, v);
        assert forall|i: int, j: int| 0 <= i < j < u.len() implies u[i].0 != u[j].0 by {
            assert(u[i].0 == s[i].0);
            assert(u[j].0 == s[j].0);
        }
        let r = remove_key(s, k);
        assert forall|i: int, j: int| 0 <= i < j < r.len() implies r[i].0 != r[j].0 by {
            let si = if i < p { i } else { i + 1 };
            let sj = if j < p { j } else { j + 1 };
            assert(r[i] == s[si]);
            assert(r[j] == s[sj]);
        }
    } else {
        let u = upsert(s, k, v);
        assert forall|i: int, j: int| 0 <= i < j < u.len() implies u[i].0 != u[j].0 by {
            if j == s.len() {
                assert(s[i].0 != k);
            }
        }
    }
}

/// Inserting an entry under `k` changes what `k` looks up and nothing else.
pub proof fn lemma_lookup_insert<K, V>(s: Seq<(K, V)>, i: int, k: K, v: V, h: K)
    requires
        0 <= i <= s.len(),
        keys_unique(s),
        keys_unique(s.insert(i, (k, v))),
    ensures
        lookup(s.insert(i, (k, v)), h) == (if h == k {
            Some(v)
        } else {
            lookup(s, h)
        }),
{
    let t = s.insert(i, (k, v));
    if h == k {
        lemma_key_at(t, k, i);
    } else if has_key(s, h) {
        let p = key_position(s, h);
        let q = if p < i { p } else { p + 1 };
        assert(t[q] == s[p]);
        lemma_key_at(s, h, p);
        lemma_key_at(t, h, q);
    } else {
        assert forall|j: int| 0 <= j < t.len() implies t[j].0 != h by {
            if j < i {
                assert(t[j] == s[j]);
            } else if j > i {
                assert(t[j] == s[j - 1]);
            }
        }
    }
}

/// What a stored pattern yields on `text`: nothing when it does not classify.
pub open spec fn rule_match(pattern: Seq<char>, text: Seq<char>) -> Option<MatchSpan> {
    match classify(pattern) {
        Some(kind) => match_spec(text, kind),
        None => None,
    }
}

/// Rule `i` matches `text` and no rule before it does.
pub open spec fn is_first_hit(rules: Seq<(Seq<char>, Seq<char>)>, text: Seq<char>, i: int) -> bool {
    &&& 0 <= i < rules.len()
    &&& rule_match(rules[i].0, text) is Some
    &&& forall|j: int| 0 <= j < i ==> (#[trigger] rule_match(rules[j].0, text)) is None
}

/// When an earlier rule matches, a later rule is never the one that fires.
pub proof fn lemma_earlier_rule_wins(
    rules: Seq<(Seq<char>, Seq<char>)>,
    text: Seq<char>,
    i: int,
    j: int,
)
    requires
        0 <= i < j < rules.len(),
        rule_match(rules[i].0, text) is Some,
    ensures
        !is_first_hit(rules, text, j),
{
}

/// Writing a rule makes its pattern yield the new script and leaves every
/// other pattern as it was; when the pattern was already stored, its rule is
/// replaced in place and the number of rules stays the same.
pub proof fn lemma_upsert_replaces<V>(rules: Seq<(Seq<char>, V)>, p: Seq<char>, s: V)
    requires
        keys_unique(rules),
    ensures
        has_key(rules, p) ==> upsert(rules, p, s).len() == rules.len(),
        lookup(upsert(rules, p, s), p) == Some(s),
        forall|q: Seq<char>| q != p ==> #[trigger] lookup(upsert(rules, p, s), q) == lookup(rules, q),
{
    let u = upsert(rules, p, s);
    lemma_unique_preserved(rules, p, s);
    let k = if has_key(rules, p) {
        key_position(rules, p)
    } else {
        rules.len() as int
    };
    lemma_key_at(u, p, k);
    assert forall|q: Seq<char>| q != p implies #[trigger] lookup(u, q) == lookup(rules, q) by {
        if has_key(rules, q) {
            let m = key_position(rules, q);
            lemma_key_at(rules, q, m);
            assert(u[m] == rules[m]);
            lemma_key_at(u, q, m);
        } else {
            assert forall|j: int| 0 <= j < u.len() implies u[j].0 != q by {
                if j != k {
                    assert(u[j] == rules[j]);
                }
            }
        }
    }
}

/// Removing a pattern that is not stored changes nothing; removing one that
/// is stored takes out exactly that rule.
pub proof fn lemma_remove_rule<V>(rules: Seq<(Seq<char>, V)>, p: Seq<char>)
    requires
        keys_unique(rules),
    ensures
        !has_key(rules, p) ==> remove_key(rules, p) == rules,
        has_key(rules, p) ==> remove_key(rules, p).len() == rules.len() - 1 && !has_key(
            remove_key(rules, p),
            p,
        ),
{
    if has_key(rules, p) {
        let k = key_position(rules, p);
        let r = remove_key(rules, p);
        assert forall|j: int| 0 <= j < r.len() implies r[j].0 != p by {
            if j < k {
                assert(r[j] == rules[j]);
                assert(rules[j].0 != rules[k].0);
            } else {
                assert(r[j] == rules[j + 1]);
                assert(rules[k].0 != rules[j + 1].0);
            }
        }
    }
}

/// The rule that fired on a message: its position, its script and the match.
pub struct RuleHit {
    pub index: usize,
    pub script: String,
    pub result: MatchResult,
}

/// The scripts of one guild, as mathematical values.
pub struct TriggersView {
    /// (pattern, script) pairs in storage order.
    pub messages: Seq<(Seq<char>, Seq<char>)>,
    /// (kind, script) pairs.
    pub events: Seq<(EventKind, Seq<char>)>,
}

/// The scripts stored for one guild.
pub struct Triggers {
    events: Vec<(EventKind, String)>,
    messages: Vec<(String, String)>,
}

impl TriggersView {
    /// At most one script per pattern and per event kind.
    pub open spec fn wf(self) -> bool {
        keys_unique(self.messages) && keys_unique(self.events)
    }

    /// No scripts at all.
    pub open spec fn empty() -> TriggersView {
        TriggersView {
            messages: Seq::<(Seq<char>, Seq<char>)>::empty(),
            events: Seq::<(EventKind, Seq<char>)>::empty(),
        }
    }
}

impl View for Triggers {
    type V = TriggersView;

    closed spec fn view(&self) -> TriggersView {
        TriggersView {
            messages: self.messages@.map_values(|p: (String, String)| (p.0@, p.1@)),
            events: self.events@.map_values(|p: (EventKind, String)| (p.0, p.1@)),
        }
    }
}

impl Triggers {
    /// At most one script per pattern and per event kind.
    pub open spec fn wf(&self) -> bool {
        self@.wf()
    }

    /// No scripts at all.
    pub fn new() -> (r: Self)
        ensures
            r.wf(),
            r@ == TriggersView::empty(),
    {
        let r = Self { events: Vec::new(), messages: Vec::new() };
        assert(r@.messages =~= Seq::<(Seq<char>, Seq<char>)>::empty());
        assert(r@.events =~= Seq::<(EventKind, Seq<char>)>::empty());
        r
    }

    /// Number of stored message rules.
    pub fn rule_count(&self) -> (r: usize)
        ensures
            r == self@.messages.len(),
    {
        self.messages.len()
    }

    fn rule_position(&self, pattern: &String) -> (r: Option<usize>)
        requires
            self.wf(),
        ensures
            match r {
                Some(i) => i < self@.messages.len() && self@.messages[i as int].0 == pattern@,
                None => !has_key(self@.messages, pattern@),
            },
    {
        let mut i: usize = 0;
        while i < self.messages.len()
            invariant
                i <= self.messages.len(),
                forall|j: int| 0 <= j < i ==> self@.messages[j].0 != pattern@,
            decreases self.messages.len() - i,
        {
            if self.messages[i].0 == *pattern {
                return Some(i);
            }
            i = i + 1;
        }
        None
    }

    fn event_position(&self, kind: EventKind) -> (r: Option<usize>)
        requires
            self.wf(),
        ensures
            match r {
                Some(i) => i < self@.events.len() && self@.events[i as int].0 == kind,
                None => !has_key(self@.events, kind),
            },
    {
        let mut i: usize = 0;
        while i < self.events.len()
            invariant
                i <= self.events.len(),
                forall|j: int| 0 <= j < i ==> self@.events[j].0 != kind,
            decreases self.events.len() - i,
        {
            if self.events[i].0 == kind {
                return Some(i);
            }
            i = i + 1;
        }
        None
    }

    /// The script stored for `pattern`.
    pub fn get_rule(&self, pattern: &String) -> (r: Option<String>)
        requires
            self.wf(),
        ensures
            match r {
                Some(s) => lookup(self@.messages, pattern@) == Some(s@),
                None => lookup(self@.messages, pattern@) is None,
            },
    {
        match self.rule_position(pattern) {
            Some(i) => {
                proof {
                    lemma_key_at(self@.messages, pattern@, i as int);
                }
                Some(self.messages[i].1.clone())
            },
            None => None,
        }
    }

    /// Stores `script` under `pattern`, replacing the script of an identical
    /// pattern in place, or adding the rule last.
    pub fn put_rule(&mut self, pattern: String, script: String)
        requires
            old(self).wf(),
        ensures
            final(self).wf(),
            final(self)@.messages == upsert(old(self)@.messages, pattern@, script@),
            final(self)@.events == old(self)@.events,
    {
        proof {
            lemma_unique_preserved(self@.messages, pattern@, script@);
        }
        let ghost key = pattern@;
        let ghost value = script@;
        match self.rule_position(&pattern) {
            Some(i) => {
                proof {
                    lemma_key_at(self@.messages, pattern@, i as int);
                }
                self.messages[i] = (pattern, script);
            },
            None => {
                self.messages.push((pattern, script));
            },
        }
        assert(self@.messages =~= upsert(old(self)@.messages, key, value));
        assert(self@.events =~= old(self)@.events);
    }

    /// Deletes the rule stored for `pattern`; true iff there was one.
    pub fn delete_rule(&mut self, pattern: &String) -> (r: bool)
        requires
            old(self).wf(),
        ensures
            final(self).wf(),
            r == has_key(old(self)@.messages, pattern@),
            final(self)@.messages == remove_key(old(self)@.messages, pattern@),
            final(self)@.events == old(self)@.events,
    {
        proof {
            lemma_unique_preserved(self@.messages, pattern@, Seq::<char>::empty());
        }
        match self.rule_position(pattern) {
            Some(i) => {
                proof {
                    lemma_key_at(self@.messages, pattern@, i as int);
                }
                self.messages.remove(i);
                assert(self@.messages =~= remove_key(old(self)@.messages, pattern@));
                assert(self@.events =~= old(self)@.events);
                true
            },
            None => false,
        }
    }

    /// The script stored for the event kind.
    pub fn get_event_script(&self, kind: EventKind) -> (r: Option<String>)
        requires
            self.wf(),
        ensures
            match r {
                Some(s) => lookup(self@.events, kind) == Some(s@),
                None => lookup(self@.events, kind) is None,
            },
    {
        match self.event_position(kind) {
            Some(i) => {
                proof {
                    lemma_key_at(self@.events, kind, i as int);
                }
                Some(self.events[i].1.clone())
            },
            None => None,
        }
    }

    /// Stores `script` for the event kind, replacing any earlier one.
    pub fn put_event_script(&mut self, kind: EventKind, script: String)
        requires
            old(self).wf(),
        ensures
            final(self).wf(),
            final(self)@.events == upsert(old(self)@.events, kind, script@),
            final(self)@.messages == old(self)@.messages,
    {
        proof {
            lemma_unique_preserved(self@.events, kind, script@);
        }
        let ghost value = script@;
        match self.event_position(kind) {
            Some(i) => {
                proof {
                    lemma_key_at(self@.events, kind, i as int);
                }
                self.events[i] = (kind, script);
            },
            None => {
                self.events.push((kind, script));
            },
        }
        assert(self@.events =~= upsert(old(self)@.events, kind, value));
        assert(self@.messages =~= old(self)@.messages);
    }

    /// Deletes the script of the event kind; true iff there was one.
    pub fn delete_event_script(&mut self, kind: EventKind) -> (r: bool)
        requires
            old(self).wf(),
        ensures
            final(self).wf(),
            r == has_key(old(self)@.events, kind),
            final(self)@.events == remove_key(old(self)@.events, kind),
            final(self)@.messages == old(self)@.messages,
    {
        proof {
            lemma_unique_preserved(self@.events, kind, Seq::<char>::empty());
        }
        match self.event_position(kind) {
            Some(i) => {
                proof {
                    lemma_key_at(self@.events, kind, i as int);
                }
                self.events.remove(i);
                assert(self@.events =~= remove_key(old(self)@.events, kind));
                assert(self@.messages =~= old(self)@.messages);
                true
            },
            None => false,
        }
    }

    /// The first rule, in storage order, whose pattern matches `text`.
    /// Rules after it are not evaluated; patterns that do not classify never match.
    pub fn select_rule(&self, text: &str) -> (r: Option<RuleHit>)
        ensures
            match r {
                Some(hit) => {
                    &&& is_first_hit(self@.messages, text@, hit.index as int)
                    &&& hit.script@ == self@.messages[hit.index as int].1
                    &&& rule_match(self@.messages[hit.index as int].0, text@) == Some(hit.result@)
                },
                None => forall|j: int|
                    0 <= j < self@.messages.len() ==> (#[trigger] rule_match(
                        self@.messages[j].0,
                        text@,
                    )) is None,
            },
    {
        first_matching_rule(&self.messages, text)
    }
}

/// The (pattern, script) pairs of `rules` as mathematical values.
pub open spec fn rules_view(rules: Seq<(String, String)>) -> Seq<(Seq<char>, Seq<char>)> {
    rules.map_values(|p: (String, String)| (p.0@, p.1@))
}

/// The first of `rules`, in order, whose pattern matches `text`.
/// Rules after it are not evaluated; patterns that do not classify never match.
pub fn first_matching_rule(rules: &Vec<(String, String)>, text: &str) -> (r: Option<RuleHit>)
    ensures
        match r {
            Some(hit) => {
                &&& is_first_hit(rules_view(rules@), text@, hit.index as int)
                &&& hit.script@ == rules_view(rules@)[hit.index as int].1
                &&& rule_match(rules_view(rules@)[hit.index as int].0, text@) == Some(hit.result@)
            },
            None => forall|j: int|
                0 <= j < rules@.len() ==> (#[trigger] rule_match(rules_view(rules@)[j].0, text@))
                    is None,
        },
{
    let ghost v = rules_view(rules@);
    let mut i: usize = 0;
    while i < rules.len()
        invariant
            i <= rules.len(),
            v == rules_view(rules@),
            forall|j: int| 0 <= j < i ==> (#[trigger] rule_match(v[j].0, text@)) is None,
        decreases rules.len() - i,
    {
        let pattern = rules[i].0.clone();
        match MatchType::new(pattern) {
            Ok(m) => {
                match check_match(text, m) {
                    Some(result) => {
                        return Some(RuleHit { index: i, script: rules[i].1.clone(), result });
                    },
                    None => {},
                }
            },
            Err(_) => {},
        }
        i = i + 1;
    }
    None
}

} // verus!
