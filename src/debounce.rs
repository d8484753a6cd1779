use vstd::prelude::*;

verus! {

/// Time since `last`, in milliseconds; zero when `now` is not later.
pub open spec fn elapsed(last: u64, now: u64) -> int {
    if now >= last {
        now - last
    } else {
        0
    }
}

/// Whether a command last dispatched as `state` records may run again at
/// `now`: it never ran, or at least `window` milliseconds have passed.
pub open spec fn debounce_allows(
    state: Map<Seq<char>, u64>,
    command: Seq<char>,
    window: u64,
    now: u64,
) -> bool {
    !state.contains_key(command) || elapsed(state[command], now) >= window
}

/// The time of the first record for `key`.
spec fn lookup(s: Seq<(String, u64)>, key: Seq<char>) -> Option<u64>
    decreases s.len(),
{
    if s.len() == 0 {
        None
    } else if s[0].0@ == key {
        Some(s[0].1)
    } else {
        lookup(s.drop_first(), key)
    }
}

proof fn lemma_lookup_skip(s: Seq<(String, u64)>, key: Seq<char>, i: int)
    requires
        0 <= i <= s.len(),
        forall|j: int| 0 <= j < i ==> s[j].0@ != key,
    ensures
        lookup(s, key) == lookup(s.subrange(i, s.len() as int), key),
    decreases i,
{
    if i > 0 {
        let t = s.drop_first();
        lemma_lookup_skip(t, key, i - 1);
        assert(t.subrange(i - 1, t.len() as int) =~= s.subrange(i, s.len() as int));
    } else {
        assert(s.subrange(0, s.len() as int) =~= s);
    }
}

proof fn lemma_lookup_update(s: Seq<(String, u64)>, i: int, entry: (String, u64), other: Seq<char>)
    requires
        0 <= i < s.len(),
        s[i].0@ == entry.0@,
        forall|j: int| 0 <= j < i ==> s[j].0@ != entry.0@,
    ensures
        lookup(s.update(i, entry), other) == if other == entry.0@ {
            Some(entry.1)
        } else {
            lookup(s, other)
        },
    decreases i,
{
    let u = s.update(i, entry);
    if i == 0 {
        assert(u.drop_first() =~= s.drop_first());
    } else {
        assert(u.drop_first() =~= s.drop_first().update(i - 1, entry));
        lemma_lookup_update(s.drop_first(), i - 1, entry, other);
    }
}

proof fn lemma_lookup_push(s: Seq<(String, u64)>, entry: (String, u64), other: Seq<char>)
    requires
        lookup(s, entry.0@) is None,
    ensures
        lookup(s.push(entry), other) == if other == entry.0@ {
            Some(entry.1)
        } else {
            lookup(s, other)
        },
    decreases s.len(),
{
    if s.len() > 0 {
        assert(s.push(entry).drop_first() =~= s.drop_first().push(entry));
        lemma_lookup_push(s.drop_first(), entry, other);
    } else {
        assert(s.push(entry).drop_first() =~= s);
    }
}

/// When each command was last dispatched, in milliseconds on a monotonic
/// clock. Keyed by the command text, so rules that share a command share
/// one timer.
///
/// The records are kept in a vector of pairs, searched front to back, rather
/// than in a hash map: the verifier proves nothing about a `HashMap` keyed by
/// `String`, while the vector lets every lookup and update be proved against
/// the map view below.
pub struct DebounceState {
    entries: Vec<(String, u64)>,
}

impl View for DebounceState {
    type V = Map<Seq<char>, u64>;

    closed spec fn view(&self) -> Map<Seq<char>, u64> {
        Map::new(
            |k: Seq<char>| lookup(self.entries@, k) is Some,
            |k: Seq<char>| lookup(self.entries@, k)->0,
        )
    }
}

impl DebounceState {
    /// A state in which no command has run yet.
    pub fn new() -> (r: DebounceState)
        ensures
            r@ == Map::<Seq<char>, u64>::empty(),
    {
        let r = DebounceState { entries: Vec::new() };
        assert(r@ =~= Map::<Seq<char>, u64>::empty());
        r
    }

    /// When `command` was last dispatched, if ever.
    pub fn last_dispatch(&self, command: &String) -> (r: Option<u64>)
        ensures
            r == (if self@.contains_key(command@) {
                Some(self@[command@])
            } else {
                None
            }),
    {
        match self.find(command) {
            Some(i) => Some(self.entries[i].1),
            None => None,
        }
    }

    fn find(&self, command: &String) -> (r: Option<usize>)
        ensures
            match r {
                Some(i) => i < self.entries@.len() && self.entries@[i as int].0@ == command@
                    && forall|j: int| 0 <= j < i ==> self.entries@[j].0@ != command@,
                None => lookup(self.entries@, command@) is None,
            },
            r matches Some(i) ==> lookup(self.entries@, command@) == Some(self.entries@[i as int].1),
    {
        let mut i: usize = 0;
        while i < self.entries.len()
            invariant
                i <= self.entries@.len(),
                forall|j: int| 0 <= j < i ==> self.entries@[j].0@ != command@,
            decreases self.entries@.len() - i,
        {
            if self.entries[i].0 == *command {
                proof {
                    lemma_lookup_skip(self.entries@, command@, i as int);
                }
                return Some(i);
            }
            i = i + 1;
        }
        proof {
            lemma_lookup_skip(self.entries@, command@, i as int);
        }
        None
    }

    /// Decides whether `command` may run at `now` given a debounce window of
    /// `window` milliseconds, and records `now` for it when it may.
    pub fn should_dispatch(&mut self, command: &String, window: u64, now: u64) -> (r: bool)
        ensures
            r == debounce_allows(old(self)@, command@, window, now),
            final(self)@ == (if r {
                old(self)@.insert(command@, now)
            } else {
                old(self)@
            }),
    {
        let found = self.find(command);
        let ghost before = self.entries@;
        match found {
            Some(i) => {
                let last = self.entries[i].1;
                let passed: u64 = if now >= last {
                    now - last
                } else {
                    0
                };
                if passed < window {
                    return false;
                }
                let entry = (command.clone(), now);
                self.entries.set(i, entry);
                proof {
                    assert forall|k: Seq<char>|
                        lookup(self.entries@, k) == (if k == command@ {
                            Some(now)
                        } else {
                            lookup(before, k)
                        }) by {
                        lemma_lookup_update(before, i as int, entry, k);
                    }
                    assert(self@ =~= old(self)@.insert(command@, now));
                }
                true
            },
            None => {
                let entry = (command.clone(), now);
                self.entries.push(entry);
                proof {
                    assert forall|k: Seq<char>|
                        lookup(self.entries@, k) == (if k == command@ {
                            Some(now)
                        } else {
                            lookup(before, k)
                        }) by {
                        lemma_lookup_push(before, entry, k);
                    }
                    assert(self@ =~= old(self)@.insert(command@, now));
                }
                true
            },
        }
    }
}

} // verus!

verus! {

/// Two checks of one command: the first, on a state that has no record of
/// it, lets it through; the second, at a later `t2`, lets it through exactly
/// when at least `window` milliseconds separate the two.
pub proof fn lemma_debounce_twice(
    state: Map<Seq<char>, u64>,
    command: Seq<char>,
    window: u64,
    t1: u64,
    t2: u64,
)
    requires
        !state.contains_key(command),
        t1 <= t2,
    ensures
        debounce_allows(state, command, window, t1),
        debounce_allows(state.insert(command, t1), command, window, t2) == (t2 - t1 >= window),
{
}

/// Recording a dispatch of one command leaves the decision for every other
/// command as it was.
pub proof fn lemma_debounce_independent(
    state: Map<Seq<char>, u64>,
    recorded: Seq<char>,
    t1: u64,
    other: Seq<char>,
    window: u64,
    t2: u64,
)
    requires
        recorded != other,
    ensures
        debounce_allows(state.insert(recorded, t1), other, window, t2) == debounce_allows(
            state,
            other,
            window,
            t2,
        ),
{
}

} // verus!
