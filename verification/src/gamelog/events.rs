use vstd::prelude::*;

verus! {

/// Running totals of named game events ("Turn", "Damage Taken", ...).
pub struct EventCounts {
    pub entries: Vec<(String, i32)>,
}

/// The totals that a list of entries records; a later entry for a name
/// overrides an earlier one.
pub open spec fn entries_map(s: Seq<(String, i32)>) -> Map<Seq<char>, i32>
    decreases s.len(),
{
    if s.len() == 0 {
        Map::empty()
    } else {
        entries_map(s.drop_last()).insert(s.last().0@, s.last().1)
    }
}

/// No name occurs twice in the list.
pub open spec fn unique_names(s: Seq<(String, i32)>) -> bool {
    forall|i: int, j: int| 0 <= i < j < s.len() ==> (#[trigger] s[i]).0@ != (#[trigger] s[j]).0@
}

/// The total recorded for `name` in `counts`: zero when never recorded.
pub open spec fn count_of(counts: Map<Seq<char>, i32>, name: Seq<char>) -> int {
    if counts.contains_key(name) {
        counts[name] as int
    } else {
        0
    }
}

impl EventCounts {
    pub open spec fn wf(&self) -> bool {
        unique_names(self.entries@)
    }

    /// The total of every event recorded so far, by name.
    pub open spec fn counts(&self) -> Map<Seq<char>, i32> {
        entries_map(self.entries@)
    }

    pub fn new() -> (events: EventCounts)
        ensures
            events.wf(),
            events.counts() == Map::<Seq<char>, i32>::empty(),
    {
        EventCounts { entries: Vec::new() }
    }
}

/// With distinct names, the totals hold exactly the names of the list, each
/// with its entry's value.
pub proof fn lemma_entries_map_lookup(s: Seq<(String, i32)>, i: int)
    requires
        unique_names(s),
        0 <= i < s.len(),
    ensures
        entries_map(s).contains_key(s[i].0@),
        entries_map(s)[s[i].0@] == s[i].1,
    decreases s.len(),
{
    if i < s.len() - 1 {
        lemma_entries_map_lookup(s.drop_last(), i);
        assert(s.drop_last()[i] == s[i]);
        assert(s[i].0@ != s.last().0@);
    }
}

/// A name that occurs in no entry has no total.
pub proof fn lemma_entries_map_absent(s: Seq<(String, i32)>, name: Seq<char>)
    requires
        forall|i: int| 0 <= i < s.len() ==> (#[trigger] s[i]).0@ != name,
    ensures
        !entries_map(s).contains_key(name),
    decreases s.len(),
{
    if s.len() > 0 {
        assert forall|i: int| 0 <= i < s.drop_last().len() implies (#[trigger] s.drop_last()[i]).0@ != name by {
            assert(s.drop_last()[i] == s[i]);
        }
        lemma_entries_map_absent(s.drop_last(), name);
    }
}

/// Replacing the value of an entry changes that name's total only.
pub proof fn lemma_entries_map_update(s: Seq<(String, i32)>, i: int, v: i32)
    requires
        unique_names(s),
        0 <= i < s.len(),
    ensures
        entries_map(s.update(i, (s[i].0, v))) == entries_map(s).insert(s[i].0@, v),
    decreases s.len(),
{
    let t = s.update(i, (s[i].0, v));
    if i == s.len() - 1 {
        assert(t.drop_last() =~= s.drop_last());
        assert(entries_map(t) =~= entries_map(s).insert(s[i].0@, v));
    } else {
        lemma_entries_map_update(s.drop_last(), i, v);
        assert(t.drop_last() =~= s.drop_last().update(i, (s[i].0, v)));
        assert(s.drop_last()[i] == s[i]);
        assert(s[i].0@ != s.last().0@);
        assert(entries_map(t) =~= entries_map(s).insert(s[i].0@, v));
    }
}

/// Returns the index of the entry for `name`, if there is one.
fn find_entry(events: &EventCounts, name: &String) -> (found: Option<usize>)
    requires
        events.wf(),
    ensures
        found matches Some(i) ==> i < events.entries@.len() && events.entries@[i as int].0@ == name@,
        found is None ==> forall|i: int| 0 <= i < events.entries@.len() ==> (#[trigger] events.entries@[i]).0@ != name@,
{
    let mut i: usize = 0;
    while i < events.entries.len()
        invariant
            i <= events.entries@.len(),
            forall|j: int| 0 <= j < i ==> (#[trigger] events.entries@[j]).0@ != name@,
        decreases events.entries@.len() - i,
    {
        if events.entries[i].0 == *name {
            return Some(i);
        }
        i = i + 1;
    }
    None
}

/// Forgets every event recorded so far.
pub fn clear_events(events: &mut EventCounts)
    ensures
        final(events).wf(),
        final(events).counts() == Map::<Seq<char>, i32>::empty(),
{
    events.entries.clear();
}

/// Sets the total of the event named `name` to `value`.
fn set_event(events: &mut EventCounts, name: String, value: i32)
    requires
        old(events).wf(),
    ensures
        final(events).wf(),
        final(events).counts() == old(events).counts().insert(name@, value),
{
    match find_entry(events, &name) {
        Some(i) => {
            let ghost before = events.entries@;
            let existing = events.entries[i].0.clone();
            events.entries.set(i, (existing, value));
            proof {
                assert(events.entries@ =~= before.update(i as int, (before[i as int].0, value)));
                lemma_entries_map_update(before, i as int, value);
            }
        },
        None => {
            let ghost before = events.entries@;
            events.entries.push((name, value));
            proof {
                assert(events.entries@.drop_last() =~= before);
                assert forall|i: int, j: int| 0 <= i < j < events.entries@.len() implies (#[trigger] events.entries@[i]).0@
                    != (#[trigger] events.entries@[j]).0@ by {
                    assert(before[i] == events.entries@[i]);
                    if j < before.len() {
                        assert(before[j] == events.entries@[j]);
                    }
                }
            }
        },
    }
}

/// Adds `n` to the total of the event named `event`.
pub fn record_event(events: &mut EventCounts, event: String, n: i32)
    requires
        old(events).wf(),
        i32::MIN <= count_of(old(events).counts(), event@) + n <= i32::MAX,
    ensures
        final(events).wf(),
        final(events).counts() == old(events).counts().insert(event@, (count_of(old(events).counts(), event@) + n) as i32),
{
    let current = get_event_count(events, &event);
    set_event(events, event, current + n);
}

/// Returns the total of the event named `event`: zero if never recorded.
pub fn get_event_count(events: &EventCounts, event: &String) -> (total: i32)
    requires
        events.wf(),
    ensures
        total == count_of(events.counts(), event@),
{
    match find_entry(events, event) {
        Some(i) => {
            proof {
                lemma_entries_map_lookup(events.entries@, i as int);
            }
            events.entries[i].1
        },
        None => {
            proof {
                lemma_entries_map_absent(events.entries@, event@);
            }
            0
        },
    }
}

/// Returns a copy of every total, as a list of `(name, total)` entries.
pub fn clone_events(events: &EventCounts) -> (copy: Vec<(String, i32)>)
    requires
        events.wf(),
    ensures
        unique_names(copy@),
        entries_map(copy@) == events.counts(),
{
    let mut copy: Vec<(String, i32)> = Vec::new();
    let mut i: usize = 0;
    while i < events.entries.len()
        invariant
            i <= events.entries@.len(),
            copy@.len() == i,
            forall|j: int| 0 <= j < i ==> (#[trigger] copy@[j]).0@ == events.entries@[j].0@ && copy@[j].1
                == events.entries@[j].1,
        decreases events.entries@.len() - i,
    {
        let name = events.entries[i].0.clone();
        copy.push((name, events.entries[i].1));
        i = i + 1;
    }
    proof {
        lemma_same_names_same_map(copy@, events.entries@);
    }
    copy
}

/// Two lists whose entries agree name by name and value by value record the
/// same totals.
pub proof fn lemma_same_names_same_map(a: Seq<(String, i32)>, b: Seq<(String, i32)>)
    requires
        a.len() == b.len(),
        forall|j: int| 0 <= j < a.len() ==> (#[trigger] a[j]).0@ == b[j].0@ && a[j].1 == b[j].1,
    ensures
        entries_map(a) == entries_map(b),
    decreases a.len(),
{
    if a.len() > 0 {
        assert forall|j: int| 0 <= j < a.drop_last().len() implies (#[trigger] a.drop_last()[j]).0@ == b.drop_last()[j].0@
            && a.drop_last()[j].1 == b.drop_last()[j].1 by {
            assert(a.drop_last()[j] == a[j]);
            assert(b.drop_last()[j] == b[j]);
        }
        lemma_same_names_same_map(a.drop_last(), b.drop_last());
    }
}

/// Replaces every total by those of `loaded`; a name listed twice keeps its
/// later value.
pub fn load_events(events: &mut EventCounts, loaded: Vec<(String, i32)>)
    ensures
        final(events).wf(),
        final(events).counts() == entries_map(loaded@),
{
    events.entries.clear();
    let mut i: usize = 0;
    while i < loaded.len()
        invariant
            events.wf(),
            i <= loaded@.len(),
            events.counts() == entries_map(loaded@.subrange(0, i as int)),
        decreases loaded@.len() - i,
    {
        assert(loaded@.subrange(0, i + 1).drop_last() =~= loaded@.subrange(0, i as int));
        let name = loaded[i].0.clone();
        set_event(events, name, loaded[i].1);
        i = i + 1;
    }
    assert(loaded@.subrange(0, loaded@.len() as int) =~= loaded@);
}

/// Loading a copy of the totals gives back the same totals.
pub proof fn lemma_load_of_clone(before: EventCounts, copy: Seq<(String, i32)>, after: EventCounts)
    requires
        entries_map(copy) == before.counts(),
        after.counts() == entries_map(copy),
    ensures
        after.counts() == before.counts(),
{
}

/// After recording `n` occurrences of an event, its total has grown by `n`
/// and every other total is unchanged.
pub proof fn lemma_count_after_record(before: EventCounts, after: EventCounts, event: Seq<char>, n: i32, other: Seq<char>)
    requires
        i32::MIN <= count_of(before.counts(), event) + n <= i32::MAX,
        after.counts() == before.counts().insert(event, (count_of(before.counts(), event) + n) as i32),
    ensures
        count_of(after.counts(), event) == count_of(before.counts(), event) + n,
        other != event ==> count_of(after.counts(), other) == count_of(before.counts(), other),
{
}

} // verus!
