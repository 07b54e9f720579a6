//! The builder registry: a directory of named builders.
//!
//! The registry is viewed as a map from builder name to [`Builder`];
//! internally it is a vector with pairwise-distinct names.  The host
//! serializes access (one exclusion lock around the whole registry), so
//! the operations here are sequential state transitions: look a builder
//! up and drain it, install the fresh generation after a successful
//! spawn, drop the entry after a failed one.  A redeploy is the host
//! performing, in order: [`Registry::group_to_signal`] (and delivering
//! that signal), the spawn attempt, then [`Registry::apply_spawn_success`]
//! or [`Registry::apply_spawn_failure`] — so a failed respawn leaves the
//! name absent, never a half-initialized builder.

use vstd::prelude::*;
use crate::builder::Builder;
use crate::output::{Output, TaggedLine, out_text, err_text};

verus! {

/// Pairwise-distinct builder names.
pub open spec fn unique_names(s: Seq<Builder>) -> bool {
    forall|i: int, j: int|
        0 <= i < j < s.len() ==> s[i].name_chars() != s[j].name_chars()
}

/// Every builder in the sequence is well-formed.
pub open spec fn all_wf(s: Seq<Builder>) -> bool {
    forall|i: int| 0 <= i < s.len() ==> #[trigger] s[i].wf()
}

/// The map view of a sequence of builders: each name maps to the
/// builder carrying it (with unique names, the only one).
pub open spec fn map_of(s: Seq<Builder>) -> Map<Seq<char>, Builder>
    decreases s.len(),
{
    if s.len() == 0 {
        Map::<Seq<char>, Builder>::empty()
    } else {
        map_of(s.drop_last()).insert(s.last().name_chars(), s.last())
    }
}

/// A name is in the map view exactly when some builder carries it.
pub proof fn lemma_map_of_dom(s: Seq<Builder>, n: Seq<char>)
    ensures
        map_of(s).contains_key(n) <==> exists|i: int|
            0 <= i < s.len() && #[trigger] s[i].name_chars() == n,
    decreases s.len(),
{
    if s.len() > 0 {
        lemma_map_of_dom(s.drop_last(), n);
        if s.last().name_chars() == n {
            assert(s[s.len() - 1].name_chars() == n);
        } else if map_of(s).contains_key(n) {
            let i = choose|i: int| 0 <= i < s.drop_last().len()
                && #[trigger] s.drop_last()[i].name_chars() == n;
            assert(s[i].name_chars() == n);
        } else if exists|i: int| 0 <= i < s.len() && #[trigger] s[i].name_chars() == n {
            let i = choose|i: int| 0 <= i < s.len() && #[trigger] s[i].name_chars() == n;
            assert(s.drop_last()[i].name_chars() == n);
        }
    }
}

/// With unique names, the map view sends each builder's name to that
/// very builder.
pub proof fn lemma_map_of_index(s: Seq<Builder>, i: int)
    requires
        0 <= i < s.len(),
        unique_names(s),
    ensures
        map_of(s).contains_key(s[i].name_chars()),
        map_of(s)[s[i].name_chars()] == s[i],
    decreases s.len(),
{
    if i == s.len() - 1 {
    } else {
        lemma_map_of_index(s.drop_last(), i);
        assert(s.drop_last()[i] == s[i]);
    }
}

/// Replacing the builder at one position, keeping its name, updates the
/// map view at that name alone.
pub proof fn lemma_map_of_update(s: Seq<Builder>, i: int, b: Builder)
    requires
        0 <= i < s.len(),
        unique_names(s),
        b.name_chars() == s[i].name_chars(),
    ensures
        map_of(s.update(i, b)) == map_of(s).insert(b.name_chars(), b),
    decreases s.len(),
{
    if i == s.len() - 1 {
        assert(s.update(i, b).drop_last() =~= s.drop_last());
        assert(s.update(i, b).last() == b);
        assert(map_of(s.drop_last()).insert(b.name_chars(), b) =~= map_of(s).insert(
            b.name_chars(),
            b,
        ));
    } else {
        lemma_map_of_update(s.drop_last(), i, b);
        assert(s.update(i, b).drop_last() =~= s.drop_last().update(i, b));
        assert(s.update(i, b).last() == s.last());
        assert(s.last().name_chars() != b.name_chars());
        assert(map_of(s.drop_last()).insert(b.name_chars(), b).insert(
            s.last().name_chars(),
            s.last(),
        ) =~= map_of(s.drop_last()).insert(s.last().name_chars(), s.last()).insert(
            b.name_chars(),
            b,
        ));
    }
}

/// Appending a builder with a name no other entry carries inserts that
/// name into the map view.
pub proof fn lemma_map_of_push(s: Seq<Builder>, b: Builder)
    ensures
        map_of(s.push(b)) == map_of(s).insert(b.name_chars(), b),
{
    assert(s.push(b).drop_last() =~= s);
    assert(s.push(b).last() == b);
}

/// Removing a name that no builder carries changes nothing.
pub proof fn lemma_map_of_remove_absent(s: Seq<Builder>, n: Seq<char>)
    requires
        forall|i: int| 0 <= i < s.len() ==> #[trigger] s[i].name_chars() != n,
    ensures
        map_of(s).remove(n) == map_of(s),
{
    lemma_map_of_dom(s, n);
    assert(map_of(s).remove(n) =~= map_of(s));
}

/// With unique names, the map view has exactly one key per builder.
pub proof fn lemma_map_of_dom_len(s: Seq<Builder>)
    requires
        unique_names(s),
    ensures
        map_of(s).dom().finite(),
        map_of(s).dom().len() == s.len(),
    decreases s.len(),
{
    if s.len() == 0 {
        assert(map_of(s).dom() =~= Set::<Seq<char>>::empty());
    } else {
        lemma_map_of_dom_len(s.drop_last());
        lemma_map_of_dom(s.drop_last(), s.last().name_chars());
        assert(forall|i: int|
            0 <= i < s.drop_last().len() ==> #[trigger] s.drop_last()[i].name_chars()
                != s.last().name_chars());
        assert(!map_of(s.drop_last()).contains_key(s.last().name_chars()));
        assert(map_of(s).dom() =~= map_of(s.drop_last()).dom().insert(s.last().name_chars()));
    }
}

/// Removing the builder at one position removes its name from the map
/// view.
pub proof fn lemma_map_of_remove(s: Seq<Builder>, i: int)
    requires
        0 <= i < s.len(),
        unique_names(s),
    ensures
        map_of(s.remove(i)) == map_of(s).remove(s[i].name_chars()),
    decreases s.len(),
{
    let n = s[i].name_chars();
    if i == s.len() - 1 {
        assert(s.remove(i) =~= s.drop_last());
        assert(forall|j: int|
            0 <= j < s.drop_last().len() ==> #[trigger] s.drop_last()[j].name_chars() != n);
        lemma_map_of_remove_absent(s.drop_last(), n);
        assert(map_of(s).remove(n) =~= map_of(s.drop_last()).remove(n));
    } else {
        lemma_map_of_remove(s.drop_last(), i);
        assert(s.remove(i).drop_last() =~= s.drop_last().remove(i));
        assert(s.remove(i).last() == s.last());
        assert(s.last().name_chars() != n);
        assert(map_of(s.drop_last()).remove(n).insert(s.last().name_chars(), s.last())
            =~= map_of(s.drop_last()).insert(s.last().name_chars(), s.last()).remove(n));
    }
}

/// The concurrency-safe directory of named builders (the host wraps it
/// in its exclusion lock).
pub struct Registry {
    entries: Vec<Builder>,
}

impl View for Registry {
    type V = Map<Seq<char>, Builder>;

    closed spec fn view(&self) -> Map<Seq<char>, Builder> {
        map_of(self.entries@)
    }
}

impl Registry {
    /// Well-formedness: names are unique and every builder is
    /// well-formed.
    pub closed spec fn wf(self) -> bool {
        &&& unique_names(self.entries@)
        &&& all_wf(self.entries@)
    }

    /// An empty registry, holding no builders.
    pub fn new() -> (r: Registry)
        ensures
            r.wf(),
            r@ == Map::<Seq<char>, Builder>::empty(),
    {
        Registry { entries: Vec::new() }
    }

    /// The position of the builder named `name`, if any.
    fn find_index(&self, name: &String) -> (r: Option<usize>)
        ensures
            match r {
                Some(i) => i < self.entries@.len() && self.entries@[i as int].name_chars()
                    == name@,
                None => forall|i: int|
                    0 <= i < self.entries@.len() ==> #[trigger] self.entries@[i].name_chars()
                        != name@,
            },
    {
        let mut i: usize = 0;
        while i < self.entries.len()
            invariant
                i <= self.entries@.len(),
                forall|j: int|
                    0 <= j < i ==> #[trigger] self.entries@[j].name_chars() != name@,
            decreases self.entries@.len() - i,
        {
            if *self.entries[i].name() == *name {
                return Some(i);
            }
            i = i + 1;
        }
        None
    }

    /// Is a builder currently registered under `name`?
    pub fn contains(&self, name: &String) -> (b: bool)
        requires
            self.wf(),
        ensures
            b == self@.contains_key(name@),
    {
        proof {
            lemma_map_of_dom(self.entries@, name@);
        }
        match self.find_index(name) {
            Some(_) => true,
            None => false,
        }
    }

    /// The read path: drain the builder registered under `name` and hand
    /// back its full buffered output; `None` exactly when the name is
    /// unknown — absence is an answer, never a failure.
    pub fn drain_output(&mut self, name: &String, lines: &Vec<TaggedLine>) -> (o: Option<Output>)
        requires
            old(self).wf(),
        ensures
            final(self).wf(),
            (o is Some) == old(self)@.contains_key(name@),
            !old(self)@.contains_key(name@) ==> final(self)@ == old(self)@,
            old(self)@.contains_key(name@) ==> {
                &&& final(self)@ == old(self)@.insert(name@, final(self)@[name@])
                &&& final(self)@.contains_key(name@)
                &&& final(self)@[name@].lines() == old(self)@[name@].lines() + lines@
                &&& final(self)@[name@].name_chars() == old(self)@[name@].name_chars()
                &&& final(self)@[name@].group() == old(self)@[name@].group()
                &&& o.unwrap().out@ == out_text(final(self)@[name@].lines())
                &&& o.unwrap().err@ == err_text(final(self)@[name@].lines())
            },
    {
        proof {
            lemma_map_of_dom(self.entries@, name@);
        }
        match self.find_index(name) {
            None => None,
            Some(i) => {
                proof {
                    lemma_map_of_index(self.entries@, i as int);
                }
                let b = &mut self.entries[i];
                let out = b.drain_output(lines);
                proof {
                    lemma_map_of_update(
                        old(self).entries@,
                        i as int,
                        self.entries@[i as int],
                    );
                    lemma_map_of_index(self.entries@, i as int);
                }
                Some(out)
            },
        }
    }

    /// A spawn for `name` succeeded: install the fresh generation —
    /// empty history, the new child's pid as group id — replacing any
    /// previous builder of that name wholesale, or creating the entry
    /// if the name is new.  Nothing else changes.
    pub fn apply_spawn_success(&mut self, name: &String, group_id: u32)
        requires
            old(self).wf(),
            1 <= group_id <= i32::MAX as u32,
        ensures
            final(self).wf(),
            final(self)@ == old(self)@.insert(name@, final(self)@[name@]),
            final(self)@.contains_key(name@),
            final(self)@[name@].lines() == Seq::<TaggedLine>::empty(),
            final(self)@[name@].name_chars() == name@,
            final(self)@[name@].group() == group_id,
    {
        let fresh = Builder::new(name.clone(), group_id);
        match self.find_index(name) {
            Some(i) => {
                proof {
                    lemma_map_of_update(self.entries@, i as int, fresh);
                }
                self.entries[i] = fresh;
                proof {
                    lemma_map_of_index(self.entries@, i as int);
                }
            },
            None => {
                proof {
                    lemma_map_of_push(self.entries@, fresh);
                }
                self.entries.push(fresh);
                proof {
                    lemma_map_of_index(self.entries@, self.entries@.len() - 1);
                }
            },
        }
    }

    /// A spawn for `name` failed: leave the registry with no entry for
    /// the name, so the next lookup reports it absent rather than
    /// finding a half-initialized builder.  Nothing else changes.
    pub fn apply_spawn_failure(&mut self, name: &String)
        requires
            old(self).wf(),
        ensures
            final(self).wf(),
            final(self)@ == old(self)@.remove(name@),
            !final(self)@.contains_key(name@),
    {
        match self.find_index(name) {
            Some(i) => {
                proof {
                    lemma_map_of_remove(self.entries@, i as int);
                    lemma_map_of_dom(self.entries@.remove(i as int), name@);
                }
                self.entries.remove(i);
            },
            None => {
                proof {
                    lemma_map_of_remove_absent(self.entries@, name@);
                    lemma_map_of_dom(self.entries@, name@);
                }
            },
        }
    }

    /// What a redeploy of `name` must signal before respawning: the
    /// negative of the registered builder's process-group id, so the
    /// signal reaches the whole group; `None` when the name is unknown
    /// and there is nothing to terminate.
    pub fn group_to_signal(&self, name: &String) -> (t: Option<i32>)
        requires
            self.wf(),
        ensures
            (t is Some) == self@.contains_key(name@),
            self@.contains_key(name@) ==> t.unwrap() as int == -(self@[name@].group() as int),
    {
        proof {
            lemma_map_of_dom(self.entries@, name@);
        }
        match self.find_index(name) {
            None => None,
            Some(i) => {
                proof {
                    lemma_map_of_index(self.entries@, i as int);
                }
                Some(self.entries[i].signal_target())
            },
        }
    }

    /// Is `t` the signal target of some builder in the map — the
    /// negative of a registered process-group id?
    pub open spec fn is_target_of_some_group(m: Map<Seq<char>, Builder>, t: i32) -> bool {
        exists|k: Seq<char>| #[trigger] m.contains_key(k) && t as int == -(m[k].group() as int)
    }

    /// The signal targets of every registered builder, for shutdown:
    /// tearing the registry down means delivering a group signal to each
    /// of these.
    pub fn signal_targets(&self) -> (ts: Vec<i32>)
        requires
            self.wf(),
        ensures
            ts@.len() == self@.dom().len(),
            forall|k: Seq<char>| #[trigger]
                self@.contains_key(k) ==> exists|j: int|
                    0 <= j < ts@.len() && #[trigger] ts@[j] as int == -(self@[k].group() as int),
            forall|j: int|
                0 <= j < ts@.len() ==> #[trigger] Self::is_target_of_some_group(self@, ts@[j]),
    {
        let mut ts: Vec<i32> = Vec::new();
        let mut i: usize = 0;
        while i < self.entries.len()
            invariant
                self.wf(),
                i <= self.entries@.len(),
                ts@.len() == i,
                forall|j: int|
                    0 <= j < i ==> #[trigger] ts@[j] as int == -(self.entries@[j].group() as int),
            decreases self.entries@.len() - i,
        {
            ts.push(self.entries[i].signal_target());
            i = i + 1;
        }
        proof {
            lemma_map_of_dom_len(self.entries@);
            assert forall|k: Seq<char>| #[trigger] self@.contains_key(k) implies exists|j: int|
                0 <= j < ts@.len() && #[trigger] ts@[j] as int == -(self@[k].group() as int) by {
                lemma_map_of_dom(self.entries@, k);
                let i0 = choose|i0: int|
                    0 <= i0 < self.entries@.len() && #[trigger] self.entries@[i0].name_chars()
                        == k;
                lemma_map_of_index(self.entries@, i0);
                assert(ts@[i0] as int == -(self@[k].group() as int));
            }
            assert forall|j: int| 0 <= j < ts@.len() implies #[trigger] Self::is_target_of_some_group(
                self@,
                ts@[j],
            ) by {
                lemma_map_of_index(self.entries@, j);
                let k0 = self.entries@[j].name_chars();
                assert(self@.contains_key(k0) && ts@[j] as int == -(self@[k0].group() as int));
            }
        }
        ts
    }
}

} // verus!
