//! The containers that the controller tracks, one per name.

use crate::controller::container::{Container, ContainerName, ContainerView};
use crate::controller::container::health::health_of;
use crate::controller::label_parser::names_view;
use crate::controller::schedule::ScheduleError;
use crate::time::Timestamp;
use vstd::prelude::*;

verus! {

/// The tracked containers, at most one per name, in the order they were first added.
#[derive(Debug)]
pub struct RttCache {
    entries: Vec<Container>,
}

/// The names of tracked containers, in order.
pub open spec fn names_of(s: Seq<ContainerView>) -> Seq<Seq<char>> {
    s.map_values(|c: ContainerView| c.name)
}

/// A container of this name is tracked.
pub open spec fn has_name(s: Seq<ContainerView>, name: Seq<char>) -> bool {
    names_of(s).contains(name)
}

/// The position of the tracked container of this name.
pub open spec fn position_of(s: Seq<ContainerView>, name: Seq<char>) -> int {
    choose|i: int| 0 <= i < s.len() && #[trigger] s[i].name == name
}

/// The tracked container of this name.
pub open spec fn lookup(s: Seq<ContainerView>, name: Seq<char>) -> ContainerView {
    s[position_of(s, name)]
}

/// In a sequence with no name twice, the container at a position is the one its name finds.
pub proof fn lemma_lookup(s: Seq<ContainerView>, i: int)
    requires
        names_of(s).no_duplicates(),
        0 <= i < s.len(),
    ensures
        has_name(s, s[i].name),
        position_of(s, s[i].name) == i,
        lookup(s, s[i].name) == s[i],
{
    assert(names_of(s)[i] == s[i].name);
    let j = choose|j: int| 0 <= j < s.len() && #[trigger] s[j].name == s[i].name;
    assert(names_of(s)[j] == s[j].name);
}

/// The views of a sequence of containers.
pub open spec fn views(entries: Seq<Container>) -> Seq<ContainerView> {
    entries.map_values(|c: Container| c@)
}

impl View for RttCache {
    type V = Seq<ContainerView>;

    closed spec fn view(&self) -> Seq<ContainerView> {
        views(self.entries@)
    }
}

impl RttCache {
    /// No name is tracked twice: the invariant of every cache.
    #[verifier::type_invariant]
    pub open spec fn wf(&self) -> bool {
        names_of(self@).no_duplicates()
    }

    /// Moves the tracked containers out, leaving none tracked.
    fn take_entries(&mut self) -> (res: Vec<Container>)
        ensures
            views(res@) == old(self)@,
            final(self)@ == Seq::<ContainerView>::empty(),
    {
        let mut entries: Vec<Container> = Vec::new();
        assert(names_of(views(entries@)) =~= Seq::<Seq<char>>::empty());
        std::mem::swap(&mut entries, &mut self.entries);
        entries
    }

    /// No container is tracked.
    pub fn new() -> (res: Self)
        ensures
            res@ == Seq::<ContainerView>::empty(),
            res.wf(),
    {
        let res = RttCache { entries: Vec::new() };
        assert(res@ =~= Seq::<ContainerView>::empty());
        assert(names_of(res@) =~= Seq::<Seq<char>>::empty());
        res
    }

    /// The number of tracked containers.
    pub fn len(&self) -> (res: usize)
        ensures
            res == self@.len(),
    {
        self.entries.len()
    }

    /// No container is tracked.
    pub fn is_empty(&self) -> (res: bool)
        ensures
            res == (self@.len() == 0),
    {
        self.entries.len() == 0
    }

    /// The tracked container at position `i`.
    pub fn entry(&self, i: usize) -> (res: &Container)
        requires
            i < self@.len(),
        ensures
            res@ == self@[i as int],
    {
        &self.entries[i]
    }

    /// The position of the container named `name`.
    pub fn find(&self, name: &ContainerName) -> (res: Option<usize>)
        ensures
            res matches Some(i) ==> i < self@.len() && self@[i as int].name == name@,
            res is Some <==> has_name(self@, name@),
    {
        let mut i: usize = 0;
        while i < self.entries.len()
            invariant
                i <= self.entries.len(),
                self@ == self.entries@.map_values(|c: Container| c@),
                forall|j: int| 0 <= j < i ==> self@[j].name != name@,
            decreases self.entries.len() - i,
        {
            if self.entries[i].name.same_as(name) {
                assert(names_of(self@)[i as int] == name@);
                return Some(i);
            }
            i += 1;
        }
        proof {
            if has_name(self@, name@) {
                let j = choose|j: int| 0 <= j < names_of(self@).len() && names_of(self@)[j] == name@;
                assert(self@[j].name == name@);
            }
        }
        None
    }

    /// The container named `name`, if one is tracked (`HashMap::get`).
    pub fn get(&self, name: &ContainerName) -> (res: Option<&Container>)
        ensures
            res is Some <==> has_name(self@, name@),
            res matches Some(c) ==> c@ == lookup(self@, name@),
    {
        proof {
            use_type_invariant(self);
        }
        match self.find(name) {
            Some(i) => {
                proof {
                    lemma_lookup(self@, i as int);
                }
                Some(&self.entries[i])
            },
            None => None,
        }
    }

    /// A container of this name is tracked (`HashMap::contains_key`).
    pub fn contains_key(&self, name: &ContainerName) -> (res: bool)
        ensures
            res == has_name(self@, name@),
    {
        self.find(name).is_some()
    }

    /// Tracks `container`, in place of the one of the same name where there is one
    /// (`HashMap::insert`).
    pub fn insert(&mut self, container: Container)
        ensures
            final(self).wf(),
            has_name(old(self)@, container.name@) ==> exists|i: int|
                0 <= i < old(self)@.len() && old(self)@[i].name == container.name@ && final(self)@
                    == old(self)@.update(i, container@),
            !has_name(old(self)@, container.name@) ==> final(self)@ == old(self)@.push(container@),
    {
        proof {
            use_type_invariant(&*self);
        }
        let found = self.find(&container.name);
        let mut entries = self.take_entries();
        let ghost c = container@;
        match found {
            Some(i) => {
                entries.remove(i);
                entries.insert(i, container);
                assert(views(entries@) =~= old(self)@.update(i as int, c));
                assert(names_of(views(entries@)) =~= names_of(old(self)@));
            },
            None => {
                entries.push(container);
                assert(views(entries@) =~= old(self)@.push(c));
                assert(names_of(views(entries@)) =~= names_of(old(self)@).push(c.name));
            },
        }
        self.entries = entries;
    }

    /// Records what `docker inspect` reported of the container at position `i`: its health
    /// state field and its start time.
    pub fn set_health_and_start_time(&mut self, i: usize, health: &str, start_time: Timestamp)
        requires
            i < old(self)@.len(),
        ensures
            final(self).wf(),
            final(self)@ == old(self)@.update(
                i as int,
                ContainerView {
                    health: health_of(health@),
                    start_time: Some(start_time),
                    ..old(self)@[i as int]
                },
            ),
    {
        proof {
            use_type_invariant(&*self);
        }
        let mut entries = self.take_entries();
        let mut c = entries.remove(i);
        c.set_health(health);
        c.set_start_time(start_time);
        let ghost cv = c@;
        entries.insert(i, c);
        assert(views(entries@) =~= old(self)@.update(i as int, cv));
        assert(names_of(views(entries@)) =~= names_of(old(self)@));
        self.entries = entries;
    }

    /// Recomputes the next restart time of the container at position `i` from its schedule;
    /// where that fails, the error is the answer and nothing changes.
    pub fn set_next_restart_time_at(&mut self, i: usize) -> (res: Result<(), ScheduleError>)
        requires
            i < old(self)@.len(),
        ensures
            final(self).wf(),
            res is Err ==> final(self)@ == old(self)@,
            res is Ok ==> final(self)@ == old(self)@.update(
                i as int,
                ContainerView {
                    next_restart_time: final(self)@[i as int].next_restart_time,
                    ..old(self)@[i as int]
                },
            ),
            res is Ok ==> match old(self)@[i as int].restart_schedule {
                None => final(self)@[i as int].next_restart_time is None,
                Some(s) => s.possible_next(final(self)@[i as int].next_restart_time),
            },
            old(self)@[i as int].restart_schedule is None ==> res is Ok,
            res matches Err(e) ==> old(self)@[i as int].restart_schedule matches Some(s)
                && s.may_fail_with(e),
    {
        proof {
            use_type_invariant(&*self);
        }
        let mut entries = self.take_entries();
        let mut c = entries.remove(i);
        let res = c.set_next_restart_time();
        let ghost cv = c@;
        entries.insert(i, c);
        assert(views(entries@) =~= old(self)@.update(i as int, cv));
        assert(names_of(views(entries@)) =~= names_of(old(self)@));
        proof {
            if res is Err {
                assert(views(entries@) =~= old(self)@);
            }
        }
        self.entries = entries;
        res
    }

    /// The names of the tracked containers, in order.
    pub fn names(&self) -> (res: Vec<ContainerName>)
        ensures
            names_view(res@) == names_of(self@),
    {
        let mut res: Vec<ContainerName> = Vec::new();
        let mut i: usize = 0;
        while i < self.entries.len()
            invariant
                i <= self.entries.len(),
                self@ == self.entries@.map_values(|c: Container| c@),
                names_view(res@) =~= names_of(self@).take(i as int),
            decreases self.entries.len() - i,
        {
            let name = self.entries[i].name.clone();
            let ghost before = res@;
            res.push(name);
            assert(names_view(res@) =~= names_view(before).push(name@));
            i += 1;
        }
        res
    }
}

} // verus!
