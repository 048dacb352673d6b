//! Which device serves which volume.
use vstd::prelude::*;

verus! {

/// A map from volumes to the devices that serve them.
#[derive(Debug)]
pub struct VolumeIndex {
    entries: Vec<(String, u32)>,
}

/// Where a volume stands in a list of entries, if it does.
pub open spec fn position(entries: Seq<(String, u32)>, volume_id: Seq<char>, at: int) -> bool {
    0 <= at < entries.len() && entries[at].0@ == volume_id
}

/// Whether no volume stands twice in a list of entries.
pub open spec fn distinct(entries: Seq<(String, u32)>) -> bool {
    forall|i: int, j: int|
        #![trigger entries[i], entries[j]]
        0 <= i < j < entries.len() ==> entries[i].0@ != entries[j].0@
}

/// The map that a list of entries stands for.
pub open spec fn as_map(entries: Seq<(String, u32)>) -> Map<Seq<char>, u32> {
    Map::new(
        |v: Seq<char>| exists|at: int| #[trigger] position(entries, v, at),
        |v: Seq<char>| entries[choose|at: int| #[trigger] position(entries, v, at)].1,
    )
}

proof fn lemma_as_map(entries: Seq<(String, u32)>, at: int)
    requires
        distinct(entries),
        0 <= at < entries.len(),
    ensures
        as_map(entries).contains_key(entries[at].0@),
        as_map(entries)[entries[at].0@] == entries[at].1,
{
    let v = entries[at].0@;
    assert(position(entries, v, at));
    let found = choose|i: int| #[trigger] position(entries, v, i);
    assert(found == at);
}

impl View for VolumeIndex {
    type V = Map<Seq<char>, u32>;

    closed spec fn view(&self) -> Map<Seq<char>, u32> {
        as_map(self.entries@)
    }
}

impl VolumeIndex {
    /// No volume stands twice in the index.
    pub closed spec fn wf(&self) -> bool {
        distinct(self.entries@)
    }

    /// An index without volumes.
    pub fn new() -> (r: Self)
        ensures
            r.wf(),
            r@ == Map::<Seq<char>, u32>::empty(),
    {
        let r = VolumeIndex { entries: Vec::new() };
        assert(r@ =~= Map::<Seq<char>, u32>::empty());
        r
    }

    fn find(&self, volume_id: &String) -> (r: Option<usize>)
        requires
            self.wf(),
        ensures
            match r {
                Some(at) => position(self.entries@, volume_id@, at as int) && self@.contains_key(
                    volume_id@,
                ) && self@[volume_id@] == self.entries@[at as int].1,
                None => !self@.contains_key(volume_id@),
            },
    {
        let mut i: usize = 0;
        while i < self.entries.len()
            invariant
                i <= self.entries@.len(),
                self.wf(),
                forall|j: int| 0 <= j < i ==> (#[trigger] self.entries@[j]).0@ != volume_id@,
            decreases self.entries@.len() - i,
        {
            if self.entries[i].0 == *volume_id {
                proof {
                    lemma_as_map(self.entries@, i as int);
                }
                return Some(i);
            }
            i = i + 1;
        }
        None
    }

    /// The device that serves a volume.
    pub fn get(&self, volume_id: &String) -> (r: Option<u32>)
        requires
            self.wf(),
        ensures
            match r {
                Some(device_id) => self@.contains_key(volume_id@) && self@[volume_id@]
                    == device_id,
                None => !self@.contains_key(volume_id@),
            },
    {
        match self.find(volume_id) {
            Some(at) => Some(self.entries[at].1),
            None => None,
        }
    }

    /// Forgets a volume.
    pub fn remove(&mut self, volume_id: &String)
        requires
            old(self).wf(),
        ensures
            final(self).wf(),
            final(self)@ == old(self)@.remove(volume_id@),
    {
        match self.find(volume_id) {
            Some(at) => {
                let ghost before = self.entries@;
                self.entries.remove(at);
                proof {
                    let after = self.entries@;
                    assert(after =~= before.remove(at as int));
                    assert(distinct(after));
                    let gone = as_map(before).remove(volume_id@);
                    assert forall|v: Seq<char>|
                        as_map(after).contains_key(v) == gone.contains_key(v) by {
                        if as_map(after).contains_key(v) {
                            let i = choose|i: int| #[trigger] position(after, v, i);
                            let j = if i < at {
                                i
                            } else {
                                i + 1
                            };
                            assert(after[i] == before[j]);
                            assert(position(before, v, j));
                            assert(before[at as int].0@ == volume_id@);
                        }
                        if gone.contains_key(v) {
                            let j = choose|j: int| #[trigger] position(before, v, j);
                            let i = if j < at {
                                j
                            } else {
                                j - 1
                            };
                            assert(after[i] == before[j]);
                            assert(position(after, v, i));
                        }
                    }
                    assert forall|v: Seq<char>| #[trigger]
                        as_map(after).contains_key(v) implies as_map(after)[v] == gone[v] by {
                        let i = choose|i: int| #[trigger] position(after, v, i);
                        let j = if i < at {
                            i
                        } else {
                            i + 1
                        };
                        assert(after[i] == before[j]);
                        lemma_as_map(after, i);
                        lemma_as_map(before, j);
                    }
                    assert(as_map(after) =~= gone);
                }
            },
            None => {
                assert(self@ =~= old(self)@.remove(volume_id@));
            },
        }
    }

    /// Says that a device serves a volume.
    pub fn insert(&mut self, volume_id: String, device_id: u32)
        requires
            old(self).wf(),
        ensures
            final(self).wf(),
            final(self)@ == old(self)@.insert(volume_id@, device_id),
    {
        self.remove(&volume_id);
        let ghost before = self.entries@;
        assert(!as_map(before).contains_key(volume_id@));
        assert forall|i: int| 0 <= i < before.len() implies (#[trigger] before[i]).0@
            != volume_id@ by {
            assert(before[i].0@ == volume_id@ ==> position(before, volume_id@, i));
        }
        self.entries.push((volume_id, device_id));
        proof {
            let after = self.entries@;
            let grown = as_map(before).insert(volume_id@, device_id);
            assert(distinct(after));
            assert forall|v: Seq<char>| as_map(after).contains_key(v) == grown.contains_key(v) by {
                if as_map(after).contains_key(v) {
                    let i = choose|i: int| #[trigger] position(after, v, i);
                    if i < before.len() {
                        assert(position(before, v, i));
                    }
                }
                if as_map(before).contains_key(v) {
                    let i = choose|i: int| #[trigger] position(before, v, i);
                    assert(position(after, v, i));
                }
                assert(position(after, volume_id@, before.len() as int));
            }
            assert forall|v: Seq<char>| #[trigger] as_map(after).contains_key(v) implies as_map(
                after,
            )[v] == grown[v] by {
                let i = choose|i: int| #[trigger] position(after, v, i);
                lemma_as_map(after, i);
                if i < before.len() {
                    assert(after[i] == before[i]);
                    lemma_as_map(before, i);
                }
            }
            assert(as_map(after) =~= grown);
            assert(grown =~= old(self)@.insert(volume_id@, device_id));
        }
    }
}

} // verus!
