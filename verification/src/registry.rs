//! Which AVDs have an emulator running, and under which process id.
use vstd::prelude::*;

verus! {

/// The emulators started by the launcher that have not exited: AVD name to process id,
/// each name once.
pub struct RunningEmulators {
    names: Vec<String>,
    pids: Vec<u32>,
    map: Ghost<Map<Seq<char>, u32>>,
}

impl View for RunningEmulators {
    type V = Map<Seq<char>, u32>;

    closed spec fn view(&self) -> Map<Seq<char>, u32> {
        self.map@
    }
}

impl RunningEmulators {
    /// Names unique, one process id per name, and lists and map agree.
    pub closed spec fn wf(&self) -> bool {
        &&& self.pids@.len() == self.names@.len()
        &&& forall|i: int, j: int|
            0 <= i < j < self.names@.len() ==> #[trigger] self.names@[i]@
                != #[trigger] self.names@[j]@
        &&& forall|i: int|
            0 <= i < self.names@.len() ==> self.map@.contains_key(#[trigger] self.names@[i]@)
                && self.map@[self.names@[i]@] == self.pids@[i]
        &&& forall|k: Seq<char>|
            #[trigger] self.map@.contains_key(k) ==> exists|i: int|
                0 <= i < self.names@.len() && #[trigger] self.names@[i]@ == k
    }

    pub fn new() -> (r: RunningEmulators)
        ensures
            r.wf(),
            r@ == Map::<Seq<char>, u32>::empty(),
    {
        RunningEmulators { names: Vec::new(), pids: Vec::new(), map: Ghost(Map::empty()) }
    }

    fn index_of(&self, name: &str) -> (r: Option<usize>)
        requires
            self.wf(),
        ensures
            r matches Some(i) ==> i < self.names@.len() && self.names@[i as int]@ == name@,
            r is None ==> !self@.contains_key(name@),
    {
        let n = crate::text::chars_of(name);
        let mut i: usize = 0;
        while i < self.names.len()
            invariant
                i <= self.names@.len(),
                self.wf(),
                n@ == name@,
                forall|j: int| 0 <= j < i ==> self.names@[j]@ != name@,
            decreases self.names.len() - i,
        {
            if crate::text::eq_str(&n, self.names[i].as_str()) {
                return Some(i);
            }
            i += 1;
        }
        None
    }

    /// Whether an emulator of this AVD is running.
    pub fn is_running(&self, name: &str) -> (r: bool)
        requires
            self.wf(),
        ensures
            r == self@.contains_key(name@),
    {
        self.index_of(name).is_some()
    }

    /// The process id of this AVD's emulator, if it runs.
    pub fn pid_of(&self, name: &str) -> (r: Option<u32>)
        requires
            self.wf(),
        ensures
            r matches Some(p) ==> self@.contains_key(name@) && self@[name@] == p,
            r is None ==> !self@.contains_key(name@),
    {
        match self.index_of(name) {
            Some(i) => Some(self.pids[i]),
            None => None,
        }
    }

    /// Records a started emulator and its process id.
    pub fn mark_running(&mut self, name: &str, pid: u32)
        requires
            old(self).wf(),
        ensures
            final(self).wf(),
            final(self)@ == old(self)@.insert(name@, pid),
    {
        let ghost nv = name@;
        let ghost old_names = self.names@;
        let ghost old_pids = self.pids@;
        let ghost old_map = self.map@;
        match self.index_of(name) {
            Some(i) => {
                self.pids.set(i, pid);
                self.map = Ghost(old_map.insert(nv, pid));
                assert forall|a: int| 0 <= a < self.names@.len() implies self.map@.contains_key(
                    #[trigger] self.names@[a]@,
                ) && self.map@[self.names@[a]@] == self.pids@[a] by {
                    if a != i {
                        assert(old_names[a]@ != old_names[i as int]@);
                    }
                }
                assert forall|k: Seq<char>| #[trigger] self.map@.contains_key(k) implies exists|
                    a: int,
                | 0 <= a < self.names@.len() && #[trigger] self.names@[a]@ == k by {
                    if k == nv {
                        assert(self.names@[i as int]@ == k);
                    } else {
                        assert(old_map.contains_key(k));
                    }
                }
            },
            None => {
                self.names.push(String::from_str(name));
                self.pids.push(pid);
                self.map = Ghost(old_map.insert(nv, pid));
                let ghost j = old_names.len() as int;
                assert(self.names@[j]@ == nv);
                assert forall|k: int| 0 <= k < j implies self.names@[k] == old_names[k]
                    && self.pids@[k] == old_pids[k] by {}
                assert forall|a: int, b: int|
                    0 <= a < b < self.names@.len() implies #[trigger] self.names@[a]@
                    != #[trigger] self.names@[b]@ by {
                    if b != j {
                        assert(old_names[a]@ != old_names[b]@);
                    } else {
                        assert(old_map.contains_key(old_names[a]@));
                    }
                }
                assert forall|a: int| 0 <= a < self.names@.len() implies self.map@.contains_key(
                    #[trigger] self.names@[a]@,
                ) && self.map@[self.names@[a]@] == self.pids@[a] by {
                    if a != j {
                        assert(old_map.contains_key(old_names[a]@));
                    }
                }
                assert forall|k: Seq<char>| #[trigger] self.map@.contains_key(k) implies exists|
                    a: int,
                | 0 <= a < self.names@.len() && #[trigger] self.names@[a]@ == k by {
                    if k == nv {
                        assert(self.names@[j]@ == k);
                    } else {
                        assert(old_map.contains_key(k));
                        let m = choose|m: int|
                            0 <= m < old_names.len() && #[trigger] old_names[m]@ == k;
                        assert(self.names@[m]@ == k);
                    }
                }
            },
        }
    }

    /// Forgets an emulator that exited.
    pub fn mark_stopped(&mut self, name: &str)
        requires
            old(self).wf(),
        ensures
            final(self).wf(),
            final(self)@ == old(self)@.remove(name@),
    {
        let ghost nv = name@;
        let ghost old_names = self.names@;
        let ghost old_pids = self.pids@;
        let ghost old_map = self.map@;
        match self.index_of(name) {
            Some(i) => {
                self.names.remove(i);
                self.pids.remove(i);
                self.map = Ghost(old_map.remove(nv));
                proof {
                    assert(self.names@ =~= old_names.remove(i as int));
                    assert(self.pids@ =~= old_pids.remove(i as int));
                    assert forall|a: int, b: int|
                        0 <= a < b < self.names@.len() implies #[trigger] self.names@[a]@
                        != #[trigger] self.names@[b]@ by {
                        let oa = if a < i {
                            a
                        } else {
                            a + 1
                        };
                        let ob = if b < i {
                            b
                        } else {
                            b + 1
                        };
                        assert(self.names@[a] == old_names[oa]);
                        assert(self.names@[b] == old_names[ob]);
                    }
                    assert forall|a: int| 0 <= a < self.names@.len() implies self.map@.contains_key(
                        #[trigger] self.names@[a]@,
                    ) && self.map@[self.names@[a]@] == self.pids@[a] by {
                        let oa = if a < i {
                            a
                        } else {
                            a + 1
                        };
                        assert(self.names@[a] == old_names[oa]);
                        assert(self.pids@[a] == old_pids[oa]);
                        assert(old_names[oa]@ != old_names[i as int]@);
                        assert(old_map.contains_key(old_names[oa]@));
                    }
                    assert forall|k: Seq<char>| #[trigger] self.map@.contains_key(k) implies exists|
                        a: int,
                    | 0 <= a < self.names@.len() && #[trigger] self.names@[a]@ == k by {
                        assert(old_map.contains_key(k));
                        let m = choose|m: int|
                            0 <= m < old_names.len() && #[trigger] old_names[m]@ == k;
                        assert(m != i);
                        if m < i {
                            assert(self.names@[m]@ == k);
                        } else {
                            assert(self.names@[m - 1]@ == k);
                        }
                    }
                }
            },
            None => {
                assert(old_map.remove(nv) =~= old_map);
            },
        }
    }
}

} // verus!
