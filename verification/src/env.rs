//! The environment handed to the SDK tools and the emulator.
use vstd::prelude::*;
use crate::paths::{join, join_path, spec_avd_dir, spec_sdk_dir};
use crate::text::{chars_of, push_str, string_of};

verus! {

/// Environment variables: names mapped to values, each name once.
pub struct EnvVars {
    entries: Vec<(String, String)>,
    map: Ghost<Map<Seq<char>, Seq<char>>>,
}

impl View for EnvVars {
    type V = Map<Seq<char>, Seq<char>>;

    closed spec fn view(&self) -> Map<Seq<char>, Seq<char>> {
        self.map@
    }
}

/// The map that a list of `(name, value)` pairs gives when later pairs win.
pub open spec fn pairs_map(pairs: Seq<(Seq<char>, Seq<char>)>) -> Map<Seq<char>, Seq<char>>
    decreases pairs.len(),
{
    if pairs.len() == 0 {
        Map::empty()
    } else {
        pairs_map(pairs.drop_last()).insert(pairs.last().0, pairs.last().1)
    }
}

pub open spec fn string_pair_views(v: Seq<(String, String)>) -> Seq<(Seq<char>, Seq<char>)> {
    v.map_values(|p: (String, String)| (p.0@, p.1@))
}

impl EnvVars {
    /// Names unique, and entries and map agree.
    pub closed spec fn wf(&self) -> bool {
        &&& forall|i: int, j: int|
            0 <= i < j < self.entries@.len() ==> #[trigger] self.entries@[i].0@
                != #[trigger] self.entries@[j].0@
        &&& forall|i: int|
            0 <= i < self.entries@.len() ==> self.map@.contains_key(
                #[trigger] self.entries@[i].0@,
            ) && self.map@[self.entries@[i].0@] == self.entries@[i].1@
        &&& forall|k: Seq<char>|
            #[trigger] self.map@.contains_key(k) ==> exists|i: int|
                0 <= i < self.entries@.len() && #[trigger] self.entries@[i].0@ == k
    }

    pub fn new() -> (r: EnvVars)
        ensures
            r.wf(),
            r@ == Map::<Seq<char>, Seq<char>>::empty(),
    {
        EnvVars { entries: Vec::new(), map: Ghost(Map::empty()) }
    }

    fn index_of(&self, name: &String) -> (r: Option<usize>)
        requires
            self.wf(),
        ensures
            r matches Some(i) ==> i < self.entries@.len() && self.entries@[i as int].0@ == name@,
            r is None ==> !self@.contains_key(name@),
    {
        let mut i: usize = 0;
        while i < self.entries.len()
            invariant
                i <= self.entries@.len(),
                self.wf(),
                forall|j: int| 0 <= j < i ==> self.entries@[j].0@ != name@,
            decreases self.entries.len() - i,
        {
            if self.entries[i].0 == *name {
                return Some(i);
            }
            i += 1;
        }
        None
    }

    /// The value of a variable.
    pub fn get(&self, name: &String) -> (r: Option<String>)
        requires
            self.wf(),
        ensures
            r matches Some(v) ==> self@.contains_key(name@) && self@[name@] == v@,
            r is None ==> !self@.contains_key(name@),
    {
        match self.index_of(name) {
            Some(i) => Some(self.entries[i].1.clone()),
            None => None,
        }
    }

    /// Sets a variable, replacing any earlier value.
    pub fn set(&mut self, name: String, value: String)
        requires
            old(self).wf(),
        ensures
            final(self).wf(),
            final(self)@ == old(self)@.insert(name@, value@),
    {
        let ghost nv = name@;
        let ghost vv = value@;
        let ghost old_entries = self.entries@;
        let ghost old_map = self.map@;
        let idx = self.index_of(&name);
        let ghost j: int;
        match idx {
            Some(i) => {
                self.entries.set(i, (name, value));
                proof {
                    j = i as int;
                }
            },
            None => {
                self.entries.push((name, value));
                proof {
                    j = old_entries.len() as int;
                }
            },
        }
        self.map = Ghost(old_map.insert(nv, vv));
        assert(self.entries@[j].0@ == nv && self.entries@[j].1@ == vv);
        assert forall|k: int| 0 <= k < self.entries@.len() && k != j implies self.entries@[k]
            == old_entries[k] by {}
        assert forall|a: int, b: int|
            0 <= a < b < self.entries@.len() implies #[trigger] self.entries@[a].0@
            != #[trigger] self.entries@[b].0@ by {
            if a != j && b != j {
                assert(old_entries[a].0@ != old_entries[b].0@);
            } else if a == j {
                assert(old_map.contains_key(old_entries[b].0@));
            } else {
                assert(old_map.contains_key(old_entries[a].0@));
            }
        }
        assert forall|a: int| 0 <= a < self.entries@.len() implies self.map@.contains_key(
            #[trigger] self.entries@[a].0@,
        ) && self.map@[self.entries@[a].0@] == self.entries@[a].1@ by {
            if a != j {
                assert(old_map.contains_key(old_entries[a].0@));
            }
        }
        assert forall|k: Seq<char>| #[trigger] self.map@.contains_key(k) implies exists|i: int|
            0 <= i < self.entries@.len() && #[trigger] self.entries@[i].0@ == k by {
            if k == nv {
                assert(self.entries@[j].0@ == k);
            } else {
                assert(old_map.contains_key(k));
                let m = choose|m: int| 0 <= m < old_entries.len() && #[trigger] old_entries[m].0@ == k;
                assert(m != j);
                assert(self.entries@[m].0@ == k);
            }
        }
    }

    /// The variables of a list of `(name, value)` pairs, later pairs winning.
    pub fn from_pairs(pairs: Vec<(String, String)>) -> (r: EnvVars)
        ensures
            r.wf(),
            r@ == pairs_map(string_pair_views(pairs@)),
    {
        let ghost pv = string_pair_views(pairs@);
        let mut env = EnvVars::new();
        let mut i: usize = 0;
        while i < pairs.len()
            invariant
                i <= pairs.len(),
                pv == string_pair_views(pairs@),
                env.wf(),
                env@ == pairs_map(pv.take(i as int)),
            decreases pairs.len() - i,
        {
            assert(pv.take(i + 1).drop_last() =~= pv.take(i as int));
            let (k, v) = (pairs[i].0.clone(), pairs[i].1.clone());
            env.set(k, v);
            i += 1;
        }
        assert(pv.take(pv.len() as int) =~= pv);
        env
    }

    /// The variables as `(name, value)` pairs, each name once.
    pub fn to_pairs(&self) -> (r: Vec<(String, String)>)
        requires
            self.wf(),
        ensures
            forall|i: int|
                0 <= i < r@.len() ==> self@.contains_key(#[trigger] r@[i].0@) && self@[r@[i].0@]
                    == r@[i].1@,
            forall|k: Seq<char>|
                #[trigger] self@.contains_key(k) ==> exists|i: int|
                    0 <= i < r@.len() && #[trigger] r@[i].0@ == k,
            forall|i: int, j: int| 0 <= i < j < r@.len() ==> #[trigger] r@[i].0@ != #[trigger] r@[j].0@,
    {
        let mut out: Vec<(String, String)> = Vec::new();
        let mut i: usize = 0;
        while i < self.entries.len()
            invariant
                i <= self.entries@.len(),
                self.wf(),
                out@.len() == i,
                forall|k: int| 0 <= k < i ==> #[trigger] out@[k].0@ == self.entries@[k].0@ && out@[k].1@ == self.entries@[k].1@,
            decreases self.entries.len() - i,
        {
            out.push((self.entries[i].0.clone(), self.entries[i].1.clone()));
            i += 1;
        }
        assert forall|k: Seq<char>| #[trigger] self@.contains_key(k) implies exists|i: int|
            0 <= i < out@.len() && #[trigger] out@[i].0@ == k by {
            let m = choose|m: int| 0 <= m < self.entries@.len() && #[trigger] self.entries@[m].0@ == k;
            assert(out@[m].0@ == k);
        }
        assert forall|a: int, b: int| 0 <= a < b < out@.len() implies #[trigger] out@[a].0@ != #[trigger] out@[b].0@ by {
            assert(self.entries@[a].0@ != self.entries@[b].0@);
        }
        out
    }
}

/// The separator of the `PATH` variable (`;` on Windows, `:` elsewhere).
pub open spec fn path_list_separator(windows: bool) -> Seq<char> {
    if windows {
        ";"@
    } else {
        ":"@
    }
}

/// The environment of the SDK tools: the inherited variables; with a portable JDK,
/// `JAVA_HOME` set to it and its `bin` put first on `PATH`; the SDK root and AVD home
/// (twice) set for the base folder; the emulator's audio timer and buffer set.
pub open spec fn tool_env(
    vars: Map<Seq<char>, Seq<char>>,
    java_home: Option<Seq<char>>,
    sdk_base: Seq<char>,
    windows: bool,
) -> Map<Seq<char>, Seq<char>> {
    let with_java = match java_home {
        Some(jh) => {
            let old_path = if vars.contains_key("PATH"@) {
                vars["PATH"@]
            } else {
                seq![]
            };
            vars.insert("JAVA_HOME"@, jh).insert(
                "PATH"@,
                join_path(jh, "bin"@, windows) + path_list_separator(windows) + old_path,
            )
        },
        None => vars,
    };
    with_java.insert("ANDROID_SDK_ROOT"@, spec_sdk_dir(sdk_base, windows)).insert(
        "ANDROID_AVD_HOME"@,
        spec_avd_dir(sdk_base, windows),
    ).insert("ANDROID_EMULATOR_HOME"@, spec_avd_dir(sdk_base, windows)).insert(
        "QEMU_AUDIO_TIMER_PERIOD"@,
        "0"@,
    ).insert("QEMU_WASAPI_BUF_SIZE"@, "512"@)
}

/// The environment of the SDK tools, from the inherited variables.
pub fn build_env(vars: EnvVars, java_home: Option<&str>, sdk_base: &str, windows: bool) -> (r:
    EnvVars)
    requires
        vars.wf(),
    ensures
        r.wf(),
        r@ == tool_env(
            vars@,
            match java_home {
                Some(j) => Some(j@),
                None => None,
            },
            sdk_base@,
            windows,
        ),
{
    let mut env = vars;
    let ghost v0 = env@;
    proof {
        reveal_strlit("JAVA_HOME");
        reveal_strlit("PATH");
        assert("JAVA_HOME"@.len() != "PATH"@.len());
    }
    match java_home {
        Some(jh) => {
            env.set(String::from_str("JAVA_HOME"), String::from_str(jh));
            assert(env@.contains_key("PATH"@) == v0.contains_key("PATH"@));
            assert(v0.contains_key("PATH"@) ==> env@["PATH"@] == v0["PATH"@]);
            let bin = join(jh, "bin", windows);
            let old_path = match env.get(&String::from_str("PATH")) {
                Some(p) => p,
                None => String::new(),
            };
            let mut p = chars_of(bin.as_str());
            push_str(
                &mut p,
                if windows {
                    ";"
                } else {
                    ":"
                },
            );
            push_str(&mut p, old_path.as_str());
            env.set(String::from_str("PATH"), string_of(&p));
        },
        None => {},
    }
    env.set(String::from_str("ANDROID_SDK_ROOT"), crate::paths::sdk_dir(sdk_base, windows));
    env.set(String::from_str("ANDROID_AVD_HOME"), crate::paths::avd_dir(sdk_base, windows));
    env.set(String::from_str("ANDROID_EMULATOR_HOME"), crate::paths::avd_dir(sdk_base, windows));
    env.set(String::from_str("QEMU_AUDIO_TIMER_PERIOD"), String::from_str("0"));
    env.set(String::from_str("QEMU_WASAPI_BUF_SIZE"), String::from_str("512"));
    assert(env@ =~= tool_env(
        v0,
        match java_home {
            Some(j) => Some(j@),
            None => None,
        },
        sdk_base@,
        windows,
    ));
    env
}

} // verus!
