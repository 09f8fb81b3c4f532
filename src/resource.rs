use vstd::prelude::*;

verus! {

/// The capacity that `cfg` advertises under `name`, if any.
pub open spec fn capacity(cfg: Seq<(String, usize)>, name: Seq<char>) -> Option<usize> {
    if exists|i: int| 0 <= i < cfg.len() && (#[trigger] cfg[i]).0@ == name {
        Some(cfg[choose|i: int| 0 <= i < cfg.len() && (#[trigger] cfg[i]).0@ == name].1)
    } else {
        None
    }
}

/// No resource name is advertised twice.
pub open spec fn names_unique(cfg: Seq<(String, usize)>) -> bool {
    forall|i: int, j: int|
        0 <= i < cfg.len() && 0 <= j < cfg.len() && (#[trigger] cfg[i]).0@ == (#[trigger] cfg[j]).0@
            ==> i == j
}

/// With unique names, the capacity of a name is the one beside it.
pub proof fn lemma_capacity_at(cfg: Seq<(String, usize)>, i: int)
    requires
        names_unique(cfg),
        0 <= i < cfg.len(),
    ensures
        capacity(cfg, cfg[i].0@) == Some(cfg[i].1),
{
    let name = cfg[i].0@;
    assert(cfg[i].0@ == name);
    let j = choose|j: int| 0 <= j < cfg.len() && (#[trigger] cfg[j]).0@ == name;
    assert(cfg[j].0@ == cfg[i].0@);
}

/// The named, numeric capacities that a node advertises, each name once.
pub struct ResourceConfig {
    entries: Vec<(String, usize)>,
}

impl View for ResourceConfig {
    type V = Seq<(String, usize)>;

    closed spec fn view(&self) -> Seq<(String, usize)> {
        self.entries@
    }
}

impl ResourceConfig {
    /// The names are unique.
    pub closed spec fn wf(&self) -> bool {
        names_unique(self.entries@)
    }

    /// A configuration that advertises nothing.
    pub fn new() -> (r: Self)
        ensures
            r.wf(),
            forall|name: Seq<char>| capacity(r@, name) is None,
    {
        ResourceConfig { entries: Vec::new() }
    }

    /// Where `name` stands in the configuration, if it does.
    fn position(&self, name: &String) -> (r: Option<usize>)
        requires
            self.wf(),
        ensures
            match r {
                Some(i) => i < self@.len() && self@[i as int].0@ == name@,
                None => forall|i: int| 0 <= i < self@.len() ==> (#[trigger] self@[i]).0@ != name@,
            },
    {
        let mut i: usize = 0;
        while i < self.entries.len()
            invariant
                i <= self.entries@.len(),
                forall|j: int| 0 <= j < i ==> (#[trigger] self.entries@[j]).0@ != name@,
            decreases self.entries@.len() - i,
        {
            if self.entries[i].0 == *name {
                return Some(i);
            }
            i = i + 1;
        }
        None
    }

    /// The capacity advertised under `name`.
    pub fn get(&self, name: &String) -> (r: Option<usize>)
        requires
            self.wf(),
        ensures
            r == capacity(self@, name@),
    {
        match self.position(name) {
            Some(i) => {
                proof {
                    lemma_capacity_at(self@, i as int);
                }
                Some(self.entries[i].1)
            },
            None => None,
        }
    }

    /// Advertises `amount` under `name`, in place of what was there.
    pub fn insert(&mut self, name: String, amount: usize)
        requires
            old(self).wf(),
        ensures
            final(self).wf(),
            capacity(final(self)@, name@) == Some(amount),
            forall|other: Seq<char>|
                other != name@ ==> capacity(final(self)@, other) == capacity(old(self)@, other),
    {
        let ghost old_cfg = self@;
        match self.position(&name) {
            Some(i) => {
                let ghost key = name@;
                self.entries.set(i, (name, amount));
                assert(names_unique(self@)) by {
                    assert forall|a: int, b: int|
                        0 <= a < self@.len() && 0 <= b < self@.len() && (#[trigger] self@[a]).0@
                            == (#[trigger] self@[b]).0@ implies a == b by {
                        assert(old_cfg[a].0@ == self@[a].0@);
                        assert(old_cfg[b].0@ == self@[b].0@);
                    }
                }
                proof {
                    lemma_capacity_at(self@, i as int);
                    assert forall|other: Seq<char>| other != key implies capacity(self@, other)
                        == capacity(old_cfg, other) by {
                        assert forall|j: int| 0 <= j < self@.len() implies ((#[trigger] self@[j]).0@
                            == other) == (old_cfg[j].0@ == other) by {}
                        if exists|j: int| 0 <= j < self@.len() && (#[trigger] self@[j]).0@ == other {
                            let j = choose|j: int|
                                0 <= j < self@.len() && (#[trigger] self@[j]).0@ == other;
                            assert(j != i);
                            assert(self@[j] == old_cfg[j]);
                            lemma_capacity_at(self@, j);
                            lemma_capacity_at(old_cfg, j);
                        } else {
                            assert forall|j: int| 0 <= j < old_cfg.len() implies (
                            #[trigger] old_cfg[j]).0@ != other by {
                                assert(self@[j].0@ != other);
                            }
                        }
                    }
                }
            },
            None => {
                let ghost key = name@;
                self.entries.push((name, amount));
                let ghost n = old_cfg.len() as int;
                assert(names_unique(self@)) by {
                    assert forall|a: int, b: int|
                        0 <= a < self@.len() && 0 <= b < self@.len() && (#[trigger] self@[a]).0@
                            == (#[trigger] self@[b]).0@ implies a == b by {
                        if a < n {
                            assert(old_cfg[a] == self@[a]);
                        }
                        if b < n {
                            assert(old_cfg[b] == self@[b]);
                        }
                    }
                }
                proof {
                    lemma_capacity_at(self@, n);
                    assert forall|other: Seq<char>| other != key implies capacity(self@, other)
                        == capacity(old_cfg, other) by {
                        if exists|j: int| 0 <= j < old_cfg.len() && (#[trigger] old_cfg[j]).0@
                            == other {
                            let j = choose|j: int|
                                0 <= j < old_cfg.len() && (#[trigger] old_cfg[j]).0@ == other;
                            assert(self@[j] == old_cfg[j]);
                            lemma_capacity_at(self@, j);
                            lemma_capacity_at(old_cfg, j);
                        } else {
                            assert forall|j: int| 0 <= j < self@.len() implies (
                            #[trigger] self@[j]).0@ != other by {
                                if j < n {
                                    assert(self@[j] == old_cfg[j]);
                                }
                            }
                        }
                    }
                }
            },
        }
    }
}

/// A node's resource manager, built from the capacities the node advertises.
pub trait Resources: Sized {
    fn from_config(config: &ResourceConfig) -> Self
        requires
            config.wf(),
    ;
}

/// A node without resource management: it admits every call.
impl Resources for () {
    fn from_config(config: &ResourceConfig) -> Self {
    }
}

/// A resource manager that only names a resource, for calls that declare it.
pub struct DummyResources;

impl Resources for DummyResources {
    fn from_config(config: &ResourceConfig) -> Self {
        DummyResources
    }
}

impl DummyResources {
    /// Claims `N` units of the `dummy` resource; there is nothing to hand out.
    pub fn dummy<const N: usize>(&self) {
    }
}

/// The name under which a node advertises its CPU worker threads.
pub open spec fn cpus_name() -> Seq<char> {
    seq!['c', 'p', 'u', 's']
}

/// How many CPU worker threads the configuration asks for: its `cpus`
/// capacity, or none.
pub fn cpu_count(config: &ResourceConfig) -> (r: usize)
    requires
        config.wf(),
    ensures
        r == (match capacity(config@, cpus_name()) {
            Some(c) => c,
            None => 0,
        }),
{
    let name = "cpus".to_owned();
    proof {
        reveal_strlit("cpus");
        assert(name@ =~= cpus_name());
    }
    match config.get(&name) {
        Some(c) => c,
        None => 0,
    }
}

} // verus!
