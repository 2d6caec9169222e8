//! What the execution of a transaction uses up.
use vstd::prelude::*;
use crate::syscall_info::same_string;

verus! {

/// The resources that Cairo runs have used.
#[derive(Debug, PartialEq, Eq)]
pub struct ExecutionResources {
    pub n_steps: usize,
    pub n_memory_holes: usize,
    /// How many instances of each builtin were used.
    pub builtin_instance_counter: Vec<(String, usize)>,
}

impl ExecutionResources {
    /// Whether nothing was used.
    pub open spec fn is_blank(self) -> bool {
        &&& self.n_steps == 0
        &&& self.n_memory_holes == 0
        &&& self.builtin_instance_counter@.len() == 0
    }
}

impl Default for ExecutionResources {
    fn default() -> (r: Self)
        ensures
            r.is_blank(),
    {
        ExecutionResources {
            n_steps: 0,
            n_memory_holes: 0,
            builtin_instance_counter: Vec::new(),
        }
    }
}

/// How often one syscall was made.
#[derive(Debug, PartialEq, Eq)]
pub struct SyscallCount {
    name: String,
    count: u64,
}

/// The counts by name. Of two entries of one name the first counts.
spec fn counts(entries: Seq<SyscallCount>) -> Map<Seq<char>, u64>
    decreases entries.len(),
{
    if entries.len() == 0 {
        Map::empty()
    } else {
        let before = counts(entries.drop_last());
        let entry = entries.last();
        if before.contains_key(entry.name@) {
            before
        } else {
            before.insert(entry.name@, entry.count)
        }
    }
}

/// A name is counted exactly if an entry has it.
proof fn lemma_counts_domain(entries: Seq<SyscallCount>, name: Seq<char>)
    ensures
        counts(entries).contains_key(name) <==> exists|i: int|
            0 <= i < entries.len() && #[trigger] entries[i].name@ == name,
    decreases entries.len(),
{
    if entries.len() > 0 {
        lemma_counts_domain(entries.drop_last(), name);
        let n = entries.len() - 1;
        assert(entries.last() == entries[n]);
        if counts(entries).contains_key(name) {
            if entries.last().name@ == name {
                assert(entries[n].name@ == name);
            } else {
                let i = choose|i: int|
                    0 <= i < entries.drop_last().len() && #[trigger] entries.drop_last()[i].name@
                        == name;
                assert(entries[i].name@ == name);
            }
        }
        if exists|i: int| 0 <= i < entries.len() && #[trigger] entries[i].name@ == name {
            let i = choose|i: int| 0 <= i < entries.len() && #[trigger] entries[i].name@ == name;
            if i < n {
                assert(entries.drop_last()[i].name@ == name);
            }
        }
    }
}

/// The first entry of a name gives its count, and to change that entry changes that count.
proof fn lemma_counts_update(entries: Seq<SyscallCount>, at: int, count: u64)
    requires
        0 <= at < entries.len(),
        forall|j: int| 0 <= j < at ==> #[trigger] entries[j].name@ != entries[at].name@,
    ensures
        counts(entries).contains_key(entries[at].name@),
        counts(entries)[entries[at].name@] == entries[at].count,
        counts(entries.update(at, SyscallCount { name: entries[at].name, count })) == counts(
            entries,
        ).insert(entries[at].name@, count),
    decreases entries.len(),
{
    let name = entries[at].name@;
    let changed = entries.update(at, SyscallCount { name: entries[at].name, count });
    if at == entries.len() - 1 {
        assert(changed.drop_last() =~= entries.drop_last());
        lemma_counts_domain(entries.drop_last(), name);
        assert(!counts(entries.drop_last()).contains_key(name)) by {
            if counts(entries.drop_last()).contains_key(name) {
                let i = choose|i: int|
                    0 <= i < entries.drop_last().len() && #[trigger] entries.drop_last()[i].name@
                        == name;
                assert(entries[i].name@ == name);
            }
        }
        assert(counts(changed) =~= counts(entries).insert(name, count));
    } else {
        assert forall|j: int| 0 <= j < at implies #[trigger] entries.drop_last()[j].name@
            != entries.drop_last()[at].name@ by {
            assert(entries[j].name@ != entries[at].name@);
        }
        lemma_counts_update(entries.drop_last(), at, count);
        assert(changed.drop_last() =~= entries.drop_last().update(
            at,
            SyscallCount { name: entries[at].name, count },
        ));
        assert(changed.last() == entries.last());
        assert(counts(changed) =~= counts(entries).insert(name, count));
    }
}

/// Counts the syscalls and adds up the resources of a transaction.
#[derive(Debug, PartialEq, Eq)]
pub struct ExecutionResourcesManager {
    syscall_counter: Vec<SyscallCount>,
    pub(crate) cairo_usage: ExecutionResources,
}

impl ExecutionResourcesManager {
    /// How often each syscall was made, for every syscall that is counted.
    pub closed spec fn syscall_counts(self) -> Map<Seq<char>, u64> {
        counts(self.syscall_counter@)
    }

    /// How often the syscall was made.
    pub open spec fn times(self, name: Seq<char>) -> u64 {
        if self.syscall_counts().contains_key(name) {
            self.syscall_counts()[name]
        } else {
            0
        }
    }

    /// The resources that Cairo runs have used.
    pub closed spec fn usage(self) -> ExecutionResources {
        self.cairo_usage
    }

    /// Starts to count the given syscalls, each from zero.
    pub fn new(syscalls: Vec<String>, cairo_usage: ExecutionResources) -> (r: Self)
        ensures
            r.usage() == cairo_usage,
            forall|name: Seq<char>| #[trigger]
                r.syscall_counts().contains_key(name) <==> exists|i: int|
                    0 <= i < syscalls@.len() && #[trigger] syscalls@[i]@ == name,
            forall|name: Seq<char>| #[trigger]
                r.syscall_counts().contains_key(name) ==> r.syscall_counts()[name] == 0,
    {
        let mut syscall_counter: Vec<SyscallCount> = Vec::new();
        for k in 0..syscalls.len()
            invariant
                syscall_counter@.len() == k,
                forall|i: int| 0 <= i < k ==> (#[trigger] syscall_counter@[i]).name@ == syscalls@[i]@,
                forall|name: Seq<char>| #[trigger]
                    counts(syscall_counter@).contains_key(name) ==> counts(syscall_counter@)[name]
                        == 0,
        {
            let ghost before = syscall_counter@;
            let entry = SyscallCount { name: syscalls[k].clone(), count: 0 };
            syscall_counter.push(entry);
            assert(syscall_counter@.drop_last() =~= before);
            assert(syscall_counter@.last() == entry);
            assert forall|name: Seq<char>| #[trigger]
                counts(syscall_counter@).contains_key(name) implies counts(syscall_counter@)[name]
                == 0 by {
                assert(counts(before).contains_key(name) || name == entry.name@);
            }
        }
        assert forall|name: Seq<char>| #[trigger]
            counts(syscall_counter@).contains_key(name) <==> exists|i: int|
                0 <= i < syscalls@.len() && #[trigger] syscalls@[i]@ == name by {
            lemma_counts_domain(syscall_counter@, name);
            if counts(syscall_counter@).contains_key(name) {
                let i = choose|i: int|
                    0 <= i < syscall_counter@.len() && #[trigger] syscall_counter@[i].name@ == name;
                assert(syscalls@[i]@ == name);
            }
            if exists|i: int| 0 <= i < syscalls@.len() && #[trigger] syscalls@[i]@ == name {
                let i = choose|i: int| 0 <= i < syscalls@.len() && #[trigger] syscalls@[i]@ == name;
                assert(syscall_counter@[i].name@ == name);
            }
        }
        ExecutionResourcesManager { syscall_counter, cairo_usage }
    }

    /// Adds to the count of a syscall. A syscall that was not counted so far was made no times.
    pub fn increment_syscall_counter(&mut self, syscall_name: &str, amount: u64)
        requires
            old(self).times(syscall_name@) + amount <= u64::MAX,
        ensures
            final(self).usage() == old(self).usage(),
            final(self).syscall_counts() == old(self).syscall_counts().insert(
                syscall_name@,
                (old(self).times(syscall_name@) + amount) as u64,
            ),
    {
        let ghost entries = self.syscall_counter@;
        let mut at: usize = 0;
        while at < self.syscall_counter.len()
            invariant
                at <= entries.len(),
                entries == self.syscall_counter@,
                *self == *old(self),
                forall|j: int| 0 <= j < at ==> #[trigger] entries[j].name@ != syscall_name@,
                old(self).times(syscall_name@) + amount <= u64::MAX,
            decreases entries.len() - at,
        {
            if same_string(self.syscall_counter[at].name.as_str(), syscall_name) {
                proof {
                    lemma_counts_update(
                        entries,
                        at as int,
                        (entries[at as int].count + amount) as u64,
                    );
                }
                let count: u64 = self.syscall_counter[at].count + amount;
                let name = self.syscall_counter[at].name.clone();
                self.syscall_counter.set(at, SyscallCount { name, count });
                proof {
                    let kept = entries.update(
                        at as int,
                        SyscallCount { name: entries[at as int].name, count },
                    );
                    lemma_same_counts(self.syscall_counter@, kept);
                }
                return ;
            }
            at = at + 1;
        }
        proof {
            lemma_counts_domain(entries, syscall_name@);
        }
        let entry = SyscallCount { name: syscall_name.to_owned(), count: amount };
        self.syscall_counter.push(entry);
        assert(self.syscall_counter@.drop_last() =~= entries);
        assert(self.syscall_counter@.last() == entry);
    }

    /// How often the syscall was made.
    pub fn get_syscall_counter(&self, syscall_name: &str) -> (r: u64)
        ensures
            r == self.times(syscall_name@),
    {
        for at in 0..self.syscall_counter.len()
            invariant
                forall|j: int|
                    0 <= j < at ==> #[trigger] self.syscall_counter@[j].name@ != syscall_name@,
        {
            if same_string(self.syscall_counter[at].name.as_str(), syscall_name) {
                proof {
                    lemma_counts_update(self.syscall_counter@, at as int, 0);
                }
                return self.syscall_counter[at].count;
            }
        }
        proof {
            lemma_counts_domain(self.syscall_counter@, syscall_name@);
        }
        0
    }
}

/// Entries of equal names and counts give equal counts.
proof fn lemma_same_counts(a: Seq<SyscallCount>, b: Seq<SyscallCount>)
    requires
        a.len() == b.len(),
        forall|i: int|
            0 <= i < a.len() ==> (#[trigger] a[i]).name@ == b[i].name@ && a[i].count == b[i].count,
    ensures
        counts(a) == counts(b),
    decreases a.len(),
{
    if a.len() > 0 {
        let n = a.len() - 1;
        assert(a.last() == a[n] && b.last() == b[n]);
        assert forall|i: int| 0 <= i < n implies (#[trigger] a.drop_last()[i]).name@
            == b.drop_last()[i].name@ && a.drop_last()[i].count == b.drop_last()[i].count by {
            assert(a.drop_last()[i] == a[i]);
        }
        lemma_same_counts(a.drop_last(), b.drop_last());
    }
}

} // verus!
