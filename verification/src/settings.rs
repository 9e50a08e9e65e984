//! What the environment can set, and the size of the worker pool.
//!
//! Parsing is strict: an unset variable takes the default, and anything that
//! does not parse is an error rather than a silent fallback.

use crate::growth::max_usize;
use crate::text::{chars, debug_quoted, joined, parse, parsed, quote, same};
use vstd::prelude::*;
use vstd::string::*;

verus! {

/// Participants of the staging-copy pool when nothing is set.
pub const DEFAULT_STAGING_COPY_THREADS: usize = 8;

/// Why a thread count was refused.
#[derive(Clone, Copy, PartialEq, Eq, Structural, Debug)]
pub enum CountError {
    NotANumber,
    Zero,
}

/// A thread count, in words: a number, and not zero.
pub open spec fn count_of(s: Seq<char>) -> Result<nat, CountError> {
    match parsed(s, 10, usize::MAX as nat) {
        None => Err(CountError::NotANumber),
        Some(n) => if n == 0 {
            Err(CountError::Zero)
        } else {
            Ok(n)
        },
    }
}

fn read_count(s: &str) -> (r: Result<usize, CountError>)
    ensures
        match (r, count_of(s@)) {
            (Ok(a), Ok(b)) => a == b,
            (Err(a), Err(b)) => a == b,
            _ => false,
        },
{
    match parse(&chars(s), 10, usize::MAX as u64) {
        None => Err(CountError::NotANumber),
        Some(n) => if n == 0 {
            Err(CountError::Zero)
        } else {
            Ok(n as usize)
        },
    }
}

/// Participants of the staging-copy pool: what is set, or the default when it
/// is unset or empty.
pub fn staging_copy_threads(value: Option<&str>) -> (r: Result<usize, CountError>)
    ensures
        value is None || value->0@.len() == 0 ==> r == Ok::<usize, CountError>(8),
        value is Some && value->0@.len() > 0 ==> match (r, count_of(value->0@)) {
            (Ok(a), Ok(b)) => a == b,
            (Err(a), Err(b)) => a == b,
            _ => false,
        },
{
    match value {
        Some(s) => if s.is_empty() {
            Ok(DEFAULT_STAGING_COPY_THREADS)
        } else {
            read_count(s)
        },
        None => Ok(DEFAULT_STAGING_COPY_THREADS),
    }
}

/// The memory node that the staging buffers are bound to: none when unset or
/// empty, an error when it is not a number.
pub fn staging_numa_node(value: Option<&str>) -> (r: Result<Option<u32>, CountError>)
    ensures
        value is None || value->0@.len() == 0 ==> r == Ok::<Option<u32>, CountError>(None),
        value is Some && value->0@.len() > 0 ==> match parsed(value->0@, 10, u32::MAX as nat) {
            Some(n) => r == Ok::<Option<u32>, CountError>(Some(n as u32)),
            None => r == Err::<Option<u32>, CountError>(CountError::NotANumber),
        },
{
    match value {
        Some(s) => if s.is_empty() {
            Ok(None)
        } else {
            match parse(&chars(s), 10, u32::MAX as u64) {
                Some(n) => Ok(Some(n as u32)),
                None => Err(CountError::NotANumber),
            }
        },
        None => Ok(None),
    }
}

/// Whether workers are left unpinned. The message says what was set instead.
pub fn no_pin(value: Option<&str>) -> (r: Result<bool, String>)
    ensures
        match value {
            None => r == Ok::<bool, String>(false),
            Some(v) => if v@ == "1"@ || v@ == "true"@ {
                r == Ok::<bool, String>(true)
            } else if v@ == "0"@ || v@ == "false"@ {
                r == Ok::<bool, String>(false)
            } else {
                r is Err && r->Err_0@ == "ENGINE_NO_PIN must be 0/1/true/false, got "@
                    + debug_quoted(v@)
            },
        },
{
    match value {
        None => Ok(false),
        Some(v) => if same(v, "1") || same(v, "true") {
            Ok(true)
        } else if same(v, "0") || same(v, "false") {
            Ok(false)
        } else {
            Err(
                joined(
                    "ENGINE_NO_PIN must be 0/1/true/false, got ".to_owned(),
                    quote(v).as_str(),
                ),
            )
        },
    }
}

/// The processors of `cpus` that are available, in order.
pub open spec fn allowed(cpus: Seq<usize>, available: Seq<usize>) -> Seq<usize>
    decreases cpus.len(),
{
    if cpus.len() == 0 {
        Seq::empty()
    } else if available.contains(cpus.last()) {
        allowed(cpus.drop_last(), available).push(cpus.last())
    } else {
        allowed(cpus.drop_last(), available)
    }
}

/// The available processors of every node, in order, without the nodes that
/// have none.
pub open spec fn topology(nodes: Seq<Vec<usize>>, available: Seq<usize>) -> Seq<Seq<usize>>
    decreases nodes.len(),
{
    if nodes.len() == 0 {
        Seq::empty()
    } else {
        let before = topology(nodes.drop_last(), available);
        let cpus = allowed(nodes.last()@, available);
        if cpus.len() > 0 {
            before.push(cpus)
        } else {
            before
        }
    }
}

/// The views of a list of nodes.
pub open spec fn node_views(v: Seq<Vec<usize>>) -> Seq<Seq<usize>> {
    Seq::new(v.len(), |i: int| v[i]@)
}

fn is_available(cpu: usize, available: &Vec<usize>) -> (r: bool)
    ensures
        r == available@.contains(cpu),
{
    let mut i: usize = 0;
    while i < available.len()
        invariant
            i <= available.len(),
            forall|k: int| 0 <= k < i ==> available[k] != cpu,
        decreases available.len() - i,
    {
        if available[i] == cpu {
            return true;
        }
        i = i + 1;
    }
    false
}

fn filter_node(cpus: &Vec<usize>, available: &Vec<usize>) -> (r: Vec<usize>)
    ensures
        r@ == allowed(cpus@, available@),
{
    let mut r: Vec<usize> = Vec::new();
    let mut i: usize = 0;
    while i < cpus.len()
        invariant
            i <= cpus.len(),
            r@ == allowed(cpus@.take(i as int), available@),
        decreases cpus.len() - i,
    {
        assert(cpus@.take(i + 1).drop_last() =~= cpus@.take(i as int));
        if is_available(cpus[i], available) {
            r.push(cpus[i]);
        }
        i = i + 1;
    }
    assert(cpus@.take(i as int) =~= cpus@);
    r
}

/// The machine's nodes as far as this process may run on them, so that nothing
/// is ever pinned to a processor outside its set.
pub fn filter_topology(nodes: &Vec<Vec<usize>>, available: &Vec<usize>) -> (r: Vec<Vec<usize>>)
    ensures
        node_views(r@) == topology(nodes@, available@),
{
    let mut r: Vec<Vec<usize>> = Vec::new();
    let mut i: usize = 0;
    assert(node_views(r@) =~= Seq::empty());
    while i < nodes.len()
        invariant
            i <= nodes.len(),
            node_views(r@) == topology(nodes@.take(i as int), available@),
        decreases nodes.len() - i,
    {
        assert(nodes@.take(i + 1).drop_last() =~= nodes@.take(i as int));
        let cpus: Vec<usize> = filter_node(&nodes[i], available);
        if cpus.len() > 0 {
            let ghost before = node_views(r@);
            r.push(cpus);
            assert(node_views(r@) =~= before.push(cpus@));
        }
        i = i + 1;
    }
    assert(nodes@.take(i as int) =~= nodes@);
    r
}

/// The processors of the first `n` nodes.
pub open spec fn cpu_count(nodes: Seq<Vec<usize>>, n: nat) -> nat
    decreases n,
{
    if n == 0 {
        0
    } else {
        cpu_count(nodes, (n - 1) as nat) + nodes[n - 1]@.len()
    }
}

/// What the pool is sized by: the engine's own variable, or the one that older
/// scripts set.
pub open spec fn pool_setting<'a>(own: Option<&'a str>, alias: Option<&'a str>) -> Option<&'a str> {
    match own {
        Some(s) => Some(s),
        None => alias,
    }
}

/// How many workers the pool gets, beside the main thread. The participants
/// are as many as the setting says, and without a setting as many as there are
/// processors; one of them is the main thread. At least one worker either way.
pub fn worker_count(
    own: Option<&str>,
    alias: Option<&str>,
    nodes: &Vec<Vec<usize>>,
) -> (r: Result<usize, CountError>)
    requires
        cpu_count(nodes@, nodes.len() as nat) <= usize::MAX,
    ensures
        match pool_setting(own, alias) {
            None => r == Ok::<usize, CountError>(
                if cpu_count(nodes@, nodes.len() as nat) >= 2 {
                    (cpu_count(nodes@, nodes.len() as nat) - 1) as usize
                } else {
                    1
                },
            ),
            Some(s) => match count_of(s@) {
                Err(e) => r == Err::<usize, CountError>(e),
                Ok(total) => r == Ok::<usize, CountError>(
                    if total >= 2 {
                        (total - 1) as usize
                    } else {
                        1
                    },
                ),
            },
        },
{
    let setting: Option<&str> = match own {
        Some(s) => Some(s),
        None => alias,
    };
    match setting {
        Some(s) => match read_count(s) {
            Ok(total) => Ok(max_usize(total - 1, 1)),
            Err(e) => Err(e),
        },
        None => {
            let mut sum: usize = 0;
            let mut i: usize = 0;
            while i < nodes.len()
                invariant
                    i <= nodes.len(),
                    sum == cpu_count(nodes@, i as nat),
                    cpu_count(nodes@, nodes.len() as nat) <= usize::MAX,
                decreases nodes.len() - i,
            {
                proof {
                    lemma_cpu_count(nodes@, (i + 1) as nat, nodes.len() as nat);
                }
                sum = sum + nodes[i].len();
                i = i + 1;
            }
            Ok(if sum >= 2 { sum - 1 } else { 1 })
        },
    }
}

proof fn lemma_cpu_count(nodes: Seq<Vec<usize>>, j: nat, n: nat)
    requires
        j <= n,
    ensures
        cpu_count(nodes, j) <= cpu_count(nodes, n),
    decreases n - j,
{
    if j < n {
        lemma_cpu_count(nodes, j, (n - 1) as nat);
    }
}

/// Filtering keeps available processors only, and no node without any.
pub proof fn filtered_nodes_are_usable(cpus: Seq<usize>, available: Seq<usize>)
    ensures
        forall|i: int|
            0 <= i < allowed(cpus, available).len() ==> available.contains(
                #[trigger] allowed(cpus, available)[i],
            ),
        allowed(cpus, available).len() <= cpus.len(),
    decreases cpus.len(),
{
    if cpus.len() > 0 {
        filtered_nodes_are_usable(cpus.drop_last(), available);
        let before = allowed(cpus.drop_last(), available);
        assert forall|i: int| 0 <= i < allowed(cpus, available).len() implies available.contains(
            #[trigger] allowed(cpus, available)[i],
        ) by {
            if i < before.len() {
                assert(allowed(cpus, available)[i] == before[i]);
            }
        }
    }
}

/// A count is a number that is not zero, and each refusal says which it was.
pub proof fn counts_are_positive_numbers(s: Seq<char>)
    ensures
        ({
            let n = parsed(s, 10, usize::MAX as nat);
            &&& n is None ==> count_of(s) == Err::<nat, CountError>(CountError::NotANumber)
            &&& n == Some(0nat) ==> count_of(s) == Err::<nat, CountError>(CountError::Zero)
            &&& n is Some && n->0 > 0 ==> count_of(s) == Ok::<nat, CountError>(n->0)
        }),
{
}

/// Filtering keeps a processor exactly if it is available, and keeps the order.
pub proof fn available_processors_are_kept(a: Seq<usize>, b: Seq<usize>, cpu: usize, available: Seq<
    usize,
>)
    ensures
        allowed(a + b, available) == allowed(a, available) + allowed(b, available),
        available.contains(cpu) ==> allowed(seq![cpu], available) == seq![cpu],
        !available.contains(cpu) ==> allowed(seq![cpu], available).len() == 0,
        allowed(Seq::<usize>::empty(), available).len() == 0,
    decreases b.len(),
{
    let none = Seq::<usize>::empty();
    assert(seq![cpu].drop_last() =~= none);
    assert(none.push(cpu) =~= seq![cpu]);
    assert(allowed(none, available) =~= none);
    assert(seq![cpu].last() == cpu);
    if b.len() == 0 {
        assert(a + b =~= a);
        assert(b =~= none);
        assert(allowed(a, available) + none =~= allowed(a, available));
    } else {
        available_processors_are_kept(a, b.drop_last(), cpu, available);
        assert((a + b).drop_last() =~= a + b.drop_last());
        assert((a + b).last() == b.last());
        assert(allowed(a + b, available) =~= allowed(a, available) + allowed(b, available));
    }
}

/// A node is kept, with what it has available, exactly if that is anything;
/// the nodes keep their order.
pub proof fn usable_nodes_are_kept(nodes: Seq<Vec<usize>>, node: Vec<usize>, available: Seq<usize>)
    ensures
        topology(Seq::<Vec<usize>>::empty(), available).len() == 0,
        allowed(node@, available).len() > 0 ==> topology(nodes.push(node), available) == topology(
            nodes,
            available,
        ).push(allowed(node@, available)),
        allowed(node@, available).len() == 0 ==> topology(nodes.push(node), available) == topology(
            nodes,
            available,
        ),
        cpu_count(nodes.push(node), nodes.len() + 1) == cpu_count(nodes, nodes.len()) + node@.len(),
        cpu_count(nodes, 0) == 0,
{
    assert(nodes.push(node).drop_last() =~= nodes);
    lemma_same_count(nodes, nodes.push(node), nodes.len());
}

proof fn lemma_same_count(a: Seq<Vec<usize>>, b: Seq<Vec<usize>>, n: nat)
    requires
        n <= a.len(),
        n <= b.len(),
        forall|i: int| 0 <= i < n ==> a[i] == b[i],
    ensures
        cpu_count(a, n) == cpu_count(b, n),
    decreases n,
{
    if n > 0 {
        lemma_same_count(a, b, (n - 1) as nat);
    }
}

/// The engine's own variable is the one that counts where both are set.
pub proof fn the_own_setting_counts<'a>(own: Option<&'a str>, alias: Option<&'a str>)
    ensures
        own is Some ==> pool_setting(own, alias) == own,
        own is None ==> pool_setting(own, alias) == alias,
{
}

} // verus!
