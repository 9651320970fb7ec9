//! Declarative analysis programs: a named set of analyzer definitions with
//! dependencies, validated at load time. A program is accepted exactly when
//! its logical names are unique, every implementation tag resolves, every
//! dependency names another analyzer of the same program, and the dependency
//! graph is acyclic.

use vstd::prelude::*;
use vstd::set_lib::{lemma_int_range, set_int_range};

use crate::error::Error;

verus! {

/// An opaque configuration value passed to an analyzer's constructor. The
/// shape mirrors the data model of the declarative program files.
#[derive(Debug)]
pub enum ConfigValue {
    Integer(i64),
    Text(String),
    Boolean(bool),
    Array(Vec<ConfigValue>),
    Table(Vec<(String, ConfigValue)>),
}

/// The value under the first table entry whose key reads `key`, if the value
/// is a table holding one.
pub open spec fn spec_config_get(v: ConfigValue, key: Seq<char>, upto: int) -> Option<ConfigValue>
    decreases upto,
{
    match v {
        ConfigValue::Table(entries) => {
            if upto <= 0 {
                None
            } else if spec_config_get(v, key, upto - 1) is Some {
                spec_config_get(v, key, upto - 1)
            } else if entries@[upto - 1].0@ == key {
                Some(entries@[upto - 1].1)
            } else {
                None
            }
        },
        _ => None,
    }
}

impl ConfigValue {
    /// The table lookup this value answers for `key`.
    pub open spec fn spec_get(self, key: Seq<char>) -> Option<ConfigValue> {
        match self {
            ConfigValue::Table(entries) => spec_config_get(self, key, entries@.len() as int),
            _ => None,
        }
    }

    /// Looks up the value under `key` when this value is a table; the first
    /// matching entry wins.
    pub fn get<'a>(&'a self, key: &str) -> (r: Option<&'a ConfigValue>)
        ensures
            match r {
                Some(v) => self.spec_get(key@) == Some(*v),
                None => self.spec_get(key@) is None,
            },
    {
        match self {
            ConfigValue::Table(entries) => {
                let n = entries.len();
                let mut i: usize = 0;
                while i < n
                    invariant
                        i <= n,
                        n == entries@.len(),
                        self == ConfigValue::Table(*entries),
                        spec_config_get(*self, key@, i as int) is None,
                    decreases n - i,
                {
                    if str_eq(entries[i].0.as_str(), key) {
                        proof {
                            lemma_config_get_extend(*self, key@, i as int, n as int);
                        }
                        return Some(&entries[i].1);
                    }
                    i = i + 1;
                }
                None
            },
            _ => None,
        }
    }

    /// The integer this value holds, if it is an integer.
    pub fn as_integer(&self) -> (r: Option<i64>)
        ensures
            match r {
                Some(v) => self matches ConfigValue::Integer(w) && v == w,
                None => !(self matches ConfigValue::Integer(_)),
            },
    {
        match self {
            ConfigValue::Integer(v) => Some(*v),
            _ => None,
        }
    }
}

/// When the first match sits at position `i`, every wider lookup returns it.
proof fn lemma_config_get_extend(v: ConfigValue, key: Seq<char>, i: int, upto: int)
    requires
        v matches ConfigValue::Table(entries) && 0 <= i < upto <= entries@.len()
            && spec_config_get(v, key, i) is None && entries@[i].0@ == key,
    ensures
        v matches ConfigValue::Table(entries) && spec_config_get(v, key, upto) == Some(
            entries@[i].1,
        ),
    decreases upto,
{
    if upto - 1 > i {
        lemma_config_get_extend(v, key, i, upto - 1);
    }
}

/// Compares two string slices by contents.
fn str_eq(a: &str, b: &str) -> (r: bool)
    ensures
        r == (a@ == b@),
{
    let sa = a.to_string();
    let sb = b.to_string();
    sa == sb
}

/// The definition of one analyzer within a program: the implementation tag,
/// the logical names of its dependencies, and an optional configuration
/// value.
#[derive(Debug)]
pub struct AnalyzerDefinition {
    pub implementation: String,
    pub dependencies: Option<Vec<String>>,
    pub config: Option<ConfigValue>,
}

/// The name record of a program.
#[derive(Debug)]
pub struct ProgramDefinition {
    pub name: String,
}

/// A declarative analysis program: its name and its analyzer definitions,
/// keyed by logical name.
#[derive(Debug)]
pub struct ProgramConfig {
    pub program: ProgramDefinition,
    pub analyzers: Vec<(String, AnalyzerDefinition)>,
}

/// The dependency names of one definition; empty when none are declared.
pub open spec fn spec_deps(d: AnalyzerDefinition) -> Seq<String> {
    match d.dependencies {
        Some(v) => v@,
        None => Seq::empty(),
    }
}

/// True when some definition carries the logical name `name`.
pub open spec fn spec_contains_name(defs: Seq<(String, AnalyzerDefinition)>, name: Seq<char>) -> bool {
    exists|i: int| 0 <= i < defs.len() && (#[trigger] defs[i]).0@ == name
}

/// True when no two definitions share a logical name.
pub open spec fn spec_names_unique(defs: Seq<(String, AnalyzerDefinition)>) -> bool {
    forall|i: int, j: int|
        0 <= i < j < defs.len() ==> (#[trigger] defs[i]).0@ != (#[trigger] defs[j]).0@
}

/// True when `name` is the tag of a known analyzer implementation.
pub open spec fn spec_known_implementation(name: Seq<char>) -> bool {
    ||| name == "GearAnalyzer"@
    ||| name == "TestAnalyzer"@
    ||| name == "TestOffsetAnalyzer"@
    ||| name == "TobRoleAnalyzer"@
}

/// Returns whether `name` is the tag of a known analyzer implementation.
pub fn known_implementation(name: &String) -> (r: bool)
    ensures
        r == spec_known_implementation(name@),
{
    str_eq(name.as_str(), "GearAnalyzer") || str_eq(name.as_str(), "TestAnalyzer") || str_eq(
        name.as_str(),
        "TestOffsetAnalyzer",
    ) || str_eq(name.as_str(), "TobRoleAnalyzer")
}

/// True when every implementation tag of the program resolves.
pub open spec fn spec_impls_known(defs: Seq<(String, AnalyzerDefinition)>) -> bool {
    forall|i: int|
        0 <= i < defs.len() ==> spec_known_implementation((#[trigger] defs[i]).1.implementation@)
}

/// True when every declared dependency names another analyzer of the same
/// program.
pub open spec fn spec_deps_exist(defs: Seq<(String, AnalyzerDefinition)>) -> bool {
    forall|i: int, k: int|
        0 <= i < defs.len() && 0 <= k < spec_deps(defs[i].1).len() ==> spec_contains_name(
            defs,
            (#[trigger] spec_deps(defs[i].1)[k])@,
        )
}

/// True when the `k`-th dependency of the definition at position `p` of
/// `order` is declared by a definition at an earlier position.
pub open spec fn spec_dep_before(
    order: Seq<int>,
    defs: Seq<(String, AnalyzerDefinition)>,
    p: int,
    k: int,
) -> bool {
    exists|q: int| 0 <= q < p && defs[#[trigger] order[q]].0@ == (spec_deps(defs[order[p]].1)[k])@
}

/// True when every dependency of the definition at position `p` of `order`
/// is declared by a definition at an earlier position.
pub open spec fn spec_order_dep_ok(
    order: Seq<int>,
    defs: Seq<(String, AnalyzerDefinition)>,
    p: int,
) -> bool {
    forall|k: int|
        0 <= k < spec_deps(defs[order[p]].1).len() ==> #[trigger] spec_dep_before(order, defs, p, k)
}

/// True when `order` lists positions into `defs` such that every position is
/// covered and every definition's dependencies appear strictly earlier.
pub open spec fn spec_is_topo_order(order: Seq<int>, defs: Seq<(String, AnalyzerDefinition)>) -> bool {
    &&& order.len() == defs.len()
    &&& forall|p: int| 0 <= p < order.len() ==> 0 <= #[trigger] order[p] < defs.len()
    &&& forall|idx: int| 0 <= idx < defs.len() ==> order.contains(idx)
    &&& forall|p: int| 0 <= p < order.len() ==> #[trigger] spec_order_dep_ok(order, defs, p)
}

/// True when the dependency graph admits a topological order.
pub open spec fn spec_acyclic(defs: Seq<(String, AnalyzerDefinition)>) -> bool {
    exists|order: Seq<int>| spec_is_topo_order(order, defs)
}

/// A program is valid when its logical names are unique, every
/// implementation tag resolves, every dependency names another analyzer of
/// the program, and the dependency graph is acyclic.
pub open spec fn spec_program_valid(c: ProgramConfig) -> bool {
    &&& spec_names_unique(c.analyzers@)
    &&& spec_impls_known(c.analyzers@)
    &&& spec_deps_exist(c.analyzers@)
    &&& spec_acyclic(c.analyzers@)
}

/// True when `done` holds the position `x`.
pub open spec fn spec_in_done(done: Seq<usize>, x: int) -> bool {
    exists|w: int| 0 <= w < done.len() && (#[trigger] done[w]) == x
}

/// True when some completed position names `name`.
pub open spec fn spec_name_done(
    defs: Seq<(String, AnalyzerDefinition)>,
    done: Seq<usize>,
    name: Seq<char>,
) -> bool {
    exists|q: int|
        0 <= q < done.len() && done[q] < defs.len() && defs[(#[trigger] done[q]) as int].0@ == name
}

/// True when every dependency of the definition at `i` is completed.
pub open spec fn spec_all_deps_done(
    defs: Seq<(String, AnalyzerDefinition)>,
    done: Seq<usize>,
    i: int,
) -> bool {
    forall|k: int|
        0 <= k < spec_deps(defs[i].1).len() ==> spec_name_done(
            defs,
            done,
            (#[trigger] spec_deps(defs[i].1)[k])@,
        )
}

/// The completed positions, in completion order, form a topological prefix:
/// every completed definition's dependencies were completed strictly earlier.
pub open spec fn spec_topo_prefix(defs: Seq<(String, AnalyzerDefinition)>, done: Seq<usize>) -> bool {
    forall|p: int|
        0 <= p < done.len() ==> done[p] < defs.len() && spec_all_deps_done(
            defs,
            done.subrange(0, p),
            (#[trigger] done[p]) as int,
        )
}

/// Returns whether some definition carries the logical name.
fn contains_name(defs: &Vec<(String, AnalyzerDefinition)>, name: &String) -> (r: bool)
    ensures
        r == spec_contains_name(defs@, name@),
{
    let n = defs.len();
    let mut i: usize = 0;
    while i < n
        invariant
            i <= n,
            n == defs@.len(),
            forall|j: int| 0 <= j < i ==> (#[trigger] defs@[j]).0@ != name@,
        decreases n - i,
    {
        if defs[i].0 == *name {
            return true;
        }
        i = i + 1;
    }
    false
}

/// Returns whether `done` holds the index `idx`.
fn contains_index(done: &Vec<usize>, idx: usize) -> (r: bool)
    ensures
        r == spec_in_done(done@, idx as int),
{
    let n = done.len();
    let mut i: usize = 0;
    while i < n
        invariant
            i <= n,
            n == done@.len(),
            forall|j: int| 0 <= j < i ==> (#[trigger] done@[j]) != idx,
        decreases n - i,
    {
        if done[i] == idx {
            return true;
        }
        i = i + 1;
    }
    false
}

/// Returns whether some completed position names `name`.
fn name_done(defs: &Vec<(String, AnalyzerDefinition)>, done: &Vec<usize>, name: &String) -> (r:
    bool)
    ensures
        r == spec_name_done(defs@, done@, name@),
{
    let n = done.len();
    let mut i: usize = 0;
    while i < n
        invariant
            i <= n,
            n == done@.len(),
            forall|j: int|
                0 <= j < i ==> !((#[trigger] done@[j]) < defs@.len() && defs@[done@[j] as int].0@
                    == name@),
        decreases n - i,
    {
        if done[i] < defs.len() {
            if defs[done[i]].0 == *name {
                return true;
            }
        }
        i = i + 1;
    }
    false
}

/// A distinct list of `n` indices below `n` covers every index below `n`.
proof fn lemma_distinct_range_covers(done: Seq<usize>, n: int)
    requires
        done.no_duplicates(),
        forall|p: int| 0 <= p < done.len() ==> (#[trigger] done[p]) < n,
        done.len() == n,
        n >= 0,
    ensures
        forall|idx: int| 0 <= idx < n ==> spec_in_done(done, idx),
{
    broadcast use vstd::seq_lib::group_seq_properties;

    let s = done.map_values(|x: usize| x as int);
    assert forall|i: int, j: int| 0 <= i < s.len() && 0 <= j < s.len() && i != j implies s[i]
        != s[j] by {
        assert(done[i] != done[j]);
    }
    s.unique_seq_to_set();
    let range = set_int_range(0, n);
    lemma_int_range(0, n);
    assert(s.to_set().subset_of(range)) by {
        assert forall|x: int| s.to_set().contains(x) implies range.contains(x) by {
            let w = choose|w: int| 0 <= w < s.len() && s[w] == x;
            assert(done[w] < n);
        }
    }
    assert forall|idx: int| 0 <= idx < n implies spec_in_done(done, idx) by {
        if !spec_in_done(done, idx) {
            assert(!s.to_set().contains(idx)) by {
                if s.to_set().contains(idx) {
                    let w = choose|w: int| 0 <= w < s.len() && s[w] == idx;
                    assert(done[w] == idx);
                }
            }
            s.to_set().lemma_subset_not_in_lt(range, idx);
        }
    }
}

/// A distinct in-range list shorter than `n` leaves some index uncovered.
proof fn lemma_uncovered_exists(done: Seq<usize>, n: int) -> (idx: int)
    requires
        done.no_duplicates(),
        forall|p: int| 0 <= p < done.len() ==> (#[trigger] done[p]) < n,
        done.len() < n,
        n > 0,
    ensures
        0 <= idx < n,
        !spec_in_done(done, idx),
{
    broadcast use vstd::seq_lib::group_seq_properties;

    let s = done.map_values(|x: usize| x as int);
    assert forall|i: int, j: int| 0 <= i < s.len() && 0 <= j < s.len() && i != j implies s[i]
        != s[j] by {
        assert(done[i] != done[j]);
    }
    s.unique_seq_to_set();
    let range = set_int_range(0, n);
    lemma_int_range(0, n);
    if forall|idx: int| 0 <= idx < n ==> #[trigger] spec_in_done(done, idx) {
        assert(range.subset_of(s.to_set())) by {
            assert forall|x: int| range.contains(x) implies s.to_set().contains(x) by {
                assert(spec_in_done(done, x));
                let w = choose|w: int| 0 <= w < done.len() && done[w] == x;
                assert(s[w] == x);
                assert(s.contains(x));
            }
        }
        vstd::set_lib::lemma_len_subset(range, s.to_set());
        assert(false);
    }
    let idx = choose|idx: int| 0 <= idx < n && !#[trigger] spec_in_done(done, idx);
    idx
}

/// The earliest position of `order` whose node is not completed, given one
/// such position exists.
proof fn lemma_first_undone_position(order: Seq<int>, done: Seq<usize>, j: int) -> (p: int)
    requires
        0 <= j < order.len(),
        !spec_in_done(done, order[j]),
    ensures
        0 <= p <= j,
        !spec_in_done(done, order[p]),
        forall|q: int| 0 <= q < p ==> spec_in_done(done, #[trigger] order[q]),
    decreases j,
{
    if forall|q: int| 0 <= q < j ==> spec_in_done(done, #[trigger] order[q]) {
        j
    } else {
        let w = choose|w: int| 0 <= w < j && !spec_in_done(done, #[trigger] order[w]);
        lemma_first_undone_position(order, done, w)
    }
}

/// When the scheduler stalls — some definitions remain and each of them
/// still has an uncompleted dependency — the dependency graph admits no
/// topological order.
proof fn lemma_stalled_cyclic(defs: Seq<(String, AnalyzerDefinition)>, done: Seq<usize>)
    requires
        done.no_duplicates(),
        forall|p: int| 0 <= p < done.len() ==> (#[trigger] done[p]) < defs.len(),
        done.len() < defs.len(),
        forall|i: int|
            0 <= i < defs.len() && !#[trigger] spec_in_done(done, i) ==> !spec_all_deps_done(
                defs,
                done,
                i,
            ),
    ensures
        !spec_acyclic(defs),
{
    let n = defs.len() as int;
    if spec_acyclic(defs) {
        let order = choose|order: Seq<int>| spec_is_topo_order(order, defs);
        let i0 = lemma_uncovered_exists(done, n);
        assert(order.contains(i0));
        let j = choose|j: int| 0 <= j < order.len() && order[j] == i0;
        let p = lemma_first_undone_position(order, done, j);
        let node = order[p];
        assert(!spec_in_done(done, node));
        assert(!spec_all_deps_done(defs, done, node));
        let k = choose|k: int|
            0 <= k < spec_deps(defs[node].1).len() && !spec_name_done(
                defs,
                done,
                (#[trigger] spec_deps(defs[node].1)[k])@,
            );
        let dep_name = spec_deps(defs[node].1)[k]@;
        assert(spec_order_dep_ok(order, defs, p));
        assert(0 <= k < spec_deps(defs[order[p]].1).len());
        assert(spec_dep_before(order, defs, p, k));
        let q = choose|q: int|
            0 <= q < p && defs[#[trigger] order[q]].0@ == (spec_deps(defs[order[p]].1)[k])@;
        assert(defs[order[q]].0@ == dep_name);
        assert(spec_in_done(done, order[q]));
        let w = choose|w: int| 0 <= w < done.len() && done[w] == order[q];
        assert(defs[done[w] as int].0@ == dep_name);
        assert(spec_name_done(defs, done, dep_name));
        assert(false);
    }
}

impl ProgramConfig {
    /// Validates the program: logical names must be unique, every
    /// implementation tag must resolve, every dependency must name another
    /// analyzer of the program, and the dependency graph must be acyclic.
    /// Succeeds exactly on valid programs; every violation is a
    /// configuration error.
    #[verifier::loop_isolation(false)]
    pub fn validate(&self) -> (r: Result<(), Error>)
        ensures
            r is Ok <==> spec_program_valid(*self),
            r matches Err(e) ==> e matches Error::Config(_),
    {
        let defs = &self.analyzers;
        let n = defs.len();

        // Logical names must be unique.
        let mut i: usize = 0;
        while i < n
            invariant
                i <= n,
                n == defs@.len(),
                forall|a: int, b: int|
                    0 <= a < b < n && a < i ==> (#[trigger] defs@[a]).0@ != (#[trigger] defs@[b]).0@,
            decreases n - i,
        {
            let mut j = i + 1;
            while j < n
                invariant
                    i < j <= n,
                    n == defs@.len(),
                    forall|b: int| i < b < j ==> (#[trigger] defs@[b]).0@ != defs@[i as int].0@,
                decreases n - j,
            {
                if defs[i].0 == defs[j].0 {
                    return Err(Error::Config(String::from_str("duplicate analyzer name")));
                }
                j = j + 1;
            }
            i = i + 1;
        }

        // Every implementation tag must resolve.
        let mut i: usize = 0;
        while i < n
            invariant
                i <= n,
                n == defs@.len(),
                forall|a: int|
                    0 <= a < i ==> spec_known_implementation((#[trigger] defs@[a]).1.implementation@),
            decreases n - i,
        {
            if !known_implementation(&defs[i].1.implementation) {
                return Err(Error::Config(String::from_str("unknown implementation")));
            }
            i = i + 1;
        }

        // Every dependency must name another analyzer of the program.
        let mut i: usize = 0;
        while i < n
            invariant
                i <= n,
                n == defs@.len(),
                forall|a: int, k: int|
                    0 <= a < i && 0 <= k < spec_deps(defs@[a].1).len() ==> spec_contains_name(
                        defs@,
                        (#[trigger] spec_deps(defs@[a].1)[k])@,
                    ),
            decreases n - i,
        {
            match &defs[i].1.dependencies {
                Some(deps) => {
                    let nd = deps.len();
                    let mut k: usize = 0;
                    while k < nd
                        invariant
                            k <= nd,
                            i < n,
                            n == defs@.len(),
                            nd == deps@.len(),
                            deps@ == spec_deps(defs@[i as int].1),
                            forall|b: int|
                                0 <= b < k ==> spec_contains_name(defs@, (#[trigger] deps@[b])@),
                        decreases nd - k,
                    {
                        if !contains_name(defs, &deps[k]) {
                            return Err(Error::Config(String::from_str("unknown dependency")));
                        }
                        k = k + 1;
                    }
                },
                None => {},
            }
            i = i + 1;
        }

        // The dependency graph must have a topological order; completing
        // definitions whose dependencies are complete either covers all of
        // them or stalls on a cycle.
        let mut done: Vec<usize> = Vec::new();
        while done.len() < n
            invariant
                n == defs@.len(),
                done@.len() <= n,
                done@.no_duplicates(),
                forall|p: int| 0 <= p < done@.len() ==> (#[trigger] done@[p]) < n,
                spec_topo_prefix(defs@, done@),
            decreases n - done@.len(),
        {
            let ghost done_len0 = done@.len();
            let ghost done0 = done@;
            let mut progressed = false;
            let mut i: usize = 0;
            while i < n && !progressed
                invariant
                    i <= n,
                    done@.no_duplicates(),
                    forall|p: int| 0 <= p < done@.len() ==> (#[trigger] done@[p]) < n,
                    spec_topo_prefix(defs@, done@),
                    !progressed ==> done@ == done0,
                    !progressed ==> forall|a: int|
                        0 <= a < i && !#[trigger] spec_in_done(done@, a) ==> !spec_all_deps_done(
                            defs@,
                            done@,
                            a,
                        ),
                    progressed ==> done@.len() == done_len0 + 1,
                decreases n - i,
            {
                if !contains_index(&done, i) {
                    let deps_ok = match &defs[i].1.dependencies {
                        Some(deps) => {
                            let nd = deps.len();
                            let mut k: usize = 0;
                            let mut all = true;
                            while k < nd
                                invariant
                                    k <= nd,
                                    i < n,
                                    n == defs@.len(),
                                    nd == deps@.len(),
                                    deps@ == spec_deps(defs@[i as int].1),
                                    all ==> forall|b: int|
                                        0 <= b < k ==> spec_name_done(
                                            defs@,
                                            done@,
                                            (#[trigger] deps@[b])@,
                                        ),
                                    !all ==> !spec_all_deps_done(defs@, done@, i as int),
                                decreases nd - k,
                            {
                                if all && !name_done(defs, &done, &deps[k]) {
                                    all = false;
                                }
                                k = k + 1;
                            }
                            all
                        },
                        None => true,
                    };
                    if deps_ok {
                        let ghost done_before = done@;
                        done.push(i);
                        progressed = true;
                        proof {
                            assert(done@.subrange(0, done_before.len() as int) =~= done_before);
                            assert forall|p: int|
                                0 <= p < done@.len() implies done@[p] < n && spec_all_deps_done(
                                defs@,
                                done@.subrange(0, p),
                                (#[trigger] done@[p]) as int,
                            ) by {
                                if p < done_before.len() {
                                    assert(done@.subrange(0, p) =~= done_before.subrange(0, p));
                                    assert(spec_all_deps_done(
                                        defs@,
                                        done_before.subrange(0, p),
                                        done_before[p] as int,
                                    ));
                                }
                            }
                        }
                    }
                }
                i = i + 1;
            }
            if !progressed {
                proof {
                    lemma_stalled_cyclic(defs@, done@);
                }
                return Err(Error::Config(String::from_str("dependency cycle")));
            }
        }

        proof {
            let order = done@.map_values(|x: usize| x as int);
            lemma_distinct_range_covers(done@, n as int);
            assert forall|idx: int| 0 <= idx < defs@.len() implies order.contains(idx) by {
                assert(spec_in_done(done@, idx));
                let w = choose|w: int| 0 <= w < done@.len() && done@[w] == idx;
                assert(order[w] == idx);
            }
            assert forall|p: int| 0 <= p < order.len() implies #[trigger] spec_order_dep_ok(
                order,
                defs@,
                p,
            ) by {
                assert(spec_all_deps_done(defs@, done@.subrange(0, p), done@[p] as int));
                assert forall|k: int|
                    0 <= k < spec_deps(defs@[order[p]].1).len() implies #[trigger] spec_dep_before(
                    order,
                    defs@,
                    p,
                    k,
                ) by {
                    let name = spec_deps(defs@[order[p]].1)[k]@;
                    assert(spec_name_done(defs@, done@.subrange(0, p), name));
                    let q = choose|q: int|
                        0 <= q < done@.subrange(0, p).len() && done@.subrange(0, p)[q]
                            < defs@.len() && defs@[done@.subrange(0, p)[q] as int].0@ == name;
                    assert(defs@[order[q]].0@ == name);
                }
            }
            assert(spec_is_topo_order(order, defs@));
        }
        Ok(())
    }
}

} // verus!
