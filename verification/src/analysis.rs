//! The analysis engine: run contexts, the per-run scheduler that honours the
//! dependency DAG, and the engine that owns programs and the item registry.

use vstd::prelude::*;

use crate::analyzers::gear_analyzer::{GearAnalyzer, PlayerGear};
use crate::analyzers::test_analyzer::TestAnalyzer;
use crate::analyzers::test_offset_analyzer::TestOffsetAnalyzer;
use crate::analyzers::tob_role_analyzer::{PlayerRoles, TobRoleAnalyzer};
use crate::challenge::Challenge;
use crate::error::Error;
use crate::item::Registry;
use crate::program::ProgramConfig;
use vstd::multiset::Multiset;

verus! {

broadcast use {
    vstd::multiset::group_multiset_axioms,
    vstd::seq_lib::group_to_multiset_ensures,
    vstd::seq_lib::lemma_multiset_commutative,
};

/// Hint to analyzers about the effort and scope of a run; no engine-level
/// effect.
#[derive(Debug, Clone, Copy, PartialEq, Eq, Structural)]
pub enum Level {
    /// Base level of analysis run on every recorded challenge. Prioritizes
    /// speed and simplicity.
    Basic,
    /// Analysis targeting players who are new to the content and focused on
    /// learning basic skills and mechanics.
    Learner,
    /// Analysis targeting players who run the content regularly, but do not
    /// use advanced strategies or techniques.
    Casual,
    /// Advanced analysis based on the optimal strategies and techniques for
    /// the content.
    MaxEff,
}

/// Static identity of an analyzer implementation; dependents request a
/// dependency's output by this identity.
#[derive(Debug, Clone, Copy, PartialEq, Eq, Structural)]
pub enum AnalyzerImpl {
    Gear,
    Test,
    TestOffset,
    TobRole,
}

/// A typed analyzer output, stored for downstream dependents to read back.
#[derive(Debug)]
pub enum AnalyzerOutput {
    /// Output of the test analyzers.
    Number(u32),
    /// Output of the gear analyzer.
    Gear(PlayerGear),
    /// Output of the role analyzer: username to assigned roles.
    Roles(Vec<(String, PlayerRoles)>),
}

/// A constructed analyzer of one of the known implementations.
#[derive(Debug)]
pub enum AnalyzerKind {
    Gear(GearAnalyzer),
    Test(TestAnalyzer),
    TestOffset(TestOffsetAnalyzer),
    TobRole(TobRoleAnalyzer),
}

/// The static identity of a constructed analyzer.
pub open spec fn spec_kind_impl(kind: AnalyzerKind) -> AnalyzerImpl {
    match kind {
        AnalyzerKind::Gear(_) => AnalyzerImpl::Gear,
        AnalyzerKind::Test(_) => AnalyzerImpl::Test,
        AnalyzerKind::TestOffset(_) => AnalyzerImpl::TestOffset,
        AnalyzerKind::TobRole(_) => AnalyzerImpl::TobRole,
    }
}

/// A runnable analyzer instantiated within a program: its logical name and
/// the constructed implementation.
#[derive(Debug)]
pub struct AnalyzerInstance {
    pub logical_name: String,
    pub kind: AnalyzerKind,
}

/// A finished analyzer, retained for its output.
#[derive(Debug)]
pub struct CompletedAnalyzer {
    pub instance: AnalyzerInstance,
    pub output: AnalyzerOutput,
}

/// An analysis `Context` provides information about the active analysis
/// program run: the challenge, the item registry, the level, and the
/// completed analyzers whose outputs dependents may read.
pub struct Context<'a> {
    challenge: &'a Challenge,
    item_registry: &'a Registry,
    level: Level,
    completed_analyzers: &'a Vec<CompletedAnalyzer>,
}

/// The output of the first completed analyzer with the given static
/// identity, if any.
pub open spec fn spec_dependency_output(
    completed: Seq<CompletedAnalyzer>,
    which: AnalyzerImpl,
    upto: int,
) -> Option<int>
    decreases upto,
{
    if upto <= 0 {
        None
    } else if spec_dependency_output(completed, which, upto - 1) is Some {
        spec_dependency_output(completed, which, upto - 1)
    } else if spec_kind_impl(completed[upto - 1].instance.kind) == which {
        Some(upto - 1)
    } else {
        None
    }
}

impl<'a> Context<'a> {
    /// Builds a context for one dispatch.
    pub fn new(
        challenge: &'a Challenge,
        item_registry: &'a Registry,
        level: Level,
        completed_analyzers: &'a Vec<CompletedAnalyzer>,
    ) -> (r: Context<'a>)
        ensures
            r.spec_challenge() == *challenge,
            r.spec_item_registry() == *item_registry,
            r.spec_level() == level,
            r.spec_completed() == completed_analyzers@,
    {
        Context { challenge, item_registry, level, completed_analyzers }
    }

    /// The challenge under analysis.
    pub closed spec fn spec_challenge(self) -> Challenge {
        *self.challenge
    }

    /// The item registry of the run.
    pub closed spec fn spec_item_registry(self) -> Registry {
        *self.item_registry
    }

    /// The configured level.
    pub closed spec fn spec_level(self) -> Level {
        self.level
    }

    /// The completed analyzers visible to this dispatch.
    pub closed spec fn spec_completed(self) -> Seq<CompletedAnalyzer> {
        self.completed_analyzers@
    }

    /// Returns the configured analysis level.
    pub fn level(&self) -> (r: Level)
        ensures
            r == self.spec_level(),
    {
        self.level
    }

    /// Returns the challenge being analyzed.
    pub fn challenge(&self) -> (r: &Challenge)
        ensures
            *r == self.spec_challenge(),
    {
        self.challenge
    }

    /// Returns a registry of all known game items.
    pub fn item_registry(&self) -> (r: &Registry)
        ensures
            *r == self.spec_item_registry(),
    {
        self.item_registry
    }

    /// Returns the output of a completed analyzer with the given static
    /// identity, if one exists; the first completed match wins.
    pub fn get_dependency_output(&self, which: AnalyzerImpl) -> (r: Option<&AnalyzerOutput>)
        ensures
            match r {
                Some(o) => (spec_dependency_output(
                    self.spec_completed(),
                    which,
                    self.spec_completed().len() as int,
                ) matches Some(i) && *o == self.spec_completed()[i].output),
                None => spec_dependency_output(
                    self.spec_completed(),
                    which,
                    self.spec_completed().len() as int,
                ) is None,
            },
    {
        let n = self.completed_analyzers.len();
        let mut i: usize = 0;
        while i < n
            invariant
                i <= n,
                n == self.spec_completed().len(),
                spec_dependency_output(self.spec_completed(), which, i as int) is None,
            decreases n - i,
        {
            let matches_impl = match (&self.completed_analyzers[i].instance.kind, which) {
                (AnalyzerKind::Gear(_), AnalyzerImpl::Gear) => true,
                (AnalyzerKind::Test(_), AnalyzerImpl::Test) => true,
                (AnalyzerKind::TestOffset(_), AnalyzerImpl::TestOffset) => true,
                (AnalyzerKind::TobRole(_), AnalyzerImpl::TobRole) => true,
                _ => false,
            };
            if matches_impl {
                proof {
                    lemma_dependency_output_extend(self.spec_completed(), which, i as int, n as int);
                }
                return Some(&self.completed_analyzers[i].output);
            }
            i = i + 1;
        }
        None
    }
}

/// The name views of a list of analyzer instances.
pub open spec fn spec_instance_names(v: Seq<AnalyzerInstance>) -> Seq<Seq<char>> {
    v.map_values(|a: AnalyzerInstance| a.logical_name@)
}

/// The name views of a list of completed analyzers.
pub open spec fn spec_completed_names(v: Seq<CompletedAnalyzer>) -> Seq<Seq<char>> {
    v.map_values(|c: CompletedAnalyzer| c.instance.logical_name@)
}

/// The views of a list of names.
pub open spec fn spec_string_views(v: Seq<String>) -> Seq<Seq<char>> {
    v.map_values(|s: String| s@)
}

/// The name views of a dependency table.
pub open spec fn spec_table_names(v: Seq<(String, Vec<String>)>) -> Seq<Seq<char>> {
    v.map_values(|e: (String, Vec<String>)| e.0@)
}

/// The dependency names recorded for `name`: those of its first table entry,
/// or none when the table holds no such entry.
pub open spec fn spec_deps_of(table: Seq<(String, Vec<String>)>, name: Seq<char>, upto: int) -> Seq<
    String,
>
    decreases upto,
{
    if upto <= 0 {
        Seq::empty()
    } else if exists|i: int| 0 <= i < upto - 1 && (#[trigger] table[i]).0@ == name {
        spec_deps_of(table, name, upto - 1)
    } else if table[upto - 1].0@ == name {
        table[upto - 1].1@
    } else {
        Seq::empty()
    }
}

/// True when every dependency recorded for `name` appears among the
/// completed names.
pub open spec fn spec_deps_satisfied(
    table: Seq<(String, Vec<String>)>,
    done: Seq<Seq<char>>,
    name: Seq<char>,
) -> bool {
    forall|k: int|
        0 <= k < spec_deps_of(table, name, table.len() as int).len() ==> done.contains(
            (#[trigger] spec_deps_of(table, name, table.len() as int)[k])@,
        )
}

/// True when the `k`-th dependency of the table entry at position `p` of
/// `order` is declared by an entry at an earlier position.
pub open spec fn spec_table_dep_before(
    order: Seq<int>,
    table: Seq<(String, Vec<String>)>,
    p: int,
    k: int,
) -> bool {
    exists|q: int| 0 <= q < p && table[#[trigger] order[q]].0@ == (table[order[p]].1@[k])@
}

/// True when every dependency of the table entry at position `p` of `order`
/// is declared earlier.
pub open spec fn spec_table_order_dep_ok(
    order: Seq<int>,
    table: Seq<(String, Vec<String>)>,
    p: int,
) -> bool {
    forall|k: int|
        0 <= k < table[order[p]].1@.len() ==> #[trigger] spec_table_dep_before(order, table, p, k)
}

/// True when `order` lists positions into the dependency table such that
/// every position is covered and every entry's dependencies appear strictly
/// earlier.
pub open spec fn spec_table_topo(order: Seq<int>, table: Seq<(String, Vec<String>)>) -> bool {
    &&& order.len() == table.len()
    &&& forall|p: int| 0 <= p < order.len() ==> 0 <= #[trigger] order[p] < table.len()
    &&& forall|idx: int| 0 <= idx < table.len() ==> order.contains(idx)
    &&& forall|p: int| 0 <= p < order.len() ==> #[trigger] spec_table_order_dep_ok(order, table, p)
}

/// True when constructing the analyzer of one program definition fails.
pub open spec fn spec_def_init_fails(def: crate::program::AnalyzerDefinition) -> bool {
    crate::analyzers::spec_init_fails(def.implementation@, def.config)
}

/// Carries the load-time program guarantees onto the run's dependency table:
/// the table mirrors the definitions name-for-name and dependency-for-
/// dependency, so uniqueness, resolvability, and acyclicity transfer.
proof fn lemma_table_valid_from_program(
    defs: Seq<(String, crate::program::AnalyzerDefinition)>,
    table: Seq<(String, Vec<String>)>,
)
    requires
        crate::program::spec_names_unique(defs),
        crate::program::spec_deps_exist(defs),
        crate::program::spec_acyclic(defs),
        table.len() == defs.len(),
        forall|j: int| 0 <= j < table.len() ==> (#[trigger] table[j]).0@ == defs[j].0@,
        forall|j: int|
            0 <= j < table.len() ==> (#[trigger] table[j]).1@ == crate::program::spec_deps(
                defs[j].1,
            ),
    ensures
        spec_table_valid(table),
{
    assert forall|i: int, j: int|
        0 <= i < j < table.len() implies (#[trigger] table[i]).0@ != (#[trigger] table[j]).0@ by {
        assert(defs[i].0@ != defs[j].0@);
    }
    assert forall|i: int, k: int|
        0 <= i < table.len() && 0 <= k < table[i].1@.len() implies exists|j: int|
            0 <= j < table.len() && (#[trigger] table[j]).0@ == (#[trigger] table[i].1@[k])@ by {
        assert(crate::program::spec_contains_name(
            defs,
            (crate::program::spec_deps(defs[i].1)[k])@,
        ));
        let j = choose|j: int|
            0 <= j < defs.len() && (#[trigger] defs[j]).0@ == (crate::program::spec_deps(
                defs[i].1,
            )[k])@;
        assert(table[j].0@ == (table[i].1@[k])@);
    }
    let order = choose|order: Seq<int>| crate::program::spec_is_topo_order(order, defs);
    assert forall|p: int| 0 <= p < order.len() implies #[trigger] spec_table_order_dep_ok(
        order,
        table,
        p,
    ) by {
        assert(crate::program::spec_order_dep_ok(order, defs, p));
        assert forall|k: int|
            0 <= k < table[order[p]].1@.len() implies #[trigger] spec_table_dep_before(
            order,
            table,
            p,
            k,
        ) by {
            assert(crate::program::spec_dep_before(order, defs, p, k));
            let q = choose|q: int|
                0 <= q < p && defs[#[trigger] order[q]].0@ == (crate::program::spec_deps(
                    defs[order[p]].1,
                )[k])@;
            assert(table[order[q]].0@ == (table[order[p]].1@[k])@);
        }
    }
    assert(spec_table_topo(order, table));
}

/// A run's dependency table is valid when its names are unique, every
/// dependency names another entry, and the graph has a topological order —
/// the load-time guarantees, carried into the run.
pub open spec fn spec_table_valid(table: Seq<(String, Vec<String>)>) -> bool {
    &&& forall|i: int, j: int|
        0 <= i < j < table.len() ==> (#[trigger] table[i]).0@ != (#[trigger] table[j]).0@
    &&& forall|i: int, k: int|
        0 <= i < table.len() && 0 <= k < table[i].1@.len() ==> exists|j: int|
            0 <= j < table.len() && (#[trigger] table[j]).0@ == (#[trigger] table[i].1@[k])@
    &&& exists|order: Seq<int>| spec_table_topo(order, table)
}

/// A program run: the per-run scheduler state. Analyzers move from blocked
/// to pending once their dependencies complete, are handed out for
/// execution, and return with their output into the completed list.
pub struct ProgramRun {
    program_name: String,
    run_number: u64,
    level: Level,
    analyzers_to_run: usize,
    deps: Vec<(String, Vec<String>)>,
    blocked: Vec<AnalyzerInstance>,
    pending: Vec<AnalyzerInstance>,
    in_flight: Vec<String>,
    completed: Vec<CompletedAnalyzer>,
}

impl ProgramRun {
    /// The logical-name-to-dependencies table of the run's program.
    pub closed spec fn spec_deps_table(self) -> Seq<(String, Vec<String>)> {
        self.deps@
    }

    /// The analyzers still waiting on dependencies.
    pub closed spec fn spec_blocked(self) -> Seq<AnalyzerInstance> {
        self.blocked@
    }

    /// The analyzers ready to dispatch.
    pub closed spec fn spec_pending(self) -> Seq<AnalyzerInstance> {
        self.pending@
    }

    /// The names of the analyzers handed out for execution.
    pub closed spec fn spec_in_flight(self) -> Seq<String> {
        self.in_flight@
    }

    /// The finished analyzers, in completion order.
    pub closed spec fn spec_completed(self) -> Seq<CompletedAnalyzer> {
        self.completed@
    }

    /// The number of analyzers not yet completed.
    pub closed spec fn spec_remaining(self) -> int {
        self.analyzers_to_run as int
    }

    /// The run's sequence number within its engine.
    pub closed spec fn spec_run_number(self) -> u64 {
        self.run_number
    }

    /// The run's level.
    pub closed spec fn spec_level(self) -> Level {
        self.level
    }
}

/// Invariants of a program run, at every coordinator step:
/// - the names in `blocked`, `pending`, `in_flight` and `completed` together
///   are exactly the program's analyzer names;
/// - every pending or in-flight analyzer has all its dependencies completed;
/// - the completed list is ordered: every analyzer's dependencies appear
///   strictly before it;
/// - the remaining count equals the number of analyzers not yet completed.
pub open spec fn run_wf(r: ProgramRun) -> bool {
    &&& spec_table_valid(r.spec_deps_table())
    &&& spec_instance_names(r.spec_blocked()).to_multiset().add(
        spec_instance_names(r.spec_pending()).to_multiset(),
    ).add(spec_string_views(r.spec_in_flight()).to_multiset()).add(
        spec_completed_names(r.spec_completed()).to_multiset(),
    ) == spec_table_names(r.spec_deps_table()).to_multiset()
    &&& forall|i: int|
        0 <= i < r.spec_pending().len() ==> spec_deps_satisfied(
            r.spec_deps_table(),
            spec_completed_names(r.spec_completed()),
            (#[trigger] r.spec_pending()[i]).logical_name@,
        )
    &&& forall|i: int|
        0 <= i < r.spec_in_flight().len() ==> spec_deps_satisfied(
            r.spec_deps_table(),
            spec_completed_names(r.spec_completed()),
            (#[trigger] r.spec_in_flight()[i])@,
        )
    &&& forall|i: int|
        0 <= i < r.spec_completed().len() ==> spec_deps_satisfied(
            r.spec_deps_table(),
            spec_completed_names(r.spec_completed().subrange(0, i)),
            (#[trigger] r.spec_completed()[i]).instance.logical_name@,
        )
    &&& r.spec_remaining() == r.spec_blocked().len() + r.spec_pending().len()
        + r.spec_in_flight().len()
}

/// True when an analyzer implementation never fails: the test analyzers
/// always produce their configured number.
pub open spec fn spec_kind_infallible(kind: AnalyzerKind) -> bool {
    kind matches AnalyzerKind::Test(_) || kind matches AnalyzerKind::TestOffset(_)
}

/// True when every analyzer still to run is of an implementation that never
/// fails.
pub open spec fn spec_run_infallible(r: ProgramRun) -> bool {
    &&& forall|i: int|
        0 <= i < r.spec_blocked().len() ==> spec_kind_infallible(
            (#[trigger] r.spec_blocked()[i]).kind,
        )
    &&& forall|i: int|
        0 <= i < r.spec_pending().len() ==> spec_kind_infallible(
            (#[trigger] r.spec_pending()[i]).kind,
        )
}

/// The names of a run's four pools together are exactly the program's
/// analyzer names — at every coordinator step.
pub proof fn lemma_run_names_partition(r: ProgramRun)
    requires
        run_wf(r),
    ensures
        spec_instance_names(r.spec_blocked()).to_multiset().add(
            spec_instance_names(r.spec_pending()).to_multiset(),
        ).add(spec_string_views(r.spec_in_flight()).to_multiset()).add(
            spec_completed_names(r.spec_completed()).to_multiset(),
        ) == spec_table_names(r.spec_deps_table()).to_multiset(),
{
}

/// A finished run retains every analyzer of its program, exactly once, in
/// the completed list.
pub proof fn lemma_finished_run_completed(r: ProgramRun)
    requires
        run_wf(r),
        r.spec_remaining() == 0,
    ensures
        spec_completed_names(r.spec_completed()).to_multiset() == spec_table_names(
            r.spec_deps_table(),
        ).to_multiset(),
{
    lemma_empty_to_multiset(spec_instance_names(r.spec_blocked()));
    lemma_empty_to_multiset(spec_instance_names(r.spec_pending()));
    lemma_empty_to_multiset(spec_string_views(r.spec_in_flight()));
    assert(spec_completed_names(r.spec_completed()).to_multiset() =~= spec_table_names(
        r.spec_deps_table(),
    ).to_multiset());
}

/// Analyzers complete strictly after every analyzer they depend on: in
/// completion order, each one's dependencies appear before it.
pub proof fn lemma_completion_order(r: ProgramRun, i: int)
    requires
        run_wf(r),
        0 <= i < r.spec_completed().len(),
    ensures
        spec_deps_satisfied(
            r.spec_deps_table(),
            spec_completed_names(r.spec_completed().subrange(0, i)),
            r.spec_completed()[i].instance.logical_name@,
        ),
{
}

/// The analysis engine: owns the loaded programs, the worker configuration,
/// and the item registry shared by all runs, and constructs program runs.
pub struct Engine {
    programs: Vec<ProgramConfig>,
    started: bool,
    worker_count: u32,
    num_programs_run: u64,
    item_registry: Registry,
}

/// Invariants of an engine: every held program is valid and program names
/// are unique.
pub open spec fn engine_wf(e: Engine) -> bool {
    &&& forall|i: int|
        0 <= i < e.spec_programs().len() ==> crate::program::spec_program_valid(
            #[trigger] e.spec_programs()[i],
        )
    &&& forall|i: int, j: int|
        0 <= i < j < e.spec_programs().len() ==> (#[trigger] e.spec_programs()[i]).program.name@
            != (#[trigger] e.spec_programs()[j]).program.name@
}

impl Engine {
    /// The loaded programs.
    pub closed spec fn spec_programs(self) -> Seq<ProgramConfig> {
        self.programs@
    }

    /// Whether `start` has been called.
    pub closed spec fn spec_started(self) -> bool {
        self.started
    }

    /// The number of program runs begun so far.
    pub closed spec fn spec_runs(self) -> u64 {
        self.num_programs_run
    }

    /// The engine's item registry.
    pub closed spec fn spec_registry(self) -> Registry {
        self.item_registry
    }

    /// Builds an engine holding the item registry, with no programs loaded
    /// and no workers started.
    pub fn new(item_registry: Registry) -> (r: Engine)
        ensures
            engine_wf(r),
            r.spec_programs().len() == 0,
            !r.spec_started(),
            r.spec_runs() == 0,
            r.spec_registry() == item_registry,
    {
        Engine {
            programs: Vec::new(),
            started: false,
            worker_count: 0,
            num_programs_run: 0,
            item_registry,
        }
    }

    /// Returns the engine's item registry.
    pub fn item_registry(&self) -> (r: &Registry)
        ensures
            *r == self.spec_registry(),
    {
        &self.item_registry
    }

    /// Loads one program into the engine's table. Accepted exactly when the
    /// program is valid and no loaded program already carries its name;
    /// every rejection is a configuration error.
    pub fn add_program(&mut self, program: ProgramConfig) -> (r: Result<(), Error>)
        requires
            engine_wf(*old(self)),
        ensures
            engine_wf(*final(self)),
            final(self).spec_started() == old(self).spec_started(),
            final(self).spec_runs() == old(self).spec_runs(),
            final(self).spec_registry() == old(self).spec_registry(),
            match r {
                Ok(()) => {
                    &&& crate::program::spec_program_valid(program)
                    &&& forall|i: int|
                        0 <= i < old(self).spec_programs().len() ==> (#[trigger] old(
                            self,
                        ).spec_programs()[i]).program.name@ != program.program.name@
                    &&& final(self).spec_programs() == old(self).spec_programs().push(program)
                },
                Err(e) => {
                    &&& e matches Error::Config(_)
                    &&& final(self).spec_programs() == old(self).spec_programs()
                    &&& (!crate::program::spec_program_valid(program) || exists|i: int|
                        0 <= i < old(self).spec_programs().len() && (#[trigger] old(
                            self,
                        ).spec_programs()[i]).program.name@ == program.program.name@)
                },
            },
    {
        let n = self.programs.len();
        let mut i: usize = 0;
        while i < n
            invariant
                i <= n,
                n == self.programs@.len(),
                forall|j: int|
                    0 <= j < i ==> (#[trigger] self.programs@[j]).program.name@
                        != program.program.name@,
            decreases n - i,
        {
            if self.programs[i].program.name == program.program.name {
                return Err(Error::Config(String::from_str("duplicate program name")));
            }
            i = i + 1;
        }
        match program.validate() {
            Ok(()) => {},
            Err(e) => {
                return Err(e);
            },
        }
        let ghost p0 = self.programs@;
        self.programs.push(program);
        proof {
            assert forall|a: int|
                0 <= a < self.programs@.len() implies crate::program::spec_program_valid(
                #[trigger] self.programs@[a],
            ) by {
                if a < p0.len() {
                    assert(self.programs@[a] == p0[a]);
                }
            }
            assert forall|a: int, b: int|
                0 <= a < b < self.programs@.len() implies (#[trigger] self.programs@[a]).program.name@
                != (#[trigger] self.programs@[b]).program.name@ by {
                if b < p0.len() {
                    assert(self.programs@[a] == p0[a] && self.programs@[b] == p0[b]);
                } else {
                    assert(self.programs@[a] == p0[a]);
                }
            }
        }
        Ok(())
    }

    /// Begins running the analysis engine with the specified number of
    /// workers; the workers themselves are the host's concern.
    pub fn start(&mut self, worker_count: u32)
        requires
            engine_wf(*old(self)),
        ensures
            engine_wf(*final(self)),
            final(self).spec_started(),
            final(self).spec_programs() == old(self).spec_programs(),
            final(self).spec_runs() == old(self).spec_runs(),
            final(self).spec_registry() == old(self).spec_registry(),
    {
        self.started = true;
        self.worker_count = worker_count;
        proof {
            assert(self.spec_programs() == old(self).spec_programs());
            assert forall|i: int|
                0 <= i < self.spec_programs().len() implies crate::program::spec_program_valid(
                #[trigger] self.spec_programs()[i],
            ) by {
                assert(crate::program::spec_program_valid(old(self).spec_programs()[i]));
            }
        }
    }

    /// Constructs a run of the named program. Fails with an invalid argument
    /// when no loaded program carries the name, and with a failed
    /// precondition when the engine has not been started (or its run counter
    /// is exhausted); configuration errors of analyzer construction pass
    /// through. On success the run counter advances and the returned run is
    /// ready to drive.
    pub fn run_program(&mut self, program: &String, level: Level) -> (r: Result<ProgramRun, Error>)
        requires
            engine_wf(*old(self)),
        ensures
            engine_wf(*final(self)),
            final(self).spec_programs() == old(self).spec_programs(),
            final(self).spec_started() == old(self).spec_started(),
            final(self).spec_registry() == old(self).spec_registry(),
            match r {
                Ok(run) => {
                    &&& old(self).spec_started()
                    &&& exists|i: int|
                        0 <= i < old(self).spec_programs().len() && (#[trigger] old(
                            self,
                        ).spec_programs()[i]).program.name@ == program@ && (forall|j: int|
                            0 <= j < old(self).spec_programs()[i].analyzers@.len()
                                ==> !spec_def_init_fails(
                                (#[trigger] old(self).spec_programs()[i].analyzers@[j]).1,
                            )) && ((forall|j: int|
                            0 <= j < old(self).spec_programs()[i].analyzers@.len() ==> ((
                            #[trigger] old(
                                self,
                            ).spec_programs()[i].analyzers@[j]).1.implementation@
                                == "TestAnalyzer"@ || old(
                                self,
                            ).spec_programs()[i].analyzers@[j].1.implementation@
                                == "TestOffsetAnalyzer"@)) ==> spec_run_infallible(run))
                    &&& run_wf(run)
                    &&& run.spec_in_flight().len() == 0
                    &&& run.spec_completed().len() == 0
                    &&& run.spec_level() == level
                    &&& run.spec_run_number() == old(self).spec_runs() + 1
                    &&& final(self).spec_runs() == old(self).spec_runs() + 1
                },
                Err(e) => {
                    &&& final(self).spec_runs() == old(self).spec_runs()
                    &&& (e matches Error::InvalidArgument <==> forall|i: int|
                        0 <= i < old(self).spec_programs().len() ==> (#[trigger] old(
                            self,
                        ).spec_programs()[i]).program.name@ != program@)
                    &&& (e matches Error::FailedPrecondition(_) ==> !old(self).spec_started()
                        || old(self).spec_runs() == u64::MAX)
                    &&& ((exists|i: int|
                        0 <= i < old(self).spec_programs().len() && (#[trigger] old(
                            self,
                        ).spec_programs()[i]).program.name@ == program@) && old(self).spec_started()
                        && old(self).spec_runs() < u64::MAX ==> (e matches Error::Config(_)
                        && exists|i: int|
                        0 <= i < old(self).spec_programs().len() && (#[trigger] old(
                            self,
                        ).spec_programs()[i]).program.name@ == program@ && exists|j: int|
                            0 <= j < old(self).spec_programs()[i].analyzers@.len()
                                && spec_def_init_fails(
                                (#[trigger] old(self).spec_programs()[i].analyzers@[j]).1,
                            )))
                    &&& (e matches Error::InvalidArgument || e matches Error::FailedPrecondition(
                        _,
                    ) || e matches Error::Config(_))
                },
            },
    {
        let n = self.programs.len();
        let mut found: Option<usize> = None;
        let mut i: usize = 0;
        while i < n
            invariant
                i <= n,
                n == self.programs@.len(),
                match found {
                    Some(k) => k < n && self.programs@[k as int].program.name@ == program@,
                    None => forall|j: int|
                        0 <= j < i ==> (#[trigger] self.programs@[j]).program.name@ != program@,
                },
            decreases n - i,
        {
            if self.programs[i].program.name == *program {
                found = Some(i);
                break ;
            }
            i = i + 1;
        }
        let index = match found {
            Some(index) => index,
            None => {
                return Err(Error::InvalidArgument);
            },
        };
        if !self.started {
            return Err(Error::FailedPrecondition(String::from_str("Engine not started")));
        }
        if self.num_programs_run == u64::MAX {
            return Err(Error::FailedPrecondition(String::from_str("run counter exhausted")));
        }
        self.num_programs_run = self.num_programs_run + 1;
        let run_number = self.num_programs_run;
        proof {
            assert(crate::program::spec_program_valid(self.programs@[index as int]));
        }
        match ProgramRun::new(&self.programs[index], run_number, level) {
            Ok(run) => Ok(run),
            Err(e) => {
                self.num_programs_run = self.num_programs_run - 1;
                Err(e)
            },
        }
    }
}

/// When the first match sits at position `i`, every wider search returns it.
proof fn lemma_dependency_output_extend(
    completed: Seq<CompletedAnalyzer>,
    which: AnalyzerImpl,
    i: int,
    upto: int,
)
    requires
        0 <= i < upto <= completed.len(),
        spec_dependency_output(completed, which, i) is None,
        spec_kind_impl(completed[i].instance.kind) == which,
    ensures
        spec_dependency_output(completed, which, upto) == Some(i),
    decreases upto,
{
    if upto - 1 > i {
        lemma_dependency_output_extend(completed, which, i, upto - 1);
    }
}

/// An empty name list has the empty multiset.
proof fn lemma_empty_to_multiset(s: Seq<Seq<char>>)
    requires
        s.len() == 0,
    ensures
        s.to_multiset() == Multiset::<Seq<char>>::empty(),
{
    assert forall|x: Seq<char>| s.to_multiset().count(x) == 0 by {
        if s.to_multiset().count(x) > 0 {
            assert(s.contains(x));
        }
    }
    assert(s.to_multiset() =~= Multiset::<Seq<char>>::empty());
}

/// When the first entry for `name` sits at position `i`, every wider lookup
/// answers its dependency list.
proof fn lemma_deps_of_first(table: Seq<(String, Vec<String>)>, name: Seq<char>, i: int, upto: int)
    requires
        0 <= i < upto <= table.len(),
        table[i].0@ == name,
        forall|j: int| 0 <= j < i ==> (#[trigger] table[j]).0@ != name,
    ensures
        spec_deps_of(table, name, upto) == table[i].1@,
    decreases upto,
{
    if upto - 1 > i {
        lemma_deps_of_first(table, name, i, upto - 1);
    } else {
        lemma_deps_of_none(table, name, i);
    }
}

/// When no entry below `upto` is named `name`, the lookup answers nothing.
proof fn lemma_deps_of_none(table: Seq<(String, Vec<String>)>, name: Seq<char>, upto: int)
    requires
        0 <= upto <= table.len(),
        forall|j: int| 0 <= j < upto ==> (#[trigger] table[j]).0@ != name,
    ensures
        spec_deps_of(table, name, upto) == Seq::<String>::empty(),
    decreases upto,
{
    if upto > 0 {
        lemma_deps_of_none(table, name, upto - 1);
    }
}

/// Returns whether a completed analyzer with the given name exists.
fn completed_contains(completed: &Vec<CompletedAnalyzer>, name: &String) -> (r: bool)
    ensures
        r == spec_completed_names(completed@).contains(name@),
{
    let n = completed.len();
    let mut i: usize = 0;
    while i < n
        invariant
            i <= n,
            n == completed@.len(),
            forall|j: int|
                0 <= j < i ==> (#[trigger] completed@[j]).instance.logical_name@ != name@,
        decreases n - i,
    {
        if completed[i].instance.logical_name == *name {
            proof {
                assert(spec_completed_names(completed@)[i as int] == name@);
            }
            return true;
        }
        i = i + 1;
    }
    proof {
        if spec_completed_names(completed@).contains(name@) {
            let j = choose|j: int|
                0 <= j < completed@.len() && spec_completed_names(completed@)[j] == name@;
            assert(false);
        }
    }
    false
}

/// Returns whether every dependency recorded for `name` is completed.
fn deps_done(
    table: &Vec<(String, Vec<String>)>,
    completed: &Vec<CompletedAnalyzer>,
    name: &String,
) -> (r: bool)
    ensures
        r == spec_deps_satisfied(table@, spec_completed_names(completed@), name@),
{
    let n = table.len();
    let mut i: usize = 0;
    while i < n
        invariant
            i <= n,
            n == table@.len(),
            forall|j: int| 0 <= j < i ==> (#[trigger] table@[j]).0@ != name@,
        decreases n - i,
    {
        if table[i].0 == *name {
            proof {
                lemma_deps_of_first(table@, name@, i as int, n as int);
            }
            let deps = &table[i].1;
            let nd = deps.len();
            let mut k: usize = 0;
            while k < nd
                invariant
                    k <= nd,
                    nd == deps@.len(),
                    deps@ == spec_deps_of(table@, name@, table@.len() as int),
                    forall|j: int|
                        0 <= j < k ==> spec_completed_names(completed@).contains(
                            (#[trigger] deps@[j])@,
                        ),
                decreases nd - k,
            {
                if !completed_contains(completed, &deps[k]) {
                    return false;
                }
                k = k + 1;
            }
            return true;
        }
        i = i + 1;
    }
    proof {
        lemma_deps_of_none(table@, name@, n as int);
    }
    true
}

/// Copies a name list.
fn clone_strings(v: &Vec<String>) -> (r: Vec<String>)
    ensures
        r@ == v@,
{
    let mut out: Vec<String> = Vec::new();
    let n = v.len();
    let mut i: usize = 0;
    while i < n
        invariant
            i <= n,
            n == v@.len(),
            out@ == v@.subrange(0, i as int),
        decreases n - i,
    {
        out.push(v[i].clone());
        proof {
            assert(out@ =~= v@.subrange(0, i + 1));
        }
        i = i + 1;
    }
    proof {
        assert(out@ =~= v@);
    }
    out
}

/// Executes one analyzer against a run context. The output variant always
/// matches the analyzer's implementation.
pub fn run_analyzer(instance: &AnalyzerInstance, context: &Context) -> (r: Result<
    AnalyzerOutput,
    Error,
>)
    requires
        crate::challenge::challenge_wf(context.spec_challenge()),
    ensures
        r matches Ok(o) ==> {
            &&& (instance.kind matches AnalyzerKind::Gear(_) ==> o matches AnalyzerOutput::Gear(_))
            &&& (instance.kind matches AnalyzerKind::Test(_) ==> o matches AnalyzerOutput::Number(
                _,
            ))
            &&& (instance.kind matches AnalyzerKind::TestOffset(_) ==> o matches
                AnalyzerOutput::Number(_))
            &&& (instance.kind matches AnalyzerKind::TobRole(_) ==> o matches AnalyzerOutput::Roles(
                _,
            ))
        },
        spec_kind_infallible(instance.kind) ==> r is Ok,
{
    match &instance.kind {
        AnalyzerKind::Gear(a) => match a.analyze(context) {
            Ok(out) => Ok(AnalyzerOutput::Gear(out)),
            Err(e) => Err(e),
        },
        AnalyzerKind::Test(a) => match a.analyze(context) {
            Ok(out) => Ok(AnalyzerOutput::Number(out)),
            Err(e) => Err(e),
        },
        AnalyzerKind::TestOffset(a) => match a.analyze(context) {
            Ok(out) => Ok(AnalyzerOutput::Number(out)),
            Err(e) => Err(e),
        },
        AnalyzerKind::TobRole(a) => match a.analyze(context) {
            Ok(out) => Ok(AnalyzerOutput::Roles(out)),
            Err(e) => Err(e),
        },
    }
}

impl ProgramRun {
    /// Builds a run for one validated program: instantiates every analyzer
    /// via the implementation registry and places it into the blocked pool,
    /// then unblocks those without dependencies. Fails with a configuration
    /// error when an analyzer's configuration is missing or malformed.
    pub fn new(program: &ProgramConfig, run_number: u64, level: Level) -> (r: Result<
        ProgramRun,
        Error,
    >)
        requires
            crate::program::spec_program_valid(*program),
        ensures
            match r {
                Ok(run) => {
                    &&& run_wf(run)
                    &&& run.spec_completed().len() == 0
                    &&& run.spec_in_flight().len() == 0
                    &&& run.spec_remaining() == program.analyzers@.len()
                    &&& spec_table_names(run.spec_deps_table()) == program.analyzers@.map_values(
                        |e: (String, crate::program::AnalyzerDefinition)| e.0@,
                    )
                    &&& run.spec_run_number() == run_number
                    &&& run.spec_level() == level
                    &&& forall|i: int|
                        0 <= i < run.spec_blocked().len() ==> !spec_deps_satisfied(
                            run.spec_deps_table(),
                            spec_completed_names(run.spec_completed()),
                            (#[trigger] run.spec_blocked()[i]).logical_name@,
                        )
                    &&& (forall|j: int|
                        0 <= j < program.analyzers@.len() ==> ((#[trigger] program.analyzers@[j]).1.implementation@
                            == "TestAnalyzer"@ || program.analyzers@[j].1.implementation@
                            == "TestOffsetAnalyzer"@)) ==> spec_run_infallible(run)
                },
                Err(e) => e matches Error::Config(_),
            },
            r is Err <==> exists|j: int|
                0 <= j < program.analyzers@.len() && spec_def_init_fails(
                    (#[trigger] program.analyzers@[j]).1,
                ),
    {
        let n = program.analyzers.len();
        let mut deps: Vec<(String, Vec<String>)> = Vec::new();
        let mut blocked: Vec<AnalyzerInstance> = Vec::new();
        let mut i: usize = 0;
        while i < n
            invariant
                i <= n,
                n == program.analyzers@.len(),
                deps@.len() == i,
                blocked@.len() == i,
                forall|j: int|
                    0 <= j < i ==> (#[trigger] deps@[j]).0@ == program.analyzers@[j].0@,
                forall|j: int|
                    0 <= j < i ==> (#[trigger] deps@[j]).1@ == crate::program::spec_deps(
                        program.analyzers@[j].1,
                    ),
                forall|j: int|
                    0 <= j < i ==> (#[trigger] blocked@[j]).logical_name@
                        == program.analyzers@[j].0@,
                forall|j: int|
                    0 <= j < i && (program.analyzers@[j].1.implementation@ == "TestAnalyzer"@
                        || program.analyzers@[j].1.implementation@ == "TestOffsetAnalyzer"@)
                        ==> spec_kind_infallible((#[trigger] blocked@[j]).kind),
                forall|j: int|
                    0 <= j < i ==> !spec_def_init_fails((#[trigger] program.analyzers@[j]).1),
            decreases n - i,
        {
            let entry = &program.analyzers[i];
            let instance = match crate::analyzers::init_analyzer(
                &entry.0,
                &entry.1.implementation,
                match &entry.1.config {
                    Some(c) => Some(c),
                    None => None,
                },
            ) {
                Ok(instance) => instance,
                Err(e) => {
                    return Err(e);
                },
            };
            let dep_list = match &entry.1.dependencies {
                Some(d) => clone_strings(d),
                None => Vec::new(),
            };
            deps.push((entry.0.clone(), dep_list));
            blocked.push(instance);
            i = i + 1;
        }

        let mut run = ProgramRun {
            program_name: program.program.name.clone(),
            run_number,
            level,
            analyzers_to_run: n,
            deps,
            blocked,
            pending: Vec::new(),
            in_flight: Vec::new(),
            completed: Vec::new(),
        };
        proof {
            lemma_table_valid_from_program(program.analyzers@, run.deps@);
            assert(spec_instance_names(run.blocked@) =~= spec_table_names(run.deps@));
            assert(spec_instance_names(run.blocked@).to_multiset().add(
                spec_instance_names(run.pending@).to_multiset(),
            ).add(spec_string_views(run.in_flight@).to_multiset()).add(
                spec_completed_names(run.completed@).to_multiset(),
            ) =~= spec_table_names(run.deps@).to_multiset());
            assert(spec_table_names(run.deps@) =~= program.analyzers@.map_values(
                |e: (String, crate::program::AnalyzerDefinition)| e.0@,
            ));
        }
        run.unblock_analyzers();
        Ok(run)
    }

    /// The program the run executes.
    pub fn program_name(&self) -> (r: &String) {
        &self.program_name
    }

    /// The finished analyzers, in completion order.
    pub fn completed(&self) -> (r: &Vec<CompletedAnalyzer>)
        ensures
            r@ == self.spec_completed(),
    {
        &self.completed
    }

    /// The number of analyzers not yet completed.
    pub fn remaining(&self) -> (r: usize)
        ensures
            r == self.spec_remaining(),
    {
        self.analyzers_to_run
    }

    /// Moves every blocked analyzer whose dependencies are all completed
    /// into the pending pool: afterwards no ready analyzer remains blocked,
    /// the pending pool keeps its old entries in place, and blocked and
    /// pending together hold exactly the same instances as before.
    pub fn unblock_analyzers(&mut self)
        requires
            run_wf(*old(self)),
        ensures
            run_wf(*final(self)),
            final(self).spec_completed() == old(self).spec_completed(),
            final(self).spec_in_flight() == old(self).spec_in_flight(),
            final(self).spec_deps_table() == old(self).spec_deps_table(),
            final(self).spec_remaining() == old(self).spec_remaining(),
            final(self).spec_level() == old(self).spec_level(),
            final(self).spec_run_number() == old(self).spec_run_number(),
            final(self).spec_blocked().to_multiset().add(
                final(self).spec_pending().to_multiset(),
            ) == old(self).spec_blocked().to_multiset().add(
                old(self).spec_pending().to_multiset(),
            ),
            final(self).spec_pending().len() >= old(self).spec_pending().len(),
            final(self).spec_pending().subrange(0, old(self).spec_pending().len() as int) == old(
                self,
            ).spec_pending(),
            forall|i: int|
                0 <= i < final(self).spec_blocked().len() ==> !spec_deps_satisfied(
                    final(self).spec_deps_table(),
                    spec_completed_names(final(self).spec_completed()),
                    (#[trigger] final(self).spec_blocked()[i]).logical_name@,
                ),
            spec_run_infallible(*old(self)) ==> spec_run_infallible(*final(self)),
    {
        let mut old_blocked: Vec<AnalyzerInstance> = Vec::new();
        core::mem::swap(&mut old_blocked, &mut self.blocked);
        proof {
            lemma_empty_to_multiset(spec_instance_names(self.blocked@));
            assert(spec_instance_names(old_blocked@).to_multiset().add(
                spec_instance_names(self.blocked@).to_multiset(),
            ).add(spec_instance_names(self.pending@).to_multiset()).add(
                spec_string_views(self.in_flight@).to_multiset(),
            ).add(spec_completed_names(self.completed@).to_multiset()) =~= spec_table_names(
                self.deps@,
            ).to_multiset());
        }
        while old_blocked.len() > 0
            invariant
                run_wf_except_blocked(*self, old_blocked@),
                self.completed@ == old(self).completed@,
                self.in_flight@ == old(self).in_flight@,
                self.deps@ == old(self).deps@,
                self.analyzers_to_run == old(self).analyzers_to_run,
                self.level == old(self).level,
                self.run_number == old(self).run_number,
                old_blocked@.to_multiset().add(self.blocked@.to_multiset()).add(
                    self.pending@.to_multiset(),
                ) == old(self).blocked@.to_multiset().add(old(self).pending@.to_multiset()),
                self.pending@.len() >= old(self).pending@.len(),
                self.pending@.subrange(0, old(self).pending@.len() as int) == old(self).pending@,
                forall|i: int|
                    0 <= i < self.blocked@.len() ==> !spec_deps_satisfied(
                        self.deps@,
                        spec_completed_names(self.completed@),
                        (#[trigger] self.blocked@[i]).logical_name@,
                    ),
                spec_run_infallible(*old(self)) ==> (forall|i: int|
                    0 <= i < old_blocked@.len() ==> spec_kind_infallible(
                        (#[trigger] old_blocked@[i]).kind,
                    )) && (forall|i: int|
                    0 <= i < self.blocked@.len() ==> spec_kind_infallible(
                        (#[trigger] self.blocked@[i]).kind,
                    )) && (forall|i: int|
                    0 <= i < self.pending@.len() ==> spec_kind_infallible(
                        (#[trigger] self.pending@[i]).kind,
                    )),
            decreases old_blocked@.len(),
        {
            let ghost ob0 = old_blocked@;
            let ghost b0 = self.blocked@;
            let ghost p0 = self.pending@;
            let inst = match old_blocked.pop() {
                Some(inst) => inst,
                None => {
                    proof {
                        assert(false);
                    }
                    return ;
                },
            };
            let ready = deps_done(&self.deps, &self.completed, &inst.logical_name);
            if ready {
                self.pending.push(inst);
                proof {
                    assert(ob0 =~= old_blocked@.push(ob0.last()));
                    assert(self.pending@.subrange(0, old(self).pending@.len() as int)
                        =~= p0.subrange(0, old(self).pending@.len() as int));
                    assert(spec_instance_names(self.pending@) =~= spec_instance_names(p0).push(
                        ob0.last().logical_name@,
                    ));
                    assert(spec_instance_names(ob0) =~= spec_instance_names(
                        old_blocked@,
                    ).push(ob0.last().logical_name@));
                    assert forall|j: int|
                        0 <= j < self.pending@.len() implies spec_deps_satisfied(
                        self.deps@,
                        spec_completed_names(self.completed@),
                        (#[trigger] self.pending@[j]).logical_name@,
                    ) by {
                        if j < p0.len() {
                            assert(self.pending@[j] == p0[j]);
                        } else {
                            assert(self.pending@[j].logical_name@ == inst.logical_name@);
                        }
                    }
                    assert(spec_instance_names(old_blocked@).to_multiset().add(
                        spec_instance_names(self.blocked@).to_multiset(),
                    ).add(spec_instance_names(self.pending@).to_multiset()).add(
                        spec_string_views(self.in_flight@).to_multiset(),
                    ).add(spec_completed_names(self.completed@).to_multiset())
                        =~= spec_table_names(self.deps@).to_multiset());
                }
            } else {
                self.blocked.push(inst);
                proof {
                    assert(ob0 =~= old_blocked@.push(ob0.last()));
                    assert(spec_instance_names(self.blocked@) =~= spec_instance_names(b0).push(
                        ob0.last().logical_name@,
                    ));
                    assert(spec_instance_names(ob0) =~= spec_instance_names(
                        old_blocked@,
                    ).push(ob0.last().logical_name@));
                    assert(spec_instance_names(old_blocked@).to_multiset().add(
                        spec_instance_names(self.blocked@).to_multiset(),
                    ).add(spec_instance_names(self.pending@).to_multiset()).add(
                        spec_string_views(self.in_flight@).to_multiset(),
                    ).add(spec_completed_names(self.completed@).to_multiset())
                        =~= spec_table_names(self.deps@).to_multiset());
                }
            }
        }
        proof {
            lemma_empty_to_multiset(spec_instance_names(old_blocked@));
            assert(spec_instance_names(self.blocked@).to_multiset().add(
                spec_instance_names(self.pending@).to_multiset(),
            ).add(spec_string_views(self.in_flight@).to_multiset()).add(
                spec_completed_names(self.completed@).to_multiset(),
            ) =~= spec_table_names(self.deps@).to_multiset());
        }
    }

    /// Takes every pending analyzer for dispatch, marking each in flight.
    /// Every analyzer handed out has all its dependencies completed.
    pub fn take_pending(&mut self) -> (r: Vec<AnalyzerInstance>)
        requires
            run_wf(*old(self)),
        ensures
            run_wf(*final(self)),
            final(self).spec_pending().len() == 0,
            final(self).spec_completed() == old(self).spec_completed(),
            final(self).spec_deps_table() == old(self).spec_deps_table(),
            final(self).spec_remaining() == old(self).spec_remaining(),
            final(self).spec_level() == old(self).spec_level(),
            final(self).spec_run_number() == old(self).spec_run_number(),
            final(self).spec_blocked() == old(self).spec_blocked(),
            r@ == old(self).spec_pending(),
            spec_string_views(final(self).spec_in_flight()).to_multiset() == spec_string_views(
                old(self).spec_in_flight(),
            ).to_multiset().add(spec_instance_names(r@).to_multiset()),
            forall|i: int|
                0 <= i < r@.len() ==> spec_deps_satisfied(
                    final(self).spec_deps_table(),
                    spec_completed_names(final(self).spec_completed()),
                    (#[trigger] r@[i]).logical_name@,
                ),
    {
        let mut batch: Vec<AnalyzerInstance> = Vec::new();
        core::mem::swap(&mut batch, &mut self.pending);
        let n = batch.len();
        let mut i: usize = 0;
        while i < n
            invariant
                i <= n,
                n == batch@.len(),
                batch@ == old(self).pending@,
                self.pending@.len() == 0,
                self.completed@ == old(self).completed@,
                self.deps@ == old(self).deps@,
                self.blocked@ == old(self).blocked@,
                self.analyzers_to_run == old(self).analyzers_to_run,
                self.level == old(self).level,
                self.run_number == old(self).run_number,
                self.in_flight@.len() == old(self).in_flight@.len() + i,
                spec_string_views(self.in_flight@) =~= spec_string_views(old(self).in_flight@)
                    + spec_instance_names(batch@.subrange(0, i as int)),
            decreases n - i,
        {
            let ghost f0 = self.in_flight@;
            self.in_flight.push(batch[i].logical_name.clone());
            proof {
                assert(spec_string_views(self.in_flight@) =~= spec_string_views(f0).push(
                    batch@[i as int].logical_name@,
                ));
                assert(spec_instance_names(batch@.subrange(0, i + 1)) =~= spec_instance_names(
                    batch@.subrange(0, i as int),
                ).push(batch@[i as int].logical_name@));
            }
            i = i + 1;
        }
        proof {
            assert(batch@.subrange(0, n as int) =~= batch@);
            lemma_empty_to_multiset(spec_instance_names(self.pending@));
            vstd::seq_lib::lemma_multiset_commutative(
                spec_string_views(old(self).in_flight@),
                spec_instance_names(batch@),
            );
            assert forall|j: int|
                0 <= j < self.in_flight@.len() implies spec_deps_satisfied(
                self.deps@,
                spec_completed_names(self.completed@),
                (#[trigger] self.in_flight@[j])@,
            ) by {
                if j < old(self).in_flight@.len() {
                    assert(spec_string_views(self.in_flight@)[j] == self.in_flight@[j]@);
                    assert(spec_string_views(old(self).in_flight@)[j]
                        == old(self).in_flight@[j]@);
                    assert(self.in_flight@[j]@ == spec_string_views(old(self).in_flight@)[j]);
                    assert(spec_deps_satisfied(
                        old(self).deps@,
                        spec_completed_names(old(self).completed@),
                        (old(self).spec_in_flight()[j])@,
                    ));
                } else {
                    let k = j - old(self).in_flight@.len();
                    assert(spec_string_views(self.in_flight@)[j] == self.in_flight@[j]@);
                    assert(spec_instance_names(batch@.subrange(0, n as int)) =~= spec_instance_names(
                        batch@,
                    ));
                    assert(spec_string_views(self.in_flight@) == spec_string_views(
                        old(self).in_flight@,
                    ) + spec_instance_names(batch@));
                    assert(self.in_flight@[j]@ == spec_instance_names(batch@)[k]);
                    assert(spec_deps_satisfied(
                        self.deps@,
                        spec_completed_names(self.completed@),
                        batch@[k].logical_name@,
                    ));
                }
            }
            assert(spec_instance_names(self.blocked@).to_multiset().add(
                spec_instance_names(self.pending@).to_multiset(),
            ).add(spec_string_views(self.in_flight@).to_multiset()).add(
                spec_completed_names(self.completed@).to_multiset(),
            ) =~= spec_table_names(self.deps@).to_multiset());
        }
        batch
    }

    /// Records one analyzer's completion: removes it from the in-flight
    /// pool, retains it with its output for downstream dependents, and
    /// unblocks whoever waited on it.
    pub fn handle_completed(&mut self, analyzer: AnalyzerInstance, output: AnalyzerOutput)
        requires
            run_wf(*old(self)),
            spec_string_views(old(self).spec_in_flight()).contains(analyzer.logical_name@),
            spec_deps_satisfied(
                old(self).spec_deps_table(),
                spec_completed_names(old(self).spec_completed()),
                analyzer.logical_name@,
            ),
        ensures
            run_wf(*final(self)),
            final(self).spec_remaining() == old(self).spec_remaining() - 1,
            final(self).spec_deps_table() == old(self).spec_deps_table(),
            final(self).spec_level() == old(self).spec_level(),
            final(self).spec_run_number() == old(self).spec_run_number(),
            spec_completed_names(final(self).spec_completed()) == spec_completed_names(
                old(self).spec_completed(),
            ).push(analyzer.logical_name@),
            spec_string_views(final(self).spec_in_flight()).to_multiset() == spec_string_views(
                old(self).spec_in_flight(),
            ).to_multiset().remove(analyzer.logical_name@),
            forall|i: int|
                0 <= i < final(self).spec_blocked().len() ==> !spec_deps_satisfied(
                    final(self).spec_deps_table(),
                    spec_completed_names(final(self).spec_completed()),
                    (#[trigger] final(self).spec_blocked()[i]).logical_name@,
                ),
            spec_run_infallible(*old(self)) ==> spec_run_infallible(*final(self)),
    {
        let n = self.in_flight.len();
        let mut i: usize = 0;
        let ghost f0 = self.in_flight@;
        while i < n
            invariant
                i <= n,
                n == self.in_flight@.len(),
                self.in_flight@ == f0,
                forall|j: int| 0 <= j < i ==> (#[trigger] f0[j])@ != analyzer.logical_name@,
            decreases n - i,
        {
            if self.in_flight[i] == analyzer.logical_name {
                break ;
            }
            i = i + 1;
        }
        proof {
            if i == n {
                let j = choose|j: int|
                    0 <= j < spec_string_views(f0).len() && spec_string_views(f0)[j]
                        == analyzer.logical_name@;
                assert(false);
            }
        }
        self.in_flight.remove(i);
        let ghost c0 = self.completed@;
        self.completed.push(CompletedAnalyzer { instance: analyzer, output });
        self.analyzers_to_run = self.analyzers_to_run - 1;
        proof {
            assert(spec_string_views(f0.remove(i as int)) =~= spec_string_views(f0).remove(
                i as int,
            ));
            assert(spec_completed_names(self.completed@) =~= spec_completed_names(c0).push(
                analyzer.logical_name@,
            ));
            lemma_wf_after_completion(*old(self), *self, analyzer, i as int);
        }
        self.unblock_analyzers();
    }
}

impl ProgramRun {
    /// Drives the run to completion on the calling thread: repeatedly takes
    /// every ready analyzer, executes it, and records its completion,
    /// unblocking dependents. Fails with the first analyzer error, and with
    /// incomplete data if no analyzer is ready while some remain.
    pub fn run_sync(&mut self, challenge: &Challenge, registry: &Registry) -> (r: Result<(), Error>)
        requires
            run_wf(*old(self)),
            old(self).spec_in_flight().len() == 0,
            crate::challenge::challenge_wf(*challenge),
        ensures
            run_wf(*final(self)),
            r is Ok ==> final(self).spec_remaining() == 0,
            spec_run_infallible(*old(self)) ==> r is Ok,
    {
        self.unblock_analyzers();
        while self.remaining() > 0
            invariant
                run_wf(*self),
                self.spec_in_flight().len() == 0,
                crate::challenge::challenge_wf(*challenge),
                forall|i: int|
                    0 <= i < self.spec_blocked().len() ==> !spec_deps_satisfied(
                        self.spec_deps_table(),
                        spec_completed_names(self.spec_completed()),
                        (#[trigger] self.spec_blocked()[i]).logical_name@,
                    ),
                spec_run_infallible(*old(self)) ==> spec_run_infallible(*self),
            decreases self.spec_remaining(),
        {
            let ghost before = self.spec_remaining();
            let mut batch = self.take_pending();
            if batch.len() == 0 {
                // A validated dependency table always offers a ready
                // analyzer while work remains, so this branch cannot be
                // reached.
                proof {
                    lemma_empty_to_multiset(spec_instance_names(batch@));
                    assert(spec_string_views(self.spec_in_flight()).to_multiset().len() == 0);
                    assert(self.spec_in_flight().len() == 0);
                    assert(self.spec_pending().len() == 0);
                    lemma_ready_blocked_exists(*self);
                    assert(false);
                }
                return Err(Error::IncompleteData);
            }
            let nb = batch.len();
            while batch.len() > 0
                invariant
                    run_wf(*self),
                    crate::challenge::challenge_wf(*challenge),
                    spec_string_views(self.spec_in_flight()).to_multiset() == spec_instance_names(
                        batch@,
                    ).to_multiset(),
                    forall|j: int|
                        0 <= j < batch@.len() ==> spec_deps_satisfied(
                            self.spec_deps_table(),
                            spec_completed_names(self.spec_completed()),
                            (#[trigger] batch@[j]).logical_name@,
                        ),
                    self.spec_remaining() == before - (nb - batch@.len()),
                    forall|i: int|
                        0 <= i < self.spec_blocked().len() ==> !spec_deps_satisfied(
                            self.spec_deps_table(),
                            spec_completed_names(self.spec_completed()),
                            (#[trigger] self.spec_blocked()[i]).logical_name@,
                        ),
                    spec_run_infallible(*old(self)) ==> spec_run_infallible(*self) && (forall|
                        j: int,
                    |
                        0 <= j < batch@.len() ==> spec_kind_infallible(
                            (#[trigger] batch@[j]).kind,
                        )),
                decreases batch@.len(),
            {
                let ghost batch0 = batch@;
                let inst = match batch.pop() {
                    Some(inst) => inst,
                    None => {
                        proof {
                            assert(false);
                        }
                        return Err(Error::IncompleteData);
                    },
                };
                let output = {
                    let ctx = Context::new(challenge, registry, self.level, &self.completed);
                    run_analyzer(&inst, &ctx)
                };
                let output = match output {
                    Ok(output) => output,
                    Err(e) => {
                        // The analyzer failed; the run fails with its error
                        // and the remaining work is abandoned. Analyzers
                        // that cannot fail never reach this arm.
                        proof {
                            if spec_run_infallible(*old(self)) {
                                assert(spec_kind_infallible(batch0.last().kind));
                                assert(false);
                            }
                        }
                        return Err(e);
                    },
                };
                proof {
                    assert(spec_instance_names(batch0) =~= spec_instance_names(batch@).push(
                        inst.logical_name@,
                    ));
                    assert(spec_string_views(self.spec_in_flight()).to_multiset().count(
                        inst.logical_name@,
                    ) > 0);
                    assert(spec_string_views(self.spec_in_flight()).contains(inst.logical_name@));
                }
                let ghost deps_table = self.spec_deps_table();
                let ghost done_before = spec_completed_names(self.spec_completed());
                self.handle_completed(inst, output);
                proof {
                    assert forall|j: int|
                        0 <= j < batch@.len() implies spec_deps_satisfied(
                        self.spec_deps_table(),
                        spec_completed_names(self.spec_completed()),
                        (#[trigger] batch@[j]).logical_name@,
                    ) by {
                        assert(batch@[j] == batch0[j]);
                        lemma_satisfied_monotone(
                            deps_table,
                            done_before,
                            spec_completed_names(self.spec_completed()),
                            batch@[j].logical_name@,
                        );
                    }
                }
            }
            proof {
                lemma_empty_to_multiset(spec_instance_names(batch@));
                assert(spec_string_views(self.spec_in_flight()).to_multiset().len() == 0);
                assert(self.spec_in_flight().len() == 0);
            }
        }
        Ok(())
    }
}

/// Dependency satisfaction is monotone as the completed names grow by one.
proof fn lemma_satisfied_monotone(
    table: Seq<(String, Vec<String>)>,
    done0: Seq<Seq<char>>,
    done1: Seq<Seq<char>>,
    name: Seq<char>,
)
    requires
        spec_deps_satisfied(table, done0, name),
        done1.len() >= done0.len(),
        forall|i: int| 0 <= i < done0.len() ==> done1[i] == done0[i],
    ensures
        spec_deps_satisfied(table, done1, name),
{
    assert forall|k: int|
        0 <= k < spec_deps_of(table, name, table.len() as int).len() implies done1.contains(
        (#[trigger] spec_deps_of(table, name, table.len() as int)[k])@,
    ) by {
        let d = spec_deps_of(table, name, table.len() as int)[k]@;
        assert(done0.contains(d));
        let w = choose|w: int| 0 <= w < done0.len() && done0[w] == d;
        assert(done1[w] == d);
    }
}

/// With unique table names, the dependency lookup for an entry's own name
/// answers that entry's list.
proof fn lemma_deps_of_unique(table: Seq<(String, Vec<String>)>, idx: int)
    requires
        forall|i: int, j: int|
            0 <= i < j < table.len() ==> (#[trigger] table[i]).0@ != (#[trigger] table[j]).0@,
        0 <= idx < table.len(),
    ensures
        spec_deps_of(table, table[idx].0@, table.len() as int) == table[idx].1@,
{
    assert forall|j: int| 0 <= j < idx implies (#[trigger] table[j]).0@ != table[idx].0@ by {}
    lemma_deps_of_first(table, table[idx].0@, idx, table.len() as int);
}

/// The earliest position of `order` whose entry name is not completed, given
/// one such position exists.
proof fn lemma_first_name_undone(
    order: Seq<int>,
    table: Seq<(String, Vec<String>)>,
    done: Seq<Seq<char>>,
    j: int,
) -> (p: int)
    requires
        0 <= j < order.len(),
        forall|q: int| 0 <= q < order.len() ==> 0 <= #[trigger] order[q] < table.len(),
        !done.contains(table[order[j]].0@),
    ensures
        0 <= p <= j,
        !done.contains(table[order[p]].0@),
        forall|q: int| 0 <= q < p ==> done.contains(table[#[trigger] order[q]].0@),
    decreases j,
{
    if forall|q: int| 0 <= q < j ==> done.contains(table[#[trigger] order[q]].0@) {
        j
    } else {
        let w = choose|w: int| 0 <= w < j && !done.contains(table[#[trigger] order[w]].0@);
        lemma_first_name_undone(order, table, done, w)
    }
}

/// A run whose pending and in-flight pools are empty but has work remaining
/// always holds a ready blocked analyzer: the table's acyclicity makes the
/// scheduler's progress certain.
proof fn lemma_ready_blocked_exists(r: ProgramRun)
    requires
        run_wf(r),
        r.spec_pending().len() == 0,
        r.spec_in_flight().len() == 0,
        r.spec_remaining() > 0,
    ensures
        exists|i: int|
            0 <= i < r.spec_blocked().len() && spec_deps_satisfied(
                r.spec_deps_table(),
                spec_completed_names(r.spec_completed()),
                (#[trigger] r.spec_blocked()[i]).logical_name@,
            ),
{
    broadcast use vstd::seq_lib::group_seq_properties;

    if exists|i: int|
        0 <= i < r.spec_blocked().len() && spec_deps_satisfied(
            r.spec_deps_table(),
            spec_completed_names(r.spec_completed()),
            (#[trigger] r.spec_blocked()[i]).logical_name@,
        ) {
        return ;
    }

    let table = r.spec_deps_table();
    let done = spec_completed_names(r.spec_completed());
    let blocked_names = spec_instance_names(r.spec_blocked());
    let table_names = spec_table_names(table);

    // The partition reduces to: blocked names plus completed names are the
    // table names.
    lemma_empty_to_multiset(spec_instance_names(r.spec_pending()));
    lemma_empty_to_multiset(spec_string_views(r.spec_in_flight()));
    assert(blocked_names.to_multiset().add(done.to_multiset()) =~= table_names.to_multiset());

    // Table names are unique, so each occurs at most once overall.
    assert(table_names.no_duplicates()) by {
        assert forall|i: int, j: int|
            0 <= i < table_names.len() && 0 <= j < table_names.len() && i != j implies
            table_names[i] != table_names[j] by {
            if i < j {
                assert(table[i].0@ != table[j].0@);
            } else {
                assert(table[j].0@ != table[i].0@);
            }
        }
    }
    table_names.lemma_multiset_has_no_duplicates();

    // A blocked analyzer exists, and its name is not completed.
    assert(r.spec_blocked().len() > 0);
    let name0 = r.spec_blocked()[0].logical_name@;
    assert(blocked_names[0] == name0);
    assert(blocked_names.contains(name0));
    assert(blocked_names.to_multiset().count(name0) > 0);
    assert(table_names.to_multiset().count(name0) >= 1);
    assert(table_names.to_multiset().contains(name0));
    assert(table_names.to_multiset().count(name0) == 1);
    assert(done.to_multiset().count(name0) == 0);
    assert(!done.contains(name0)) by {
        if done.contains(name0) {
            assert(done.to_multiset().count(name0) > 0);
        }
    }
    assert(table_names.contains(name0));
    let i0 = choose|i0: int| 0 <= i0 < table_names.len() && table_names[i0] == name0;
    assert(table[i0].0@ == name0);

    // Walk the topological order to its first uncompleted entry.
    let order = choose|order: Seq<int>| spec_table_topo(order, table);
    assert(order.contains(i0));
    let j = choose|j: int| 0 <= j < order.len() && order[j] == i0;
    let p = lemma_first_name_undone(order, table, done, j);
    let node = order[p];
    let node_name = table[node].0@;

    // The entry at `p` is blocked, so some dependency of it is uncompleted.
    assert(table_names[node] == node_name);
    assert(table_names.contains(node_name));
    assert(table_names.to_multiset().count(node_name) == 1);
    assert(done.to_multiset().count(node_name) == 0);
    assert(blocked_names.to_multiset().count(node_name) >= 1) by {
        if blocked_names.to_multiset().count(node_name) == 0 {
            assert(table_names.to_multiset().count(node_name) == 0);
        }
    }
    assert(blocked_names.to_multiset().contains(node_name));
    assert(blocked_names.contains(node_name));
    let b = choose|b: int| 0 <= b < blocked_names.len() && blocked_names[b] == node_name;
    assert(r.spec_blocked()[b].logical_name@ == node_name);
    assert(!spec_deps_satisfied(table, done, node_name));
    lemma_deps_of_unique(table, node);
    let k = choose|k: int|
        0 <= k < spec_deps_of(table, node_name, table.len() as int).len() && !done.contains(
            (#[trigger] spec_deps_of(table, node_name, table.len() as int)[k])@,
        );
    let dep_name = (table[node].1@[k])@;
    assert(!done.contains(dep_name));

    // But the topological order placed that dependency strictly earlier,
    // where everything is completed.
    assert(spec_table_order_dep_ok(order, table, p));
    assert(spec_table_dep_before(order, table, p, k));
    let q = choose|q: int| 0 <= q < p && table[#[trigger] order[q]].0@ == (table[order[p]].1@[k])@;
    assert(done.contains(table[order[q]].0@));
    assert(false);
}

/// The run invariants with the blocked pool extended by a residue still
/// being partitioned.
pub open spec fn run_wf_except_blocked(r: ProgramRun, residue: Seq<AnalyzerInstance>) -> bool {
    &&& spec_table_valid(r.spec_deps_table())
    &&& spec_instance_names(residue).to_multiset().add(
        spec_instance_names(r.spec_blocked()).to_multiset(),
    ).add(spec_instance_names(r.spec_pending()).to_multiset()).add(
        spec_string_views(r.spec_in_flight()).to_multiset(),
    ).add(spec_completed_names(r.spec_completed()).to_multiset()) == spec_table_names(
        r.spec_deps_table(),
    ).to_multiset()
    &&& forall|i: int|
        0 <= i < r.spec_pending().len() ==> spec_deps_satisfied(
            r.spec_deps_table(),
            spec_completed_names(r.spec_completed()),
            (#[trigger] r.spec_pending()[i]).logical_name@,
        )
    &&& forall|i: int|
        0 <= i < r.spec_in_flight().len() ==> spec_deps_satisfied(
            r.spec_deps_table(),
            spec_completed_names(r.spec_completed()),
            (#[trigger] r.spec_in_flight()[i])@,
        )
    &&& forall|i: int|
        0 <= i < r.spec_completed().len() ==> spec_deps_satisfied(
            r.spec_deps_table(),
            spec_completed_names(r.spec_completed().subrange(0, i)),
            (#[trigger] r.spec_completed()[i]).instance.logical_name@,
        )
    &&& r.spec_remaining() == residue.len() + r.spec_blocked().len() + r.spec_pending().len()
        + r.spec_in_flight().len()
}

/// The names of a prefix of a completed list are the prefix of its names.
proof fn lemma_completed_names_subrange(v: Seq<CompletedAnalyzer>, j: int)
    requires
        0 <= j <= v.len(),
    ensures
        spec_completed_names(v.subrange(0, j)) == spec_completed_names(v).subrange(0, j),
{
    assert(spec_completed_names(v.subrange(0, j)) =~= spec_completed_names(v).subrange(0, j));
}

/// Completion preserves the run invariants: satisfied dependencies stay
/// satisfied as the completed list grows.
proof fn lemma_wf_after_completion(
    before: ProgramRun,
    after: ProgramRun,
    analyzer: AnalyzerInstance,
    i: int,
)
    requires
        run_wf(before),
        0 <= i < before.spec_in_flight().len(),
        before.spec_in_flight()[i]@ == analyzer.logical_name@,
        spec_deps_satisfied(
            before.spec_deps_table(),
            spec_completed_names(before.spec_completed()),
            analyzer.logical_name@,
        ),
        after.spec_deps_table() == before.spec_deps_table(),
        after.spec_blocked() == before.spec_blocked(),
        after.spec_pending() == before.spec_pending(),
        after.spec_in_flight() == before.spec_in_flight().remove(i),
        spec_completed_names(after.spec_completed()) == spec_completed_names(
            before.spec_completed(),
        ).push(analyzer.logical_name@),
        after.spec_remaining() == before.spec_remaining() - 1,
    ensures
        run_wf(after),
{
    broadcast use vstd::seq_lib::group_to_multiset_ensures;
    broadcast use vstd::multiset::group_multiset_axioms;

    let table = before.spec_deps_table();
    let done0 = spec_completed_names(before.spec_completed());
    let done1 = spec_completed_names(after.spec_completed());
    assert(done1 =~= done0.push(analyzer.logical_name@));

    // Satisfaction is monotone in the completed names.
    assert forall|name: Seq<char>|
        spec_deps_satisfied(table, done0, name) implies spec_deps_satisfied(
        table,
        done1,
        name,
    ) by {
        assert forall|k: int|
            0 <= k < spec_deps_of(table, name, table.len() as int).len() implies done1.contains(
            (#[trigger] spec_deps_of(table, name, table.len() as int)[k])@,
        ) by {
            let d = spec_deps_of(table, name, table.len() as int)[k]@;
            assert(done0.contains(d));
            let w = choose|w: int| 0 <= w < done0.len() && done0[w] == d;
            assert(done1[w] == d);
        }
    }

    // Pending and remaining in-flight analyzers stay satisfied.
    assert forall|j: int|
        0 <= j < after.spec_in_flight().len() implies spec_deps_satisfied(
        table,
        done1,
        (#[trigger] after.spec_in_flight()[j])@,
    ) by {
        if j < i {
            assert(after.spec_in_flight()[j] == before.spec_in_flight()[j]);
        } else {
            assert(after.spec_in_flight()[j] == before.spec_in_flight()[j + 1]);
        }
    }

    // The completion order extends by one satisfied entry.
    assert forall|j: int|
        0 <= j < after.spec_completed().len() implies spec_deps_satisfied(
        table,
        spec_completed_names(after.spec_completed().subrange(0, j)),
        (#[trigger] after.spec_completed()[j]).instance.logical_name@,
    ) by {
        assert(spec_completed_names(after.spec_completed())[j]
            == after.spec_completed()[j].instance.logical_name@);
        lemma_completed_names_subrange(after.spec_completed(), j);
        if j < before.spec_completed().len() {
            lemma_completed_names_subrange(before.spec_completed(), j);
            assert(spec_completed_names(after.spec_completed()).subrange(0, j)
                =~= spec_completed_names(before.spec_completed()).subrange(0, j));
            assert(after.spec_completed()[j].instance.logical_name@
                == before.spec_completed()[j].instance.logical_name@);
            assert(spec_deps_satisfied(
                table,
                spec_completed_names(before.spec_completed().subrange(0, j)),
                before.spec_completed()[j].instance.logical_name@,
            ));
        } else {
            assert(spec_completed_names(after.spec_completed()).subrange(0, j) =~= done0);
            assert(after.spec_completed()[j].instance.logical_name@ == analyzer.logical_name@);
        }
    }

    // The name partition is preserved: one name moves from in-flight to
    // completed.
    let f0 = spec_string_views(before.spec_in_flight());
    let f1 = spec_string_views(after.spec_in_flight());
    assert(f1 =~= f0.remove(i));
    assert(f0.remove(i).to_multiset() == f0.to_multiset().remove(f0[i]));
    assert(spec_instance_names(after.spec_blocked()).to_multiset().add(
        spec_instance_names(after.spec_pending()).to_multiset(),
    ).add(f1.to_multiset()).add(done1.to_multiset()) =~= spec_table_names(table).to_multiset());
}

} // verus!
