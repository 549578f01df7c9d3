//! Configuration management: the rules that a configuration has to meet
//! before the supervisor takes it, and the order in which its processes start.

use crate::engine::dependency::{
    closed_graph, cyclic, dependencies_first, depends_on, depth_first_order, depth_first_search,
    lemma_cycle_in_graph,
    graph_of, names_each_once, on_path_to, order_graph, placed_before, reaches, search_state,
    unvisited, visit,
};
use crate::error::{Result, SentinelError, SentinelErrorView};
use crate::models::config::{Config, GlobalSettings, ProcessConfig, ProcessConfigView};
use crate::text::{is_blank, push_text, str_eq, str_is_blank};
use vstd::prelude::*;

verus! {

/// The names of a list of processes, in declaration order.
pub open spec fn names_of(procs: Seq<ProcessConfigView>) -> Seq<Seq<char>> {
    Seq::new(procs.len(), |i: int| procs[i].name)
}

/// The first position from `from` on at which `name` stands in `names`, or
/// the length of `names` where it stands at none.
pub open spec fn index_from(names: Seq<Seq<char>>, name: Seq<char>, from: int) -> int
    decreases names.len() - from,
{
    if from < 0 || from >= names.len() {
        names.len() as int
    } else if names[from] == name {
        from
    } else {
        index_from(names, name, from + 1)
    }
}

/// The first position at which `name` stands in `names`, or the length of
/// `names` where it stands at none.
pub open spec fn index_of(names: Seq<Seq<char>>, name: Seq<char>) -> int {
    index_from(names, name, 0)
}

/// Whether `name` is one of `names`.
pub open spec fn is_known(names: Seq<Seq<char>>, name: Seq<char>) -> bool {
    index_of(names, name) < names.len()
}

/// The first position from `from` on whose name also stands at an earlier
/// position, or the length of `names` where there is none.
pub open spec fn duplicate_from(names: Seq<Seq<char>>, from: int) -> int
    decreases names.len() - from,
{
    if from < 0 || from >= names.len() {
        names.len() as int
    } else if index_of(names, names[from]) < from {
        from
    } else {
        duplicate_from(names, from + 1)
    }
}

/// The position of the first name that repeats an earlier one, or the length
/// of `names` where all names differ.
pub open spec fn first_duplicate(names: Seq<Seq<char>>) -> int {
    duplicate_from(names, 0)
}

/// The first position from `from` on in `deps` that holds a name which is
/// none of `names`, or the length of `deps` where there is none.
pub open spec fn unknown_from(deps: Seq<Seq<char>>, names: Seq<Seq<char>>, from: int) -> int
    decreases deps.len() - from,
{
    if from < 0 || from >= deps.len() {
        deps.len() as int
    } else if !is_known(names, deps[from]) {
        from
    } else {
        unknown_from(deps, names, from + 1)
    }
}

/// What is wrong with one process, if anything: a blank name, a blank
/// command, or the first of its dependencies that names no process.
pub open spec fn process_fault(p: ProcessConfigView, names: Seq<Seq<char>>) -> Option<
    SentinelErrorView,
> {
    if is_blank(p.name) {
        Some(SentinelErrorView::InvalidConfig { reason: "Process name cannot be empty"@ })
    } else if is_blank(p.command) {
        Some(
            SentinelErrorView::InvalidConfig {
                reason: "Process '"@ + p.name + "' has empty command"@,
            },
        )
    } else {
        dependency_fault(p, names)
    }
}

/// The first dependency of a process that names no process, as a fault.
pub open spec fn dependency_fault(p: ProcessConfigView, names: Seq<Seq<char>>) -> Option<
    SentinelErrorView,
> {
    if unknown_from(p.depends_on, names, 0) < p.depends_on.len() {
        Some(
            SentinelErrorView::UnknownDependency {
                process: p.name,
                dependency: p.depends_on[unknown_from(p.depends_on, names, 0)],
            },
        )
    } else {
        None
    }
}

/// The dependency fault of the first process from `from` on that has one.
pub open spec fn dependency_fault_from(
    procs: Seq<ProcessConfigView>,
    names: Seq<Seq<char>>,
    from: int,
) -> Option<SentinelErrorView>
    decreases procs.len() - from,
{
    if from < 0 || from >= procs.len() {
        None
    } else if dependency_fault(procs[from], names) is Some {
        dependency_fault(procs[from], names)
    } else {
        dependency_fault_from(procs, names, from + 1)
    }
}

/// What keeps a list of processes from being ordered, cycles aside: a
/// repeated name first, else the first dependency that names no process.
pub open spec fn ordering_fault(procs: Seq<ProcessConfigView>) -> Option<SentinelErrorView> {
    if duplicate_fault(names_of(procs)) is Some {
        duplicate_fault(names_of(procs))
    } else {
        dependency_fault_from(procs, names_of(procs), 0)
    }
}

/// Whether in `order`, a list of process names, every process stands after
/// each process that it depends on.
pub open spec fn starts_after_dependencies(procs: Seq<ProcessConfigView>, order: Seq<Seq<char>>) -> bool {
    forall|i: int, k: int, p: int|
        0 <= i < procs.len() && 0 <= k < procs[i].depends_on.len() && 0 <= p < order.len()
            && order[p] == procs[i].name ==> #[trigger] stands_before(
            order,
            procs[i].depends_on[k],
            p,
        )
}

/// Whether `name` stands in `order` before position `p`.
pub open spec fn stands_before(order: Seq<Seq<char>>, name: Seq<char>, p: int) -> bool {
    exists|q: int| 0 <= q < p && #[trigger] order[q] == name
}

/// Whether `order` holds the name of every process exactly once.
pub open spec fn lists_each_process_once(procs: Seq<ProcessConfigView>, order: Seq<Seq<char>>) -> bool {
    &&& order.no_duplicates()
    &&& forall|p: int| 0 <= p < order.len() ==> is_known(names_of(procs), #[trigger] order[p])
    &&& forall|i: int| 0 <= i < procs.len() ==> order.contains(#[trigger] procs[i].name)
}

/// The fault of the first process from `from` on that has one.
pub open spec fn fault_from(procs: Seq<ProcessConfigView>, names: Seq<Seq<char>>, from: int) -> Option<
    SentinelErrorView,
>
    decreases procs.len() - from,
{
    if from < 0 || from >= procs.len() {
        None
    } else if process_fault(procs[from], names) is Some {
        process_fault(procs[from], names)
    } else {
        fault_from(procs, names, from + 1)
    }
}

/// What names the first repeated name as a fault.
pub open spec fn duplicate_fault(names: Seq<Seq<char>>) -> Option<SentinelErrorView> {
    if first_duplicate(names) < names.len() {
        Some(
            SentinelErrorView::InvalidConfig {
                reason: "Duplicate process name: '"@ + names[first_duplicate(names)] + "'"@,
            },
        )
    } else {
        None
    }
}

/// What is wrong with a list of processes, cycles aside: a repeated name
/// first, else the fault of the first process that has one.
pub open spec fn config_fault(procs: Seq<ProcessConfigView>) -> Option<SentinelErrorView> {
    if duplicate_fault(names_of(procs)) is Some {
        duplicate_fault(names_of(procs))
    } else {
        fault_from(procs, names_of(procs), 0)
    }
}

/// Whether every dependency of every process names a process of the list.
pub open spec fn dependencies_known(procs: Seq<ProcessConfigView>) -> bool {
    forall|i: int, k: int|
        0 <= i < procs.len() && 0 <= k < procs[i].depends_on.len() ==> is_known(
            names_of(procs),
            #[trigger] procs[i].depends_on[k],
        )
}

/// The dependency graph of a list of processes: row `i` holds, for each
/// dependency of process `i`, the index of the first process of that name,
/// and the number of processes where no process bears the name.
pub open spec fn dependency_rows(procs: Seq<ProcessConfigView>) -> Seq<Seq<usize>> {
    Seq::new(
        procs.len(),
        |i: int|
            Seq::new(
                procs[i].depends_on.len(),
                |k: int| index_of(names_of(procs), procs[i].depends_on[k]) as usize,
            ),
    )
}

/// Whether `deps` names two processes on a dependency cycle: first one that
/// is depended on, then one that names it among its dependencies although
/// the first depends, directly or through others, on the second.
pub open spec fn is_cycle_witness(procs: Seq<ProcessConfigView>, deps: Seq<Seq<char>>) -> bool {
    exists|dependency: int, dependent: int|
        {
            &&& 0 <= dependency < procs.len()
            &&& 0 <= dependent < procs.len()
            &&& deps == seq![procs[dependency].name, procs[dependent].name]
            &&& #[trigger] depends_on(dependency_rows(procs), dependent, dependency)
            &&& reaches(dependency_rows(procs), dependency, dependent)
        }
}

/// The names that stand at the given indices.
pub open spec fn names_at(names: Seq<Seq<char>>, order: Seq<usize>) -> Seq<Seq<char>> {
    Seq::new(order.len(), |p: int| names[order[p] as int])
}

/// The names of a list of processes, in declaration order.
pub fn process_names(processes: &Vec<ProcessConfig>) -> (names: Vec<String>)
    ensures
        names.deep_view() == names_of(processes.deep_view()),
{
    let mut names: Vec<String> = Vec::new();
    let mut i: usize = 0;
    while i < processes.len()
        invariant
            i <= processes.len(),
            names@.len() == i,
            forall|j: int| 0 <= j < i ==> (#[trigger] names@[j])@ == processes@[j].name@,
        decreases processes.len() - i,
    {
        names.push(processes[i].name.clone());
        i = i + 1;
    }
    assert(names.deep_view() =~= names_of(processes.deep_view()));
    names
}

/// Finds the first position at which `name` stands in `names`.
pub fn find_name(names: &Vec<String>, name: &str) -> (found: Option<usize>)
    ensures
        match found {
            Some(i) => i < names.len() && i == index_of(names.deep_view(), name@),
            None => index_of(names.deep_view(), name@) == names.len(),
        },
{
    let ghost all = names.deep_view();
    let mut i: usize = 0;
    while i < names.len()
        invariant
            i <= names.len(),
            all == names.deep_view(),
            index_from(all, name@, i as int) == index_of(all, name@),
        decreases names.len() - i,
    {
        assert(all[i as int] == names@[i as int]@);
        if str_eq(names[i].as_str(), name) {
            return Some(i);
        }
        i = i + 1;
    }
    None
}

/// Where `index_from` finds a name, the name stands there, and at no
/// position between `from` and there.
pub proof fn lemma_index_from(names: Seq<Seq<char>>, name: Seq<char>, from: int)
    requires
        0 <= from <= names.len(),
    ensures
        from <= index_from(names, name, from) <= names.len(),
        index_from(names, name, from) < names.len() ==> names[index_from(names, name, from)] == name,
        forall|j: int| from <= j < index_from(names, name, from) ==> #[trigger] names[j] != name,
    decreases names.len() - from,
{
    if from < names.len() && names[from] != name {
        lemma_index_from(names, name, from + 1);
    }
}

/// A name that stands in `names` is known, and is found at or before any
/// position at which it stands.
pub proof fn lemma_index_of_member(names: Seq<Seq<char>>, at: int)
    requires
        0 <= at < names.len(),
    ensures
        0 <= index_of(names, names[at]) <= at,
        names[index_of(names, names[at])] == names[at],
{
    lemma_index_from(names, names[at], 0);
}

/// In a list without a repeated name every name is found where it stands.
pub proof fn lemma_unique_names(names: Seq<Seq<char>>, from: int)
    requires
        0 <= from <= names.len(),
        duplicate_from(names, from) >= names.len(),
    ensures
        forall|j: int| from <= j < names.len() ==> index_of(names, #[trigger] names[j]) == j,
    decreases names.len() - from,
{
    if from < names.len() {
        lemma_index_of_member(names, from);
        lemma_unique_names(names, from + 1);
    }
}

/// The processes of a configuration.
pub struct ConfigManager;

impl ConfigManager {
    /// Generates a default configuration: one example process and the
    /// default settings.
    pub fn default_config() -> (config: Config)
        ensures
            config.processes@.len() == 1,
            config.processes@[0].name@ == "example"@,
            config.processes@[0].command@ == "echo 'Hello from Sentinel'"@,
            config.processes@[0].args@.len() == 0,
            config.processes@[0].cwd is None,
            config.processes@[0].env@.len() == 0,
            config.processes@[0].auto_restart,
            config.processes@[0].restart_limit == 5,
            config.processes@[0].restart_delay == 1000,
            config.processes@[0].depends_on@.len() == 0,
            config.processes@[0].health_check is None,
            config.settings.log_level@ == "info"@,
            config.settings.log_directory is None,
            config.settings.max_log_size == 10 * 1024 * 1024,
            config.settings.max_log_files == 5,
            config.settings.graceful_shutdown_timeout == 30_000,
            config.global_env@.len() == 0,
    {
        let example = ProcessConfig {
            name: "example".to_owned(),
            command: "echo 'Hello from Sentinel'".to_owned(),
            args: Vec::new(),
            cwd: None,
            env: Vec::new(),
            auto_restart: true,
            restart_limit: 5,
            restart_delay: 1000,
            depends_on: Vec::new(),
            health_check: None,
        };
        let mut processes: Vec<ProcessConfig> = Vec::new();
        processes.push(example);
        Config { processes, settings: GlobalSettings::default(), global_env: Vec::new() }
    }

    /// Validates a single process configuration against the names of all
    /// processes: its name and its command must not be blank, and each of its
    /// dependencies must name a process.
    pub fn validate_process(process: &ProcessConfig, all_names: &Vec<String>) -> (r: Result<()>)
        ensures
            match process_fault(process@, all_names.deep_view()) {
                Some(expected) => r matches Err(e) && e@ == expected,
                None => r is Ok,
            },
    {
        if str_is_blank(process.name.as_str()) {
            return Err(SentinelError::InvalidConfig { reason: "Process name cannot be empty".to_owned() });
        }
        if str_is_blank(process.command.as_str()) {
            let mut reason = String::new();
            push_text(&mut reason, "Process '");
            push_text(&mut reason, process.name.as_str());
            push_text(&mut reason, "' has empty command");
            assert(reason@ =~= "Process '"@ + process@.name + "' has empty command"@);
            return Err(SentinelError::InvalidConfig { reason });
        }
        Self::check_dependencies(process, all_names)
    }

    /// Checks that each dependency of a process names one of `all_names`,
    /// and reports the first that does not.
    pub fn check_dependencies(process: &ProcessConfig, all_names: &Vec<String>) -> (r: Result<()>)
        ensures
            match dependency_fault(process@, all_names.deep_view()) {
                Some(expected) => r matches Err(e) && e@ == expected,
                None => r is Ok,
            },
            r is Ok ==> forall|k: int|
                0 <= k < process@.depends_on.len() ==> is_known(
                    all_names.deep_view(),
                    #[trigger] process@.depends_on[k],
                ),
    {
        let ghost deps = process@.depends_on;
        let ghost names = all_names.deep_view();
        let mut k: usize = 0;
        while k < process.depends_on.len()
            invariant
                k <= process.depends_on.len(),
                deps == process@.depends_on,
                deps.len() == process.depends_on.len(),
                names == all_names.deep_view(),
                unknown_from(deps, names, k as int) == unknown_from(deps, names, 0),
                forall|j: int| 0 <= j < k ==> is_known(names, #[trigger] deps[j]),
            decreases process.depends_on.len() - k,
        {
            let dependency = &process.depends_on[k];
            assert(deps[k as int] == dependency@);
            match find_name(all_names, dependency.as_str()) {
                Some(_) => {},
                None => {
                    assert(!is_known(names, deps[k as int]));
                    assert(unknown_from(deps, names, k as int) == k);
                    return Err(
                        SentinelError::UnknownDependency {
                            process: process.name.clone(),
                            dependency: dependency.clone(),
                        },
                    );
                },
            }
            k = k + 1;
        }
        Ok(())
    }

    /// Rejects a list of names in which one stands twice.
    pub fn check_unique_names(names: &Vec<String>) -> (r: Result<()>)
        ensures
            match duplicate_fault(names.deep_view()) {
                Some(expected) => r matches Err(e) && e@ == expected,
                None => r is Ok,
            },
    {
        let ghost all = names.deep_view();
        let mut j: usize = 0;
        while j < names.len()
            invariant
                j <= names.len(),
                all == names.deep_view(),
                duplicate_from(all, j as int) == first_duplicate(all),
            decreases names.len() - j,
        {
            assert(all[j as int] == names@[j as int]@);
            proof {
                lemma_index_of_member(all, j as int);
            }
            match find_name(names, names[j].as_str()) {
                Some(first) => {
                    if first < j {
                        let mut reason = String::new();
                        push_text(&mut reason, "Duplicate process name: '");
                        push_text(&mut reason, names[j].as_str());
                        push_text(&mut reason, "'");
                        assert(reason@ =~= "Duplicate process name: '"@ + all[j as int] + "'"@);
                        return Err(SentinelError::InvalidConfig { reason });
                    }
                },
                None => {},
            }
            j = j + 1;
        }
        Ok(())
    }

    /// Builds the dependency graph of a list of processes: for each
    /// dependency the index of the first process of that name, and the number
    /// of processes, which is no index of the graph, for a name that no
    /// process bears.
    pub fn resolve_dependencies(processes: &Vec<ProcessConfig>, names: &Vec<String>) -> (rows: Vec<
        Vec<usize>,
    >)
        requires
            names.deep_view() == names_of(processes.deep_view()),
        ensures
            graph_of(rows@) == dependency_rows(processes.deep_view()),
            dependencies_known(processes.deep_view()) ==> closed_graph(graph_of(rows@)),
    {
        let ghost procs = processes.deep_view();
        let ghost all = names.deep_view();
        assert(all.len() == processes.len());
        let mut rows: Vec<Vec<usize>> = Vec::new();
        let mut i: usize = 0;
        while i < processes.len()
            invariant
                i <= processes.len(),
                procs == processes.deep_view(),
                all == names.deep_view(),
                all == names_of(procs),
                names.len() == processes.len(),
                rows@.len() == i,
                forall|u: int| 0 <= u < i ==> (#[trigger] rows@[u])@ == dependency_rows(procs)[u],
            decreases processes.len() - i,
        {
            let process = &processes[i];
            assert(procs[i as int] == process@);
            let mut row: Vec<usize> = Vec::new();
            let mut k: usize = 0;
            while k < process.depends_on.len()
                invariant
                    k <= process.depends_on.len(),
                    i < processes.len(),
                    procs == processes.deep_view(),
                    procs[i as int] == process@,
                    all == names.deep_view(),
                    all == names_of(procs),
                    names.len() == processes.len(),
                    row@.len() == k,
                    forall|j: int|
                        0 <= j < k ==> #[trigger] row@[j] == index_of(all, procs[i as int].depends_on[j]),
                decreases process.depends_on.len() - k,
            {
                let dependency = &process.depends_on[k];
                assert(procs[i as int].depends_on[k as int] == dependency@);
                match find_name(names, dependency.as_str()) {
                    Some(index) => {
                        row.push(index);
                    },
                    None => {
                        row.push(names.len());
                    },
                }
                k = k + 1;
            }
            assert(row@ =~= dependency_rows(procs)[i as int]);
            rows.push(row);
            i = i + 1;
        }
        proof {
            let g = graph_of(rows@);
            assert(g =~= dependency_rows(procs));
            if dependencies_known(procs) {
                assert forall|u: int, k: int| 0 <= u < g.len() && 0 <= k < g[u].len() implies #[trigger] g[u][k]
                    < g.len() by {
                    assert(is_known(all, procs[u].depends_on[k]));
                    lemma_index_from(all, procs[u].depends_on[k], 0);
                    assert(g[u][k] == index_of(all, procs[u].depends_on[k]) as usize);
                }
            }
        }
        rows
    }

    /// The names that stand at two indices, as the witness of a cycle.
    fn cycle_names(names: &Vec<String>, dependency: usize, dependent: usize) -> (deps: Vec<String>)
        requires
            dependency < names.len(),
            dependent < names.len(),
        ensures
            deps.deep_view() == seq![names@[dependency as int]@, names@[dependent as int]@],
    {
        let mut deps: Vec<String> = Vec::new();
        deps.push(names[dependency].clone());
        deps.push(names[dependent].clone());
        assert(deps.deep_view() =~= seq![names@[dependency as int]@, names@[dependent as int]@]);
        deps
    }

    /// Depth-first search to detect dependency cycles.
    ///
    /// Walks the graph from `node`, marking what it reaches in `visited` and
    /// what it is still working on in `rec_stack`, and appends each process
    /// to `order` once everything that it depends on is there. Returns the
    /// names of two processes on a cycle where it meets one: a process that
    /// is still being worked on, then the process that names it, which
    /// `node` reaches.
    pub fn dfs_cycle(
        graph: &Vec<Vec<usize>>,
        names: &Vec<String>,
        node: usize,
        visited: &mut Vec<bool>,
        rec_stack: &mut Vec<bool>,
        order: &mut Vec<usize>,
    ) -> (cycle: Option<Vec<String>>)
        requires
            names.len() == graph.len(),
            search_state(graph_of(graph@), old(visited)@, old(rec_stack)@, old(order)@),
            node < graph.len(),
            !old(visited)@[node as int],
            on_path_to(graph_of(graph@), old(rec_stack)@, node as int),
        ensures
            match cycle {
                Some(deps) => exists|dependency: int, dependent: int|
                    {
                        &&& 0 <= dependency < graph.len()
                        &&& 0 <= dependent < graph.len()
                        &&& deps.deep_view() == seq![names@[dependency]@, names@[dependent]@]
                        &&& #[trigger] depends_on(graph_of(graph@), dependent, dependency)
                        &&& reaches(graph_of(graph@), dependency, dependent)
                        &&& reaches(graph_of(graph@), node as int, dependent)
                    },
                None => {
                    &&& search_state(graph_of(graph@), final(visited)@, final(rec_stack)@, final(order)@)
                    &&& final(rec_stack)@ == old(rec_stack)@
                    &&& forall|i: int|
                        0 <= i < graph.len() && old(visited)@[i] ==> #[trigger] final(visited)@[i]
                    &&& final(visited)@[node as int]
                    &&& forall|fuel: nat|
                        fuel >= unvisited(old(visited)@) ==> #[trigger] visit(
                            graph_of(graph@),
                            node,
                            old(order)@,
                            fuel,
                        ) == final(order)@
                },
            },
    {
        match depth_first_search(graph, node, visited, rec_stack, order) {
            Some((dependency, dependent)) => {
                proof {
                    lemma_cycle_in_graph(graph_of(graph@), dependent as int, dependency as int);
                }
                Some(Self::cycle_names(names, dependency, dependent))
            },
            None => None,
        }
    }

    /// Checks for circular dependencies using depth-first search.
    ///
    /// A dependency that names no process of the configuration lies on no
    /// cycle and is passed over.
    pub fn check_dependency_cycles(config: &Config) -> (r: Result<()>)
        ensures
            r is Ok <==> !cyclic(dependency_rows(config@.processes)),
            r matches Err(e) ==> e@ matches SentinelErrorView::DependencyCycle { deps }
                && is_cycle_witness(config@.processes, deps),
    {
        let names = process_names(&config.processes);
        let rows = Self::resolve_dependencies(&config.processes, &names);
        match order_graph(&rows) {
            Ok(_) => Ok(()),
            Err((dependency, dependent)) => {
                proof {
                    lemma_cycle_in_graph(graph_of(rows@), dependent as int, dependency as int);
                }
                let deps = Self::cycle_names(&names, dependency, dependent);
                proof {
                    let procs = config@.processes;
                    assert(names.deep_view()[dependency as int] == names@[dependency as int]@);
                    assert(names.deep_view()[dependent as int] == names@[dependent as int]@);
                    assert(deps.deep_view() == seq![procs[dependency as int].name, procs[dependent as int].name]);
                    assert(depends_on(dependency_rows(procs), dependent as int, dependency as int));
                }
                Err(SentinelError::DependencyCycle { deps })
            },
        }
    }

    /// Validates a configuration.
    ///
    /// Checks, in this order, for duplicate process names, for a process with
    /// a blank name, a blank command or an unknown dependency, and for
    /// dependency cycles, and reports the first fault that it finds.
    pub fn validate(config: &Config) -> (r: Result<()>)
        ensures
            match config_fault(config@.processes) {
                Some(expected) => r matches Err(e) && e@ == expected,
                None => {
                    &&& r is Ok <==> !cyclic(dependency_rows(config@.processes))
                    &&& r matches Err(e) ==> e@ matches SentinelErrorView::DependencyCycle { deps }
                        && is_cycle_witness(config@.processes, deps)
                },
            },
    {
        let ghost procs = config@.processes;
        let names = process_names(&config.processes);
        match Self::check_unique_names(&names) {
            Err(e) => {
                return Err(e);
            },
            Ok(_) => {},
        }
        let mut i: usize = 0;
        while i < config.processes.len()
            invariant
                i <= config.processes.len(),
                procs == config@.processes,
                procs == config.processes.deep_view(),
                names.deep_view() == names_of(procs),
                duplicate_fault(names_of(procs)) is None,
                fault_from(procs, names_of(procs), i as int) == fault_from(procs, names_of(procs), 0),
                forall|j: int, k: int|
                    0 <= j < i && 0 <= k < procs[j].depends_on.len() ==> is_known(
                        names_of(procs),
                        #[trigger] procs[j].depends_on[k],
                    ),
            decreases config.processes.len() - i,
        {
            assert(procs[i as int] == config.processes@[i as int]@);
            match Self::validate_process(&config.processes[i], &names) {
                Err(e) => {
                    return Err(e);
                },
                Ok(_) => {
                    proof {
                        lemma_known_dependencies(procs[i as int], names_of(procs), 0);
                    }
                },
            }
            i = i + 1;
        }
        Self::check_dependency_cycles(config)
    }

    /// Resolves the order in which the processes of a configuration start:
    /// every process after the processes that it depends on, and processes
    /// that do not depend on one another in declaration order.
    ///
    /// Fails on a repeated name, on a dependency that names no process and
    /// on a dependency cycle.
    pub fn start_order(config: &Config) -> (r: Result<Vec<String>>)
        ensures
            r is Ok <==> ordering_fault(config@.processes) is None && !cyclic(
                dependency_rows(config@.processes),
            ),
            match r {
                Ok(order) => {
                    &&& order@.len() == config@.processes.len()
                    &&& order.deep_view() == names_at(
                        names_of(config@.processes),
                        depth_first_order(dependency_rows(config@.processes)),
                    )
                    &&& lists_each_process_once(config@.processes, order.deep_view())
                    &&& starts_after_dependencies(config@.processes, order.deep_view())
                },
                Err(e) => match ordering_fault(config@.processes) {
                    Some(expected) => e@ == expected,
                    None => e@ matches SentinelErrorView::DependencyCycle { deps } && is_cycle_witness(
                        config@.processes,
                        deps,
                    ),
                },
            },
    {
        let ghost procs = config@.processes;
        let names = process_names(&config.processes);
        match Self::check_unique_names(&names) {
            Err(e) => {
                return Err(e);
            },
            Ok(_) => {},
        }
        let mut i: usize = 0;
        while i < config.processes.len()
            invariant
                i <= config.processes.len(),
                procs == config@.processes,
                procs == config.processes.deep_view(),
                names.deep_view() == names_of(procs),
                duplicate_fault(names_of(procs)) is None,
                dependency_fault_from(procs, names_of(procs), i as int) == dependency_fault_from(
                    procs,
                    names_of(procs),
                    0,
                ),
                forall|j: int, k: int|
                    0 <= j < i && 0 <= k < procs[j].depends_on.len() ==> is_known(
                        names_of(procs),
                        #[trigger] procs[j].depends_on[k],
                    ),
            decreases config.processes.len() - i,
        {
            assert(procs[i as int] == config.processes@[i as int]@);
            match Self::check_dependencies(&config.processes[i], &names) {
                Err(e) => {
                    return Err(e);
                },
                Ok(_) => {},
            }
            i = i + 1;
        }
        let rows = Self::resolve_dependencies(&config.processes, &names);
        match order_graph(&rows) {
            Ok(indices) => {
                let ghost g = dependency_rows(procs);
                let mut order: Vec<String> = Vec::new();
                let mut p: usize = 0;
                while p < indices.len()
                    invariant
                        p <= indices.len(),
                        indices.len() == config.processes.len(),
                        names@.len() == g.len(),
                        names_each_once(g, indices@),
                        order@.len() == p,
                        forall|q: int| 0 <= q < p ==> (#[trigger] order@[q])@ == names@[indices@[q] as int]@,
                    decreases indices.len() - p,
                {
                    order.push(names[indices[p]].clone());
                    p = p + 1;
                }
                proof {
                    assert(order.deep_view() =~= names_at(names_of(procs), indices@)) by {
                        assert forall|q: int| 0 <= q < order@.len() implies order.deep_view()[q]
                            == names_at(names_of(procs), indices@)[q] by {
                            assert(names.deep_view()[indices@[q] as int] == names@[indices@[q] as int]@);
                        }
                    }
                    lemma_unique_names(names_of(procs), 0);
                    lemma_names_in_start_order(procs, indices@);
                }
                Ok(order)
            },
            Err((dependency, dependent)) => {
                proof {
                    lemma_cycle_in_graph(graph_of(rows@), dependent as int, dependency as int);
                }
                let deps = Self::cycle_names(&names, dependency, dependent);
                proof {
                    assert(names.deep_view()[dependency as int] == names@[dependency as int]@);
                    assert(names.deep_view()[dependent as int] == names@[dependent as int]@);
                    assert(deps.deep_view() == seq![procs[dependency as int].name, procs[dependent as int].name]);
                    assert(depends_on(dependency_rows(procs), dependent as int, dependency as int));
                }
                Err(SentinelError::DependencyCycle { deps })
            },
        }
    }
}

/// Where a process has no unknown dependency from `from` on, each of its
/// dependencies from there on names a process.
proof fn lemma_known_dependencies(p: ProcessConfigView, names: Seq<Seq<char>>, from: int)
    requires
        0 <= from <= p.depends_on.len(),
        unknown_from(p.depends_on, names, from) >= p.depends_on.len(),
    ensures
        forall|k: int| from <= k < p.depends_on.len() ==> is_known(names, #[trigger] p.depends_on[k]),
    decreases p.depends_on.len() - from,
{
    if from < p.depends_on.len() {
        lemma_known_dependencies(p, names, from + 1);
    }
}

/// An order of the indices that puts dependencies first, read as names, puts
/// every process after the processes that it names, and names each once.
proof fn lemma_names_in_start_order(procs: Seq<ProcessConfigView>, indices: Seq<usize>)
    requires
        procs.len() <= usize::MAX,
        forall|j: int| 0 <= j < procs.len() ==> index_of(names_of(procs), #[trigger] names_of(procs)[j]) == j,
        dependencies_known(procs),
        names_each_once(dependency_rows(procs), indices),
        dependencies_first(dependency_rows(procs), indices),
    ensures
        starts_after_dependencies(procs, names_at(names_of(procs), indices)),
        lists_each_process_once(procs, names_at(names_of(procs), indices)),
{
    let names = names_of(procs);
    let g = dependency_rows(procs);
    let order = names_at(names, indices);
    assert forall|i: int, k: int, p: int|
        0 <= i < procs.len() && 0 <= k < procs[i].depends_on.len() && 0 <= p < order.len()
            && order[p] == procs[i].name implies #[trigger] stands_before(
        order,
        procs[i].depends_on[k],
        p,
    ) by {
        let at = indices[p] as int;
        assert(names[at] == names[i]);
        assert(index_of(names, names[at]) == at);
        assert(index_of(names, names[i]) == i);
        assert(at == i);
        let dependency = procs[i].depends_on[k];
        assert(is_known(names, dependency));
        lemma_index_from(names, dependency, 0);
        assert(g[indices[p] as int][k] == index_of(names, dependency) as usize);
        assert(placed_before(indices, g[indices[p] as int][k], p));
        let q = choose|q: int| 0 <= q < p && #[trigger] indices[q] == g[indices[p] as int][k];
        assert(order[q] == dependency);
    }
    assert forall|a: int, b: int| 0 <= a < order.len() && 0 <= b < order.len() && a != b implies order[a]
        != order[b] by {
        if order[a] == order[b] {
            let ia = indices[a] as int;
            let ib = indices[b] as int;
            assert(index_of(names, names[ia]) == ia);
            assert(index_of(names, names[ib]) == ib);
        }
    }
    assert forall|p: int| 0 <= p < order.len() implies is_known(names, #[trigger] order[p]) by {
        lemma_index_of_member(names, indices[p] as int);
    }
    assert forall|i: int| 0 <= i < procs.len() implies order.contains(#[trigger] procs[i].name) by {
        assert(indices.contains(i as usize));
        let p = choose|p: int| 0 <= p < indices.len() && indices[p] == i as usize;
        assert(order[p] == procs[i].name);
    }
}

} // verus!
