//! A whole discovery: the hosts of all targets are found, scanned in parallel, and those that
//! run Windows are asked about themselves.

use crate::config::{AppConfig, AppConfigView};
use crate::hosts::{Host, HostView};
use vstd::prelude::*;

verus! {

/// The elements of some sequences, one sequence after the other.
pub open spec fn joined<T>(batches: Seq<Seq<T>>) -> Seq<T>
    decreases batches.len(),
{
    if batches.len() == 0 {
        seq![]
    } else {
        joined(batches.drop_last()) + batches.last()
    }
}

/// The sequences of two lists, one list after the other, join to what those of each list join to,
/// one after the other.
pub proof fn law_joined_parts<T>(first: Seq<Seq<T>>, second: Seq<Seq<T>>)
    ensures
        joined(first + second) == joined(first) + joined(second),
    decreases second.len(),
{
    if second.len() == 0 {
        assert(first + second == first);
        assert(joined(first) + joined(second) == joined(first));
    } else {
        law_joined_parts(first, second.drop_last());
        assert((first + second).drop_last() == first + second.drop_last());
        assert((first + second).last() == second.last());
        assert(joined(first + second) =~= joined(first) + joined(second));
    }
}

/// Joins batches of hosts, one batch after the other.
pub fn join(batches: Vec<Vec<Host>>) -> (result: Vec<Host>)
    ensures
        result.deep_view() == joined(batches.deep_view()),
{
    let ghost all = batches.deep_view();
    let mut result: Vec<Host> = Vec::new();
    assert(result.deep_view() == joined(all.take(0)));
    for batch in iter: batches
        invariant
            iter.seq() == batches@,
            all == batches.deep_view(),
            result.deep_view() == joined(all.take(iter.index() as int)),
    {
        assert(all.take(iter.index() + 1).drop_last() == all.take(iter.index() as int));
        assert(all.take(iter.index() + 1).last() == batch.deep_view());
        let ghost before = result.deep_view();
        let ghost added = batch.deep_view();
        let mut batch = batch;
        result.append(&mut batch);
        assert(result.deep_view() =~= before + added);
    }
    assert(all.take(all.len() as int) == all);
    result
}

/// How many workers share the work on some hosts: as many as allowed, but no more than hosts.
pub open spec fn worker_count(threads: nat, hosts: nat) -> nat {
    if threads > hosts {
        hosts
    } else {
        threads
    }
}

/// How many workers share the work on `hosts` hosts.
pub fn workers(threads: u32, hosts: usize) -> (result: usize)
    ensures
        result == worker_count(threads as nat, hosts as nat),
{
    let threads: usize = threads as usize;
    if threads > hosts {
        hosts
    } else {
        threads
    }
}

/// How far a discovery has come.
#[derive(Debug)]
pub enum Phase {
    /// The hosts of all targets are to be found, to be scanned with these arguments.
    Find { scan_arguments: String },
    /// The hosts are to be scanned and saved.
    Scan { hosts: Vec<Host>, workers: usize },
    /// The hosts are to be asked about themselves, and what they tell is to be saved.
    Enumerate { hosts: Vec<Host>, workers: usize },
    /// All is done; these are the hosts that were scanned.
    Finished { hosts: Vec<Host> },
}

/// The contents of a [`Phase`].
#[verifier::ext_equal]
pub enum PhaseView {
    Find { scan_arguments: Seq<char> },
    Scan { hosts: Seq<HostView>, workers: nat },
    Enumerate { hosts: Seq<HostView>, workers: nat },
    Finished { hosts: Seq<HostView> },
}

impl View for Phase {
    type V = PhaseView;

    open spec fn view(&self) -> PhaseView {
        match self {
            Phase::Find { scan_arguments } => PhaseView::Find { scan_arguments: scan_arguments@ },
            Phase::Scan { hosts, workers } => PhaseView::Scan {
                hosts: hosts.deep_view(),
                workers: *workers as nat,
            },
            Phase::Enumerate { hosts, workers } => PhaseView::Enumerate {
                hosts: hosts.deep_view(),
                workers: *workers as nat,
            },
            Phase::Finished { hosts } => PhaseView::Finished { hosts: hosts.deep_view() },
        }
    }
}

/// A discovery.
#[derive(Debug)]
pub struct Run {
    /// How many threads the configuration allows.
    pub num_threads: u32,
    pub phase: Phase,
}

/// The contents of a [`Run`].
#[verifier::ext_equal]
pub struct RunView {
    pub num_threads: nat,
    pub phase: PhaseView,
}

impl View for Run {
    type V = RunView;

    open spec fn view(&self) -> RunView {
        RunView { num_threads: self.num_threads as nat, phase: self.phase@ }
    }
}

/// A discovery with the configuration `config` before anything was done.
pub open spec fn run_of(config: AppConfigView) -> RunView {
    RunView {
        num_threads: config.num_threads as nat,
        phase: PhaseView::Find {
            scan_arguments: match config.script_args {
                Some(arguments) => arguments,
                None => seq![],
            },
        },
    }
}

/// A discovery that begins with hosts which are known: they are scanned by up to `threads`
/// workers.
pub open spec fn scan_of_hosts(num_threads: nat, hosts: Seq<HostView>, threads: nat) -> RunView {
    RunView {
        num_threads,
        phase: PhaseView::Scan { hosts, workers: worker_count(threads, hosts.len()) },
    }
}

/// A discovery after the hosts of its targets were found, those of each target in a batch.
pub open spec fn run_found(run: RunView, batches: Seq<Seq<HostView>>) -> RunView {
    match run.phase {
        PhaseView::Find { .. } => scan_of_hosts(run.num_threads, joined(batches), run.num_threads),
        _ => run,
    }
}

/// A discovery after its hosts were scanned, those of each worker in a batch.
pub open spec fn run_scanned(run: RunView, batches: Seq<Seq<HostView>>) -> RunView {
    match run.phase {
        PhaseView::Scan { .. } => RunView {
            phase: PhaseView::Enumerate {
                hosts: joined(batches),
                workers: worker_count(run.num_threads, joined(batches).len()),
            },
            ..run
        },
        _ => run,
    }
}

/// A discovery after its hosts were asked about themselves.
pub open spec fn run_enumerated(run: RunView) -> RunView {
    match run.phase {
        PhaseView::Enumerate { hosts, .. } => RunView {
            phase: PhaseView::Finished { hosts },
            ..run
        },
        _ => run,
    }
}

/// Begins a discovery.
pub fn start(config: &AppConfig) -> (result: Run)
    ensures
        result@ == run_of(config@),
{
    let scan_arguments = match &config.script_args {
        Some(arguments) => arguments.clone(),
        None => String::new(),
    };
    Run { num_threads: config.num_threads, phase: Phase::Find { scan_arguments } }
}

/// Begins a discovery with hosts that are known, which up to `threads` workers scan.
pub fn scan_hosts(config: &AppConfig, hosts: Vec<Host>, threads: u32) -> (result: Run)
    ensures
        result@ == scan_of_hosts(config@.num_threads as nat, hosts.deep_view(), threads as nat),
{
    let workers = workers(threads, hosts.len());
    Run { num_threads: config.num_threads, phase: Phase::Scan { hosts, workers } }
}

impl Run {
    /// Goes on with the hosts that were found, those of each target in a batch.
    pub fn found(self, batches: Vec<Vec<Host>>) -> (result: Self)
        ensures
            result@ == run_found(self@, batches.deep_view()),
    {
        match self.phase {
            Phase::Find { .. } => {
                let hosts = join(batches);
                let workers = workers(self.num_threads, hosts.len());
                Run { num_threads: self.num_threads, phase: Phase::Scan { hosts, workers } }
            },
            phase => Run { num_threads: self.num_threads, phase },
        }
    }

    /// Goes on with the hosts that were scanned and saved, those of each worker in a batch.
    pub fn scanned(self, batches: Vec<Vec<Host>>) -> (result: Self)
        ensures
            result@ == run_scanned(self@, batches.deep_view()),
    {
        match self.phase {
            Phase::Scan { .. } => {
                let hosts = join(batches);
                let workers = workers(self.num_threads, hosts.len());
                Run { num_threads: self.num_threads, phase: Phase::Enumerate { hosts, workers } }
            },
            phase => Run { num_threads: self.num_threads, phase },
        }
    }

    /// Goes on after the hosts were asked about themselves.
    pub fn enumerated(self) -> (result: Self)
        ensures
            result@ == run_enumerated(self@),
    {
        match self.phase {
            Phase::Enumerate { hosts, .. } => Run {
                num_threads: self.num_threads,
                phase: Phase::Finished { hosts },
            },
            phase => Run { num_threads: self.num_threads, phase },
        }
    }
}

/// The hosts that wait for a worker.
#[derive(Debug)]
pub struct HostQueue {
    pub hosts: Vec<Host>,
}

impl HostQueue {
    /// All of `hosts` wait.
    pub fn new(hosts: Vec<Host>) -> (result: Self)
        ensures
            result.hosts == hosts,
    {
        HostQueue { hosts }
    }

    /// Hands out the last host that waits.
    pub fn take(&mut self) -> (result: Option<Host>)
        ensures
            match result {
                Some(host) => old(self).hosts@.len() > 0 && host == old(self).hosts@.last()
                    && final(self).hosts@ == old(self).hosts@.drop_last(),
                None => old(self).hosts@.len() == 0 && final(self).hosts@ == old(self).hosts@,
            },
    {
        self.hosts.pop()
    }
}

/// What each worker was handed out of `queue`, when the workers came for work in the order of
/// `turns`: in each turn a worker is handed the last element that is left.
pub open spec fn handed_out<T>(queue: Seq<T>, workers: nat, turns: Seq<int>) -> Seq<Seq<T>>
    decreases turns.len(),
{
    if turns.len() == 0 {
        Seq::new(workers, |i: int| Seq::<T>::empty())
    } else {
        let before = handed_out(queue, workers, turns.drop_last());
        let worker = turns.last();
        before.update(worker, before[worker].push(queue[queue.len() - turns.len()]))
    }
}

/// However the workers take turns until the queue is empty, every host is handed to exactly one
/// worker exactly once.
pub proof fn law_every_host_once<T>(queue: Seq<T>, workers: nat, turns: Seq<int>)
    requires
        turns.len() == queue.len(),
        forall|i: int| 0 <= i < turns.len() ==> 0 <= #[trigger] turns[i] < workers,
    ensures
        joined(handed_out(queue, workers, turns)).to_multiset() == queue.to_multiset(),
{
    lemma_handed_out(queue, workers, turns);
    assert(queue.skip(0) == queue);
}

/// What each worker gives back, when the workers come for hosts in the order of `turns` and `scan`
/// is what a scan makes of a host.
pub open spec fn scanned_batches(
    hosts: Seq<HostView>,
    workers: nat,
    turns: Seq<int>,
    scan: spec_fn(HostView) -> HostView,
) -> Seq<Seq<HostView>> {
    handed_out(hosts, workers, turns).map_values(
        |batch: Seq<HostView>| batch.map_values(scan),
    )
}

/// Whether `turns` are turns of the workers that scan hosts, until no host is left.
pub open spec fn full_turns(hosts: Seq<HostView>, threads: nat, turns: Seq<int>) -> bool {
    &&& turns.len() == hosts.len()
    &&& forall|i: int|
        0 <= i < turns.len() ==> 0 <= #[trigger] turns[i] < worker_count(threads, hosts.len())
}

/// Every host is scanned once: however the workers take turns, what a discovery goes on with after
/// the scan is what the scan makes of its hosts, each as often as it is among them.
pub proof fn law_scan_of_every_host(
    num_threads: nat,
    hosts: Seq<HostView>,
    scan: spec_fn(HostView) -> HostView,
    threads: nat,
    turns: Seq<int>,
)
    requires
        full_turns(hosts, threads, turns),
    ensures
        ({
            let workers = worker_count(threads, hosts.len());
            let begin = scan_of_hosts(num_threads, hosts, threads);
            let after = run_scanned(begin, scanned_batches(hosts, workers, turns, scan));
            &&& after.phase matches PhaseView::Enumerate { hosts: scanned, .. }
            &&& scanned.to_multiset() == hosts.map_values(scan).to_multiset()
        }),
{
    let workers = worker_count(threads, hosts.len());
    lemma_handed_out_map(hosts, workers, turns, scan);
    law_every_host_once(hosts.map_values(scan), workers, turns);
}

/// The number of threads, and the turns that their workers take, change the order of the scanned
/// hosts only.
pub proof fn law_threads_change_only_the_order(
    num_threads: nat,
    hosts: Seq<HostView>,
    scan: spec_fn(HostView) -> HostView,
    first_threads: nat,
    first_turns: Seq<int>,
    second_threads: nat,
    second_turns: Seq<int>,
)
    requires
        full_turns(hosts, first_threads, first_turns),
        full_turns(hosts, second_threads, second_turns),
    ensures
        ({
            let first = run_scanned(
                scan_of_hosts(num_threads, hosts, first_threads),
                scanned_batches(
                    hosts,
                    worker_count(first_threads, hosts.len()),
                    first_turns,
                    scan,
                ),
            );
            let second = run_scanned(
                scan_of_hosts(num_threads, hosts, second_threads),
                scanned_batches(
                    hosts,
                    worker_count(second_threads, hosts.len()),
                    second_turns,
                    scan,
                ),
            );
            &&& first.phase matches PhaseView::Enumerate { hosts: one, .. }
            &&& second.phase matches PhaseView::Enumerate { hosts: other, .. }
            &&& one.to_multiset() == other.to_multiset()
        }),
{
    law_scan_of_every_host(num_threads, hosts, scan, first_threads, first_turns);
    law_scan_of_every_host(num_threads, hosts, scan, second_threads, second_turns);
}

/// Handing out and then working is handing out what was worked on.
proof fn lemma_handed_out_map(
    hosts: Seq<HostView>,
    workers: nat,
    turns: Seq<int>,
    scan: spec_fn(HostView) -> HostView,
)
    requires
        turns.len() <= hosts.len(),
        forall|i: int| 0 <= i < turns.len() ==> 0 <= #[trigger] turns[i] < workers,
    ensures
        scanned_batches(hosts, workers, turns, scan) == handed_out(
            hosts.map_values(scan),
            workers,
            turns,
        ),
    decreases turns.len(),
{
    let batches = scanned_batches(hosts, workers, turns, scan);
    let mapped = handed_out(hosts.map_values(scan), workers, turns);
    if turns.len() == 0 {
        assert(batches =~~= mapped);
    } else {
        let rest = turns.drop_last();
        assert forall|i: int| 0 <= i < rest.len() implies 0 <= #[trigger] rest[i] < workers by {
            assert(rest[i] == turns[i]);
        }
        lemma_handed_out_map(hosts, workers, rest, scan);
        lemma_handed_out(hosts, workers, rest);
        let before = handed_out(hosts, workers, rest);
        let worker = turns.last();
        assert(turns[turns.len() - 1] == worker);
        let host = hosts[hosts.len() - turns.len()];
        assert(before[worker].push(host).map_values(scan) =~= before[worker].map_values(scan).push(
            scan(host),
        ));
        assert(batches =~= mapped);
    }
}

/// After some turns the workers hold what is gone from the end of the queue.
proof fn lemma_handed_out<T>(queue: Seq<T>, workers: nat, turns: Seq<int>)
    requires
        turns.len() <= queue.len(),
        forall|i: int| 0 <= i < turns.len() ==> 0 <= #[trigger] turns[i] < workers,
    ensures
        handed_out(queue, workers, turns).len() == workers,
        joined(handed_out(queue, workers, turns)).to_multiset() == queue.skip(
            queue.len() - turns.len(),
        ).to_multiset(),
    decreases turns.len(),
{
    broadcast use vstd::seq_lib::group_to_multiset_ensures;

    if turns.len() == 0 {
        let none = Seq::new(workers, |i: int| Seq::<T>::empty());
        lemma_joined_empty(none);
        assert(queue.skip(queue.len() as int) =~= Seq::<T>::empty());
        assert(joined(none) =~= Seq::<T>::empty());
    } else {
        let rest = turns.drop_last();
        assert forall|i: int| 0 <= i < rest.len() implies 0 <= #[trigger] rest[i] < workers by {
            assert(rest[i] == turns[i]);
        }
        lemma_handed_out(queue, workers, rest);
        let before = handed_out(queue, workers, rest);
        let worker = turns.last();
        let at = queue.len() - turns.len();
        assert(turns[turns.len() - 1] == worker);
        lemma_joined_push(before, worker, queue[at]);
        let left = queue.skip(at);
        assert(left.remove(0) =~= queue.skip(at + 1));
        vstd::seq_lib::to_multiset_remove(left, 0);
        assert(left.to_multiset() =~= queue.skip(at + 1).to_multiset().insert(queue[at]));
    }
}

/// Empty sequences join to an empty one.
proof fn lemma_joined_empty<T>(batches: Seq<Seq<T>>)
    requires
        forall|i: int| 0 <= i < batches.len() ==> (#[trigger] batches[i]).len() == 0,
    ensures
        joined(batches).len() == 0,
    decreases batches.len(),
{
    if batches.len() > 0 {
        let rest = batches.drop_last();
        assert forall|i: int| 0 <= i < rest.len() implies (#[trigger] rest[i]).len() == 0 by {
            assert(rest[i] == batches[i]);
        }
        lemma_joined_empty(rest);
        assert(batches[batches.len() - 1].len() == 0);
    }
}

/// One more element in some sequence is one more element in all.
proof fn lemma_joined_push<T>(batches: Seq<Seq<T>>, i: int, element: T)
    requires
        0 <= i < batches.len(),
    ensures
        joined(batches.update(i, batches[i].push(element))).to_multiset() == joined(
            batches,
        ).to_multiset().insert(element),
    decreases batches.len(),
{
    broadcast use vstd::seq_lib::group_to_multiset_ensures;

    let after = batches.update(i, batches[i].push(element));
    let last = batches.len() - 1;
    if i == last {
        assert(after.drop_last() =~= batches.drop_last());
        assert(joined(after) =~= joined(batches).push(element));
    } else {
        lemma_joined_push(batches.drop_last(), i, element);
        assert(after.drop_last() =~= batches.drop_last().update(
            i,
            batches.drop_last()[i].push(element),
        ));
        vstd::seq_lib::lemma_multiset_commutative(joined(after.drop_last()), after.last());
        vstd::seq_lib::lemma_multiset_commutative(joined(batches.drop_last()), batches.last());
        assert(joined(after).to_multiset() =~= joined(batches).to_multiset().insert(element));
    }
}

/// How a server came to its end.
#[derive(Clone, Copy, Debug, PartialEq, Eq, Structural)]
pub enum ServerExit {
    /// It was stopped.
    Stopped,
    /// Its connection was reset, as when the configuration has changed.
    ConnectionReset,
    /// It failed otherwise.
    Failed,
}

/// Whether to start a server again that has come to its end.
pub fn restarts(exit: ServerExit) -> (result: bool)
    ensures
        result == (exit == ServerExit::ConnectionReset),
{
    exit == ServerExit::ConnectionReset
}

/// A discovery goes through its phases in order, scans what was found, asks what was scanned, and
/// ends with the hosts that were scanned.
pub proof fn law_whole_run(
    config: AppConfigView,
    found: Seq<Seq<HostView>>,
    scanned: Seq<Seq<HostView>>,
)
    ensures
        ({
            let threads = config.num_threads as nat;
            let scanning = run_found(run_of(config), found);
            let asking = run_scanned(scanning, scanned);
            &&& scanning.phase == (PhaseView::Scan {
                hosts: joined(found),
                workers: worker_count(threads, joined(found).len()),
            })
            &&& asking.phase == (PhaseView::Enumerate {
                hosts: joined(scanned),
                workers: worker_count(threads, joined(scanned).len()),
            })
            &&& run_enumerated(asking).phase == (PhaseView::Finished { hosts: joined(scanned) })
        }),
{
}

/// The hosts of two lists of targets, one list after the other, are the hosts of the first and
/// then those of the second.
pub proof fn law_found_in_parts(
    config: AppConfigView,
    first: Seq<Seq<HostView>>,
    second: Seq<Seq<HostView>>,
)
    ensures
        ({
            let run = run_of(config);
            &&& run_found(run, first).phase matches PhaseView::Scan { hosts: one, .. }
            &&& run_found(run, second).phase matches PhaseView::Scan { hosts: other, .. }
            &&& run_found(run, first + second).phase matches PhaseView::Scan { hosts: all, .. }
            &&& all == one + other
        }),
{
    law_joined_parts(first, second);
}

/// There are never more workers than allowed or than hosts, there are as many as that leaves, and
/// there is one if there may be.
pub proof fn law_workers(threads: nat, hosts: nat)
    ensures
        worker_count(threads, hosts) <= threads,
        worker_count(threads, hosts) <= hosts,
        worker_count(threads, hosts) == threads || worker_count(threads, hosts) == hosts,
        threads > 0 && hosts > 0 ==> worker_count(threads, hosts) > 0,
{
}

/// Joining loses nothing and adds nothing: no sequences join to nothing, and one to itself.
pub proof fn law_joined_one<T>(batch: Seq<T>)
    ensures
        joined(Seq::<Seq<T>>::empty()).len() == 0,
        joined(seq![batch]) == batch,
{
    assert(seq![batch].drop_last() == Seq::<Seq<T>>::empty());
    assert(joined(seq![batch].drop_last()) == Seq::<T>::empty());
    assert(joined(seq![batch]) =~= batch);
}

/// A discovery begins with finding hosts, which are scanned with the arguments that are
/// configured, without any if none are.
pub proof fn law_run_begins(config: AppConfigView)
    ensures
        run_of(config).num_threads == config.num_threads,
        run_of(config).phase matches PhaseView::Find { scan_arguments } && (
        config.script_args matches Some(arguments) ==> scan_arguments == arguments) && (
        config.script_args is None ==> scan_arguments.len() == 0),
{
}

/// A discovery that begins with hosts which are known scans all of them, with as many workers as
/// the threads that it is given allow, and asks them with as many as the configuration allows.
pub proof fn law_run_with_hosts(
    num_threads: nat,
    hosts: Seq<HostView>,
    threads: nat,
    scanned: Seq<Seq<HostView>>,
)
    ensures
        ({
            let scanning = scan_of_hosts(num_threads, hosts, threads);
            let asking = run_scanned(scanning, scanned);
            &&& scanning.phase matches PhaseView::Scan { hosts: all, workers }
            &&& all == hosts
            &&& workers == if threads < hosts.len() {
                threads
            } else {
                hosts.len()
            }
            &&& asking.phase matches PhaseView::Enumerate { hosts: asked, workers: askers }
            &&& asked == joined(scanned)
            &&& askers == if num_threads < asked.len() {
                num_threads
            } else {
                asked.len()
            }
            &&& run_enumerated(asking).phase == (PhaseView::Finished { hosts: asked })
        }),
{
}

/// No phase is left out: what does not belong to the phase that a discovery is in changes nothing.
pub proof fn law_no_phase_left_out(run: RunView, batches: Seq<Seq<HostView>>)
    ensures
        !(run.phase is Find) ==> run_found(run, batches) == run,
        !(run.phase is Scan) ==> run_scanned(run, batches) == run,
        !(run.phase is Enumerate) ==> run_enumerated(run) == run,
        run_found(run, batches).num_threads == run.num_threads,
        run_scanned(run, batches).num_threads == run.num_threads,
        run_enumerated(run).num_threads == run.num_threads,
{
}

/// All of a phase is among its contents.
pub proof fn law_phase_contents(text: String, hosts: Vec<Host>, workers: usize)
    ensures
        (Phase::Find { scan_arguments: text })@ == (PhaseView::Find { scan_arguments: text@ }),
        (Phase::Scan { hosts, workers })@ == (PhaseView::Scan {
            hosts: hosts@.map_values(|host: Host| host@),
            workers: workers as nat,
        }),
        (Phase::Enumerate { hosts, workers })@ == (PhaseView::Enumerate {
            hosts: hosts@.map_values(|host: Host| host@),
            workers: workers as nat,
        }),
        (Phase::Finished { hosts })@ == (PhaseView::Finished {
            hosts: hosts@.map_values(|host: Host| host@),
        }),
{
    assert(hosts.deep_view() =~= hosts@.map_values(|host: Host| host@));
}

/// All of a discovery is among its contents.
pub proof fn law_run_contents(run: Run)
    ensures
        run@.num_threads == run.num_threads,
        run@.phase == run.phase@,
{
}

} // verus!
