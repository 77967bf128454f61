//! The commands that run in a process group of their own, and how they are
//! stopped.
//!
//! Which groups still have a member is for the operating system to say. It is
//! asked before each decision, and the groups that live are handed in.

use crate::text;
use vstd::prelude::*;

verus! {

/// Whether a command gets a process group of its own.
#[derive(Debug, Clone, Copy, PartialEq, Eq, Structural)]
pub enum Isolation {
    /// For a command no terminal delivers Ctrl-C to: one running behind a list,
    /// or under a raw mode screen. A stop takes the whole group, so that no
    /// helper of a killed command keeps working in the repository.
    OwnGroup,
    /// For a command a terminal is watching in cooked mode, so that Ctrl-C still
    /// reaches it.
    SharedGroup,
}

/// What a group is sent.
#[derive(Debug, Clone, Copy, PartialEq, Eq, Structural)]
pub enum Signal {
    /// What Ctrl-C sends: the commands can clean up after themselves.
    Interrupt,
    /// What no command survives.
    Kill,
}

/// The process groups of this process's commands.
pub struct Commands {
    /// Groups whose command runs.
    pub running: Vec<u32>,
    /// Groups whose command has ended, or was given up on, while something in
    /// them lives on.
    pub leftover: Vec<u32>,
    /// How many commands are being started and are not on a list yet.
    pub spawning: usize,
    /// Set once a list or a sync is given up, and never cleared: no command may
    /// start any more.
    pub abandoned: bool,
}

/// What `Commands` holds.
#[verifier::ext_equal]
pub struct CommandsView {
    pub running: Seq<u32>,
    pub leftover: Seq<u32>,
    pub spawning: nat,
    pub abandoned: bool,
}

impl View for Commands {
    type V = CommandsView;

    open spec fn view(&self) -> CommandsView {
        CommandsView {
            running: self.running@,
            leftover: self.leftover@,
            spawning: self.spawning as nat,
            abandoned: self.abandoned,
        }
    }
}

/// The groups of the list that live, in order.
pub open spec fn living(list: Seq<u32>, alive: Seq<u32>) -> Seq<u32>
    decreases list.len(),
{
    if list.len() == 0 {
        Seq::empty()
    } else {
        let rest = living(list.drop_last(), alive);
        if alive.contains(list.last()) {
            rest.push(list.last())
        } else {
            rest
        }
    }
}

/// Every group that is kept was on the list and lives, and no such group is
/// dropped.
pub proof fn living_is_exact(list: Seq<u32>, alive: Seq<u32>)
    ensures
        forall|group: u32|
            #[trigger] living(list, alive).contains(group) <==> list.contains(group)
                && alive.contains(group),
    decreases list.len(),
{
    if list.len() > 0 {
        let rest = list.drop_last();
        living_is_exact(rest, alive);
        let kept = living(list, alive);
        let before = living(rest, alive);
        assert(list == rest.push(list.last()));
        assert forall|group: u32| #[trigger] kept.contains(group) <==> list.contains(group)
            && alive.contains(group) by {
            if list.contains(group) {
                let i = list.index_of(group);
                if i < rest.len() {
                    assert(rest[i] == group);
                } else {
                    assert(group == list.last());
                }
            }
            if rest.contains(group) {
                let i = rest.index_of(group);
                assert(list[i] == group);
            }
            assert(list[list.len() - 1] == list.last());
            if before.contains(group) {
                let i = before.index_of(group);
                assert(kept[i] == group);
            }
            if kept.contains(group) {
                let i = kept.index_of(group);
                if i < before.len() {
                    assert(before[i] == group);
                }
            }
            if alive.contains(list.last()) {
                assert(kept[kept.len() - 1] == list.last());
            }
        }
    }
}

fn contains(list: &Vec<u32>, group: u32) -> (r: bool)
    ensures
        r == list@.contains(group),
{
    for i in 0..list.len()
        invariant
            forall|j: int| 0 <= j < i ==> list@[j] != group,
    {
        if list[i] == group {
            assert(list@[i as int] == group);
            return true;
        }
    }
    false
}

/// Keeps the groups of the list that live.
fn living_of(list: &Vec<u32>, alive: &Vec<u32>) -> (r: Vec<u32>)
    ensures
        r@ == living(list@, alive@),
{
    let mut kept: Vec<u32> = Vec::new();
    for i in 0..list.len()
        invariant
            kept@ == living(list@.take(i as int), alive@),
    {
        let group: u32 = list[i];
        assert(list@.take(i + 1).drop_last() == list@.take(i as int));
        if contains(alive, group) {
            kept.push(group);
        }
    }
    assert(list@.take(list@.len() as int) == list@);
    kept
}

fn copy_of(list: &Vec<u32>) -> (r: Vec<u32>)
    ensures
        r@ == list@,
{
    let mut r: Vec<u32> = Vec::new();
    for i in 0..list.len()
        invariant
            r@ == list@.take(i as int),
    {
        r.push(list[i]);
        assert(list@.take(i + 1) == list@.take(i as int).push(list@[i as int]));
    }
    assert(list@.take(list@.len() as int) == list@);
    r
}

/// The groups that a signal goes to.
#[derive(Debug)]
pub struct SignalOrder {
    pub signal: Signal,
    pub groups: Vec<u32>,
}

/// What a `SignalOrder` holds.
#[verifier::ext_equal]
pub struct SignalOrderView {
    pub signal: Signal,
    pub groups: Seq<u32>,
}

impl View for SignalOrder {
    type V = SignalOrderView;

    open spec fn view(&self) -> SignalOrderView {
        SignalOrderView { signal: self.signal, groups: self.groups@ }
    }
}

impl CommandsView {
    /// The groups that live, and no others.
    pub open spec fn pruned(self, alive: Seq<u32>) -> CommandsView {
        CommandsView {
            running: living(self.running, alive),
            leftover: living(self.leftover, alive),
            ..self
        }
    }

    /// The same with only the leftover groups looked at.
    pub open spec fn leftover_pruned(self, alive: Seq<u32>) -> CommandsView {
        CommandsView { leftover: living(self.leftover, alive), ..self }
    }

    /// The same, given up.
    pub open spec fn given_up(self) -> CommandsView {
        CommandsView { abandoned: true, ..self }
    }

    /// The same with one command fewer that is being started.
    pub open spec fn one_less_spawning(self) -> CommandsView {
        CommandsView { spawning: (self.spawning - 1) as nat, ..self }
    }

    /// Whether nothing runs, nothing was left behind and nothing is starting.
    pub open spec fn is_quiet(self) -> bool {
        self.running.len() == 0 && self.leftover.len() == 0 && self.spawning == 0
    }

    /// No command yet.
    pub open spec fn idle() -> CommandsView {
        CommandsView {
            running: Seq::empty(),
            leftover: Seq::empty(),
            spawning: 0,
            abandoned: false,
        }
    }

    /// What is left when everything is given up and the groups that live are sent a
    /// signal, and the order of it.
    pub open spec fn stopped(self, alive: Seq<u32>, signal: Signal) -> (
        CommandsView,
        SignalOrderView,
    ) {
        (self.pruned(alive).given_up(), self.pruned(alive).order(signal))
    }

    /// The order of a signal to every group.
    pub open spec fn order(self, signal: Signal) -> SignalOrderView {
        SignalOrderView { signal, groups: self.running + self.leftover }
    }
}

impl Commands {
    /// No command yet.
    pub fn new() -> (r: Commands)
        ensures
            r@ == CommandsView::idle(),
    {
        Commands { running: Vec::new(), leftover: Vec::new(), spawning: 0, abandoned: false }
    }

    /// The groups that are on a list, for the operating system to be asked about.
    pub fn listed(&self) -> (r: Vec<u32>)
        ensures
            r@ == self.running@ + self.leftover@,
    {
        let mut r = copy_of(&self.running);
        let mut rest = copy_of(&self.leftover);
        r.append(&mut rest);
        r
    }

    fn prune(&mut self, alive: &Vec<u32>)
        ensures
            final(self)@ == old(self)@.pruned(alive@),
    {
        self.running = living_of(&self.running, alive);
        self.leftover = living_of(&self.leftover, alive);
    }
}

/// The list without the first `group` on it; the last one takes its place.
pub open spec fn without(list: Seq<u32>, group: u32) -> Seq<u32> {
    if list.contains(group) {
        list.update(first_of(list, group), list.last()).drop_last()
    } else {
        list
    }
}

/// Where the first `group` on the list stands.
pub open spec fn first_of(list: Seq<u32>, group: u32) -> int
    decreases list.len(),
{
    if list.len() == 0 || list[0] == group {
        0
    } else {
        1 + first_of(list.skip(1), group)
    }
}

/// What is left of the lists when a command has ended.
pub open spec fn forgotten(
    commands: CommandsView,
    group: u32,
    isolation: Isolation,
    alive: Seq<u32>,
) -> CommandsView {
    if isolation == Isolation::SharedGroup {
        commands
    } else {
        let leftover = living(commands.leftover, alive);
        CommandsView {
            running: without(commands.running, group),
            leftover: if alive.contains(group) {
                leftover.push(group)
            } else {
                leftover
            },
            ..commands
        }
    }
}

proof fn lemma_first_of(list: Seq<u32>, group: u32, i: int)
    requires
        0 <= i < list.len(),
        list[i] == group,
        forall|j: int| 0 <= j < i ==> list[j] != group,
    ensures
        first_of(list, group) == i,
    decreases i,
{
    if i > 0 {
        lemma_first_of(list.skip(1), group, i - 1);
    }
}

/// Takes a command that has ended off the running list. A group that still has
/// members moves to the leftovers, so that a stop still reaches them; leftovers
/// that have since emptied are let go. A command that shares this process's
/// group was never listed.
pub fn forget_running(
    commands: &mut Commands,
    group: u32,
    isolation: Isolation,
    alive: &Vec<u32>,
)
    ensures
        final(commands)@ == forgotten(old(commands)@, group, isolation, alive@),
{
    match isolation {
        Isolation::SharedGroup => return,
        Isolation::OwnGroup => {},
    }
    let mut leftover = living_of(&commands.leftover, alive);
    if contains(alive, group) {
        leftover.push(group);
    }
    commands.leftover = leftover;
    let count: usize = commands.running.len();
    let ghost before = commands.running@;
    for i in 0..count
        invariant
            commands.running@ == before,
            count == before.len(),
            before == old(commands).running@,
            isolation == Isolation::OwnGroup,
            commands@ == (CommandsView {
                leftover: forgotten(old(commands)@, group, isolation, alive@).leftover,
                ..old(commands)@
            }),
            forall|j: int| 0 <= j < i ==> before[j] != group,
    {
        if commands.running[i] == group {
            proof {
                assert(before[i as int] == group);
                lemma_first_of(before, group, i as int);
            }
            commands.running.swap_remove(i);
            return;
        }
    }
    assert(!before.contains(group));
}

/// A live group is on one of the lists when its command has ended, whatever was
/// on them before.
pub proof fn living_groups_stay_listed(
    commands: CommandsView,
    group: u32,
    alive: Seq<u32>,
)
    requires
        alive.contains(group),
    ensures
        forgotten(commands, group, Isolation::OwnGroup, alive).leftover.contains(group),
{
    let after = forgotten(commands, group, Isolation::OwnGroup, alive).leftover;
    assert(after[after.len() - 1] == group);
}

/// How far the start of a command in a group of its own has come. From `Begin`
/// to the step that ends it the command counts as starting.
pub enum SpawnStage {
    Begin,
    /// The command could not be started.
    NotSpawned { cause: String },
    /// The command runs.
    Spawned { group: u32 },
    /// The command was killed and collected, as it was to be.
    Killed { group: u32 },
}

/// What a `SpawnStage` tells.
#[verifier::ext_equal]
pub enum SpawnStageView {
    Begin,
    NotSpawned { cause: Seq<char> },
    Spawned { group: u32 },
    Killed { group: u32 },
}

impl View for SpawnStage {
    type V = SpawnStageView;

    open spec fn view(&self) -> SpawnStageView {
        match *self {
            SpawnStage::Begin => SpawnStageView::Begin,
            SpawnStage::NotSpawned { cause } => SpawnStageView::NotSpawned { cause: cause@ },
            SpawnStage::Spawned { group } => SpawnStageView::Spawned { group },
            SpawnStage::Killed { group } => SpawnStageView::Killed { group },
        }
    }
}

/// What the start of a command does next.
pub enum SpawnStep {
    /// Start the command, in a group of its own.
    Spawn,
    /// The command was started and is on the list.
    Started,
    /// Kill the command and collect it: an abort came in as it started.
    Kill { group: u32 },
    /// The command was not started.
    Refused { error: String },
}

/// What a `SpawnStep` says.
#[verifier::ext_equal]
pub enum SpawnStepView {
    Spawn,
    Started,
    Kill { group: u32 },
    Refused { error: Seq<char> },
}

impl View for SpawnStep {
    type V = SpawnStepView;

    open spec fn view(&self) -> SpawnStepView {
        match *self {
            SpawnStep::Spawn => SpawnStepView::Spawn,
            SpawnStep::Started => SpawnStepView::Started,
            SpawnStep::Kill { group } => SpawnStepView::Kill { group },
            SpawnStep::Refused { error } => SpawnStepView::Refused { error: error@ },
        }
    }
}

/// What is said of a command that an abort kept from starting.
pub open spec fn aborted_words() -> Seq<char> {
    "aborted before the command started"@
}

/// What is said of a command that is to start, where it may not.
pub open spec fn refusal(abandoned: bool) -> Option<Seq<char>> {
    if abandoned {
        Some(aborted_words())
    } else {
        None
    }
}

/// Refuses a command that may not start any more.
pub fn refuse_start(commands: &Commands) -> (r: Option<String>)
    ensures
        text::text_option(r) == refusal(commands.abandoned),
{
    if commands.abandoned {
        Some("aborted before the command started".to_owned())
    } else {
        None
    }
}

/// Why a command could not be started.
pub open spec fn unspawned_words(cause: Seq<char>) -> Seq<char> {
    "failed to run command: "@ + cause
}

/// Puts in words why a command could not be started.
pub fn not_spawned(cause: &str) -> (r: String)
    ensures
        r@ == unspawned_words(cause@),
{
    "failed to run command: ".to_owned().concat(cause)
}

/// What the start of a command has come to: the commands and the step that
/// follow.
pub open spec fn spawn_result(
    commands: CommandsView,
    stage: SpawnStageView,
    alive: Seq<u32>,
) -> (CommandsView, SpawnStepView) {
    match stage {
        SpawnStageView::Begin => if commands.abandoned {
            (commands, SpawnStepView::Refused { error: aborted_words() })
        } else {
            (
                CommandsView { spawning: commands.spawning + 1, ..commands },
                SpawnStepView::Spawn,
            )
        },
        SpawnStageView::NotSpawned { cause } => (
            commands.one_less_spawning(),
            SpawnStepView::Refused { error: unspawned_words(cause) },
        ),
        SpawnStageView::Spawned { group } => {
            let listed = CommandsView { running: commands.running.push(group), ..commands };
            if commands.abandoned {
                (listed, SpawnStepView::Kill { group })
            } else {
                (listed.one_less_spawning(), SpawnStepView::Started)
            }
        },
        SpawnStageView::Killed { group } => (
            forgotten(commands, group, Isolation::OwnGroup, alive).one_less_spawning(),
            SpawnStepView::Refused { error: aborted_words() },
        ),
    }
}

/// Starts a command in a group of its own and puts it on the list, so that a
/// stop reaches it. An abort that comes in meanwhile is answered by killing the
/// command once it is on the list, before it stops counting as starting.
pub fn spawn_tracked(commands: &mut Commands, stage: SpawnStage, alive: &Vec<u32>) -> (r: SpawnStep)
    requires
        stage is Begin ==> old(commands).spawning < usize::MAX,
        !(stage is Begin) ==> old(commands).spawning > 0,
    ensures
        (final(commands)@, r@) == spawn_result(old(commands)@, stage@, alive@),
{
    match stage {
        SpawnStage::Begin => match refuse_start(commands) {
            Some(error) => SpawnStep::Refused { error },
            None => {
                commands.spawning = commands.spawning + 1;
                SpawnStep::Spawn
            },
        },
        SpawnStage::NotSpawned { cause } => {
            commands.spawning = commands.spawning - 1;
            SpawnStep::Refused { error: not_spawned(cause.as_str()) }
        },
        SpawnStage::Spawned { group } => {
            commands.running.push(group);
            if commands.abandoned {
                SpawnStep::Kill { group }
            } else {
                commands.spawning = commands.spawning - 1;
                SpawnStep::Started
            }
        },
        SpawnStage::Killed { group } => {
            forget_running(commands, group, Isolation::OwnGroup, alive);
            commands.spawning = commands.spawning - 1;
            SpawnStep::Refused { error: "aborted before the command started".to_owned() }
        },
    }
}

/// Nothing starts once a run is given up: a command that has not begun is
/// refused, and one that slipped through is killed.
pub proof fn nothing_starts_after_an_abort(
    commands: CommandsView,
    group: u32,
    alive: Seq<u32>,
)
    requires
        commands.abandoned,
    ensures
        spawn_result(commands, SpawnStageView::Begin, alive).1 is Refused,
        spawn_result(commands, SpawnStageView::Spawned { group }, alive).1
            == (SpawnStepView::Kill { group }),
        spawn_result(commands, SpawnStageView::Killed { group }, alive).1 is Refused,
{
}

/// A command counts as starting from its beginning to the step that ends its
/// start, whatever comes in between, and no longer.
pub proof fn starts_are_counted(
    before: CommandsView,
    later: CommandsView,
    stage: SpawnStageView,
    alive: Seq<u32>,
)
    requires
        later.spawning > 0,
        !(stage is Begin),
    ensures
        spawn_result(before, SpawnStageView::Begin, alive).1 is Spawn ==> spawn_result(
            before,
            SpawnStageView::Begin,
            alive,
        ).0.spawning == before.spawning + 1,
        spawn_result(later, stage, alive).1 is Kill ==> spawn_result(later, stage, alive).0.spawning
            == later.spawning,
        !(spawn_result(later, stage, alive).1 is Kill) ==> spawn_result(
            later,
            stage,
            alive,
        ).0.spawning == later.spawning - 1,
{
}

/// Gives up a list or a sync: nothing more is started, and every group that
/// still has a member is killed.
pub fn terminate_running_commands(commands: &mut Commands, alive: &Vec<u32>) -> (r: SignalOrder)
    ensures
        (final(commands)@, r@) == old(commands)@.stopped(alive@, Signal::Kill),
{
    commands.abandoned = true;
    commands.prune(alive);
    SignalOrder { signal: Signal::Kill, groups: commands.listed() }
}

/// Asks a list or a sync to stop: nothing more is started, and every group that
/// still has a member gets the signal that Ctrl-C would have given it. The
/// groups stay listed, so that a later kill reaches one that ignores it.
pub fn interrupt_running_commands(commands: &mut Commands, alive: &Vec<u32>) -> (r: SignalOrder)
    ensures
        (final(commands)@, r@) == old(commands)@.stopped(alive@, Signal::Interrupt),
{
    commands.abandoned = true;
    commands.prune(alive);
    SignalOrder { signal: Signal::Interrupt, groups: commands.listed() }
}

/// A signal goes to every listed group that still has a member, and to no
/// other: the id of a group that is gone may have been given to somebody else.
pub proof fn signals_reach_living_groups_only(
    commands: CommandsView,
    alive: Seq<u32>,
    signal: Signal,
    group: u32,
)
    ensures
        commands.pruned(alive).order(signal).groups.contains(group) <==> alive.contains(group) && (
        commands.running.contains(group) || commands.leftover.contains(group)),
{
    living_is_exact(commands.running, alive);
    living_is_exact(commands.leftover, alive);
    let a = living(commands.running, alive);
    let b = living(commands.leftover, alive);
    if (a + b).contains(group) {
        let i = (a + b).index_of(group);
        if i < a.len() {
            assert(a[i] == group);
        } else {
            assert(b[i - a.len()] == group);
        }
    }
    if a.contains(group) {
        assert((a + b)[a.index_of(group)] == group);
    }
    if b.contains(group) {
        assert((a + b)[a.len() + b.index_of(group)] == group);
    }
}

/// How often a stop looks whether the commands have ended, in milliseconds.
pub const POLL_INTERVAL: u64 = 50;

/// How long a stop allows, in milliseconds, for a command that was starting as
/// the stop came in.
pub const SPAWN_GRACE: u64 = 1_000;

/// How far a stop has come.
#[derive(Debug, Clone, Copy, PartialEq, Eq, Structural)]
pub enum StopPhase {
    Start,
    /// The commands have just been asked to stop.
    Asked,
    /// They have until `deadline` to do so.
    Waiting { deadline: u64 },
    /// Those still there have just been killed.
    Killed,
    /// They have until `deadline` to be gone.
    Leaving { deadline: u64 },
    Done,
}

/// What a stop does next.
pub enum StopStep {
    /// Send the signal.
    Send { order: SignalOrder },
    /// Sleep for so many milliseconds.
    Sleep { millis: u64 },
    /// The stop is over.
    Done,
}

/// What a `StopStep` says.
#[verifier::ext_equal]
pub enum StopStepView {
    Send { order: SignalOrderView },
    Sleep { millis: nat },
    Done,
}

impl View for StopStep {
    type V = StopStepView;

    open spec fn view(&self) -> StopStepView {
        match *self {
            StopStep::Send { order } => StopStepView::Send { order: order@ },
            StopStep::Sleep { millis } => StopStepView::Sleep { millis: millis as nat },
            StopStep::Done => StopStepView::Done,
        }
    }
}

/// When the wait that a phase begins or goes on with is over.
pub open spec fn deadline_of(phase: StopPhase, now: u64, grace: u64) -> int {
    match phase {
        StopPhase::Asked => now + grace,
        StopPhase::Waiting { deadline } => deadline as int,
        StopPhase::Killed => now + SPAWN_GRACE,
        StopPhase::Leaving { deadline } => deadline as int,
        _ => now as int,
    }
}

/// Whether the commands have been killed by this phase.
pub open spec fn is_last_wait(phase: StopPhase) -> bool {
    phase is Killed || phase is Leaving
}

/// The phase of a wait until `deadline`.
pub open spec fn waiting(last: bool, deadline: int) -> StopPhase {
    if last {
        StopPhase::Leaving { deadline: deadline as u64 }
    } else {
        StopPhase::Waiting { deadline: deadline as u64 }
    }
}

/// What a stop has come to: the commands, the phase and the step that follow.
#[verifier::ext_equal]
pub struct StopResult {
    pub commands: CommandsView,
    pub phase: StopPhase,
    pub step: StopStepView,
}

/// How a stop of everything goes on: ask, wait for `grace`, kill what is still
/// there, and wait once more.
pub open spec fn stop_running_step(
    commands: CommandsView,
    phase: StopPhase,
    alive: Seq<u32>,
    now: u64,
    grace: u64,
) -> StopResult {
    let left = commands.pruned(alive);
    if phase is Start {
        StopResult {
            commands: left.given_up(),
            phase: StopPhase::Asked,
            step: StopStepView::Send { order: left.order(Signal::Interrupt) },
        }
    } else if phase is Done {
        StopResult { commands, phase, step: StopStepView::Done }
    } else if left.is_quiet() {
        StopResult { commands: left, phase: StopPhase::Done, step: StopStepView::Done }
    } else if now < deadline_of(phase, now, grace) {
        StopResult {
            commands: left,
            phase: waiting(is_last_wait(phase), deadline_of(phase, now, grace)),
            step: StopStepView::Sleep { millis: POLL_INTERVAL as nat },
        }
    } else if is_last_wait(phase) {
        StopResult { commands: left, phase: StopPhase::Done, step: StopStepView::Done }
    } else {
        StopResult {
            commands: left.given_up(),
            phase: StopPhase::Killed,
            step: StopStepView::Send { order: left.order(Signal::Kill) },
        }
    }
}

fn deadline_in(phase: StopPhase, now: u64, grace: u64) -> (r: u64)
    requires
        now + grace <= u64::MAX,
        now + SPAWN_GRACE <= u64::MAX,
    ensures
        r == deadline_of(phase, now, grace),
{
    match phase {
        StopPhase::Asked => now + grace,
        StopPhase::Waiting { deadline } => deadline,
        StopPhase::Killed => now + SPAWN_GRACE,
        StopPhase::Leaving { deadline } => deadline,
        _ => now,
    }
}

fn last_wait(phase: StopPhase) -> (r: bool)
    ensures
        r == is_last_wait(phase),
{
    match phase {
        StopPhase::Killed => true,
        StopPhase::Leaving { deadline: _ } => true,
        _ => false,
    }
}

fn wait_until(phase: StopPhase, deadline: u64) -> (r: (StopPhase, StopStep))
    ensures
        r.0 == waiting(is_last_wait(phase), deadline as int),
        r.1@ == (StopStepView::Sleep { millis: POLL_INTERVAL as nat }),
{
    if last_wait(phase) {
        (StopPhase::Leaving { deadline }, StopStep::Sleep { millis: POLL_INTERVAL })
    } else {
        (StopPhase::Waiting { deadline }, StopStep::Sleep { millis: POLL_INTERVAL })
    }
}

/// Stops a list or a sync for good: asks the commands to stop, gives them
/// `grace` milliseconds to do so, and kills whatever is still there. `now` is
/// the time in milliseconds; each step that is returned is done before the next
/// call.
pub fn stop_running_commands(
    commands: &mut Commands,
    phase: StopPhase,
    alive: &Vec<u32>,
    now: u64,
    grace: u64,
) -> (r: (StopPhase, StopStep))
    requires
        now + grace <= u64::MAX,
        now + SPAWN_GRACE <= u64::MAX,
    ensures
        (StopResult { commands: final(commands)@, phase: r.0, step: r.1@ }) == stop_running_step(
            old(commands)@,
            phase,
            alive@,
            now,
            grace,
        ),
{
    match phase {
        StopPhase::Start => {
            let order = interrupt_running_commands(commands, alive);
            return (StopPhase::Asked, StopStep::Send { order });
        },
        StopPhase::Done => return (phase, StopStep::Done),
        _ => {},
    }
    commands.prune(alive);
    let left: usize = commands.running.len();
    let behind: usize = commands.leftover.len();
    if left == 0 && behind == 0 && commands.spawning == 0 {
        return (StopPhase::Done, StopStep::Done);
    }
    let deadline = deadline_in(phase, now, grace);
    if now < deadline {
        return wait_until(phase, deadline);
    }
    if last_wait(phase) {
        return (StopPhase::Done, StopStep::Done);
    }
    commands.abandoned = true;
    let order = SignalOrder { signal: Signal::Kill, groups: commands.listed() };
    (StopPhase::Killed, StopStep::Send { order })
}

/// How a stop of what was left behind goes on. Nothing is given up by it.
pub open spec fn stop_leftover_step(
    commands: CommandsView,
    phase: StopPhase,
    alive: Seq<u32>,
    now: u64,
    grace: u64,
) -> StopResult {
    let left = commands.leftover_pruned(alive);
    if phase is Start {
        StopResult {
            commands: left,
            phase: StopPhase::Asked,
            step: StopStepView::Send {
                order: SignalOrderView { signal: Signal::Interrupt, groups: left.leftover },
            },
        }
    } else if phase is Done {
        StopResult { commands, phase, step: StopStepView::Done }
    } else if left.leftover.len() == 0 {
        StopResult { commands: left, phase: StopPhase::Done, step: StopStepView::Done }
    } else if now < deadline_of(phase, now, grace) {
        StopResult {
            commands: left,
            phase: waiting(is_last_wait(phase), deadline_of(phase, now, grace)),
            step: StopStepView::Sleep { millis: POLL_INTERVAL as nat },
        }
    } else if is_last_wait(phase) {
        StopResult { commands: left, phase: StopPhase::Done, step: StopStepView::Done }
    } else {
        StopResult {
            commands: left,
            phase: StopPhase::Killed,
            step: StopStepView::Send {
                order: SignalOrderView { signal: Signal::Kill, groups: left.leftover },
            },
        }
    }
}

/// Stops what a finished run left behind, and nothing that runs: asks, waits for
/// `grace` milliseconds, kills what is still there, and waits once more.
pub fn stop_leftover_commands(
    commands: &mut Commands,
    phase: StopPhase,
    alive: &Vec<u32>,
    now: u64,
    grace: u64,
) -> (r: (StopPhase, StopStep))
    requires
        now + grace <= u64::MAX,
        now + SPAWN_GRACE <= u64::MAX,
    ensures
        (StopResult { commands: final(commands)@, phase: r.0, step: r.1@ }) == stop_leftover_step(
            old(commands)@,
            phase,
            alive@,
            now,
            grace,
        ),
{
    match phase {
        StopPhase::Done => return (phase, StopStep::Done),
        _ => {},
    }
    commands.leftover = living_of(&commands.leftover, alive);
    let signal = match phase {
        StopPhase::Start => Signal::Interrupt,
        _ => Signal::Kill,
    };
    let next = match phase {
        StopPhase::Start => StopPhase::Asked,
        _ => {
            let behind: usize = commands.leftover.len();
            if behind == 0 {
                return (StopPhase::Done, StopStep::Done);
            }
            let deadline = deadline_in(phase, now, grace);
            if now < deadline {
                return wait_until(phase, deadline);
            }
            if last_wait(phase) {
                return (StopPhase::Done, StopStep::Done);
            }
            StopPhase::Killed
        },
    };
    let order = SignalOrder { signal, groups: copy_of(&commands.leftover) };
    (next, StopStep::Send { order })
}

/// Giving up is for good: no operation takes it back.
pub proof fn an_abort_is_never_undone(
    commands: CommandsView,
    group: u32,
    isolation: Isolation,
    stage: SpawnStageView,
    phase: StopPhase,
    alive: Seq<u32>,
    now: u64,
    grace: u64,
)
    requires
        commands.abandoned,
    ensures
        forgotten(commands, group, isolation, alive).abandoned,
        spawn_result(commands, stage, alive).0.abandoned,
        stop_running_step(commands, phase, alive, now, grace).commands.abandoned,
        stop_leftover_step(commands, phase, alive, now, grace).commands.abandoned,
{
}

/// A stop of everything gives up at once, asks every living group to stop, and
/// kills only those that are still there when their grace is over. It ends
/// early only when nothing runs, nothing was left behind and nothing is
/// starting.
pub proof fn a_stop_asks_before_it_kills(
    commands: CommandsView,
    phase: StopPhase,
    alive: Seq<u32>,
    now: u64,
    grace: u64,
)
    ensures
        ({
            let next = stop_running_step(commands, phase, alive, now, grace);
            let left = commands.pruned(alive);
            &&& phase is Start ==> next.commands.abandoned && next.step == (StopStepView::Send {
                order: left.order(Signal::Interrupt),
            })
            &&& next.step is Send && next.step->order.signal == Signal::Kill ==> {
                &&& phase is Asked || phase is Waiting
                &&& now >= deadline_of(phase, now, grace)
                &&& !left.is_quiet()
                &&& next.step->order == left.order(Signal::Kill)
            }
            &&& next.step is Done && (phase is Asked || phase is Waiting)
                ==> next.commands.is_quiet()
            &&& next.step is Done && (phase is Killed || phase is Leaving)
                ==> next.commands.is_quiet() || now >= deadline_of(phase, now, grace)
        }),
{
}

/// A stop of what was left behind touches nothing else: what runs and what
/// starts stay as they are, nothing is given up, and no signal goes to a group
/// that was not left behind.
pub proof fn a_leftover_stop_touches_leftovers_only(
    commands: CommandsView,
    phase: StopPhase,
    alive: Seq<u32>,
    now: u64,
    grace: u64,
)
    ensures
        ({
            let next = stop_leftover_step(commands, phase, alive, now, grace);
            &&& next.commands.running == commands.running
            &&& next.commands.spawning == commands.spawning
            &&& next.commands.abandoned == commands.abandoned
            &&& next.step is Send ==> forall|group: u32| #[trigger]
                next.step->order.groups.contains(group) <==> commands.leftover.contains(group)
                    && alive.contains(group)
        }),
{
    living_is_exact(commands.leftover, alive);
}

/// How many phases a stop has behind it.
pub open spec fn phases_behind(phase: StopPhase) -> nat {
    match phase {
        StopPhase::Start => 0,
        StopPhase::Asked => 1,
        StopPhase::Waiting { .. } => 2,
        StopPhase::Killed => 3,
        StopPhase::Leaving { .. } => 4,
        StopPhase::Done => 5,
    }
}

/// A stop comes to its end: each step but a sleep leads to a later phase, and a
/// stop sleeps only while its deadline, which it then keeps, is still ahead.
pub proof fn stops_end(
    commands: CommandsView,
    phase: StopPhase,
    alive: Seq<u32>,
    now: u64,
    grace: u64,
)
    requires
        now + grace <= u64::MAX,
        now + SPAWN_GRACE <= u64::MAX,
    ensures
        ({
            let next = stop_running_step(commands, phase, alive, now, grace);
            &&& !(next.step is Sleep) && !(phase is Done) ==> phases_behind(next.phase)
                > phases_behind(phase)
            &&& next.step is Sleep ==> now < deadline_of(next.phase, now, grace) == deadline_of(
                phase,
                now,
                grace,
            )
        }),
        ({
            let next = stop_leftover_step(commands, phase, alive, now, grace);
            &&& !(next.step is Sleep) && !(phase is Done) ==> phases_behind(next.phase)
                > phases_behind(phase)
            &&& next.step is Sleep ==> now < deadline_of(next.phase, now, grace) == deadline_of(
                phase,
                now,
                grace,
            )
        }),
{
}

/// The groups that live are kept in the order of the list.
pub proof fn living_groups_keep_their_order(list: Seq<u32>, group: u32, alive: Seq<u32>)
    ensures
        living(Seq::empty(), alive).len() == 0,
        living(list.push(group), alive) == if alive.contains(group) {
            living(list, alive).push(group)
        } else {
            living(list, alive)
        },
{
    assert(list.push(group).drop_last() =~= list);
}

/// Taking a group off a list takes the first that stands there, puts the last of
/// the list in its place, and moves no other; a group that is not listed takes
/// nothing off.
pub proof fn one_group_is_taken_off(list: Seq<u32>, group: u32, i: int, j: int)
    requires
        0 <= i < list.len(),
        list[i] == group,
        forall|k: int| 0 <= k < i ==> #[trigger] list[k] != group,
        0 <= j < list.len() - 1,
    ensures
        without(list, group).len() == list.len() - 1,
        without(list, group)[j] == if j == i {
            list.last()
        } else {
            list[j]
        },
        forall|other: u32| !list.contains(other) ==> #[trigger] without(list, other) == list,
{
    lemma_first_of(list, group, i);
    assert(list.contains(group));
}

/// When a command in a group of its own has ended, its group is no longer among
/// those that run; it is left over where it still has a member. A command in the
/// group of this process leaves the lists as they are.
pub proof fn ended_commands_are_taken_off(
    commands: CommandsView,
    group: u32,
    alive: Seq<u32>,
)
    ensures
        forgotten(commands, group, Isolation::SharedGroup, alive) == commands,
        ({
            let after = forgotten(commands, group, Isolation::OwnGroup, alive);
            &&& after.running == without(commands.running, group)
            &&& after.leftover == if alive.contains(group) {
                living(commands.leftover, alive).push(group)
            } else {
                living(commands.leftover, alive)
            }
            &&& after.spawning == commands.spawning
            &&& after.abandoned == commands.abandoned
        }),
{
}

/// A stop looks at the groups that live, keeps what is starting, and reaches those
/// that run before those that were left behind.
pub proof fn stops_look_at_what_lives(commands: CommandsView, alive: Seq<u32>, signal: Signal)
    ensures
        commands.pruned(alive).running == living(commands.running, alive),
        commands.pruned(alive).leftover == living(commands.leftover, alive),
        commands.pruned(alive).spawning == commands.spawning,
        commands.pruned(alive).abandoned == commands.abandoned,
        commands.given_up().abandoned,
        commands.given_up().running == commands.running,
        commands.given_up().leftover == commands.leftover,
        commands.given_up().spawning == commands.spawning,
        commands.order(signal).signal == signal,
        commands.order(signal).groups == commands.running + commands.leftover,
        commands.is_quiet() <==> commands.running.len() + commands.leftover.len()
            + commands.spawning == 0,
{
}

/// How a start goes on: it begins unless everything was given up; a command that
/// runs is put on the list, and killed where everything was given up meanwhile.
/// The words say why a command did not start.
pub proof fn starts_go_step_by_step(
    commands: CommandsView,
    group: u32,
    cause: Seq<char>,
    alive: Seq<u32>,
)
    requires
        commands.spawning > 0,
    ensures
        ({
            let (after, step) = spawn_result(commands, SpawnStageView::Begin, alive);
            &&& commands.abandoned ==> after == commands && step == (SpawnStepView::Refused {
                error: "aborted before the command started"@,
            })
            &&& !commands.abandoned ==> step == SpawnStepView::Spawn && after == (CommandsView {
                spawning: commands.spawning + 1,
                ..commands
            })
        }),
        spawn_result(commands, SpawnStageView::NotSpawned { cause }, alive) == (
            CommandsView { spawning: (commands.spawning - 1) as nat, ..commands },
            SpawnStepView::Refused { error: "failed to run command: "@ + cause },
        ),
        ({
            let (after, step) = spawn_result(commands, SpawnStageView::Spawned { group }, alive);
            &&& after.running == commands.running.push(group)
            &&& after.leftover == commands.leftover
            &&& after.abandoned == commands.abandoned
            &&& commands.abandoned ==> step == (SpawnStepView::Kill { group }) && after.spawning
                == commands.spawning
            &&& !commands.abandoned ==> step == SpawnStepView::Started && after.spawning
                == commands.spawning - 1
        }),
        ({
            let (after, step) = spawn_result(commands, SpawnStageView::Killed { group }, alive);
            let rest = forgotten(commands, group, Isolation::OwnGroup, alive);
            &&& step == (SpawnStepView::Refused { error: "aborted before the command started"@ })
            &&& after == (CommandsView { spawning: (commands.spawning - 1) as nat, ..rest })
        }),
        refusal(true) == Some("aborted before the command started"@),
        refusal(false) is None,
{
}

/// A stop waits for the grace that it was given, and for a second after it has
/// killed; it looks every fifty milliseconds. What is still there when the grace
/// is over is killed; then the stop ends with the second wait.
pub proof fn stops_keep_their_times(
    commands: CommandsView,
    phase: StopPhase,
    alive: Seq<u32>,
    now: u64,
    grace: u64,
)
    requires
        now + grace <= u64::MAX,
        now + 1_000 <= u64::MAX,
        !(phase is Start),
        !(phase is Done),
    ensures
        ({
            let deadline = match phase {
                StopPhase::Asked => now + grace,
                StopPhase::Waiting { deadline } => deadline as int,
                StopPhase::Killed => now + 1_000,
                StopPhase::Leaving { deadline } => deadline as int,
                _ => now as int,
            };
            let left = commands.pruned(alive);
            let next = stop_running_step(commands, phase, alive, now, grace);
            let behind = commands.leftover_pruned(alive);
            let after = stop_leftover_step(commands, phase, alive, now, grace);
            &&& left.is_quiet() ==> next.step == StopStepView::Done && next.phase
                == StopPhase::Done
            &&& !left.is_quiet() && now < deadline ==> {
                &&& next.step == (StopStepView::Sleep { millis: 50 })
                &&& next.phase == if phase is Asked || phase is Waiting {
                    StopPhase::Waiting { deadline: deadline as u64 }
                } else {
                    StopPhase::Leaving { deadline: deadline as u64 }
                }
            }
            &&& !left.is_quiet() && now >= deadline && (phase is Asked || phase is Waiting) ==> {
                &&& next.step == (StopStepView::Send { order: left.order(Signal::Kill) })
                &&& next.phase == StopPhase::Killed
            }
            &&& !left.is_quiet() && now >= deadline && (phase is Killed || phase is Leaving) ==> {
                &&& next.step == StopStepView::Done
                &&& next.phase == StopPhase::Done
            }
            &&& behind.leftover == living(commands.leftover, alive)
            &&& behind.leftover.len() == 0 ==> after.step == StopStepView::Done && after.phase
                == StopPhase::Done
            &&& behind.leftover.len() > 0 && now < deadline ==> {
                &&& after.step == (StopStepView::Sleep { millis: 50 })
                &&& after.phase == next.phase || left.is_quiet()
                &&& after.phase == if phase is Asked || phase is Waiting {
                    StopPhase::Waiting { deadline: deadline as u64 }
                } else {
                    StopPhase::Leaving { deadline: deadline as u64 }
                }
            }
            &&& behind.leftover.len() > 0 && now >= deadline && (phase is Asked || phase is Waiting)
                ==> {
                &&& after.step == (StopStepView::Send {
                    order: SignalOrderView { signal: Signal::Kill, groups: behind.leftover },
                })
                &&& after.phase == StopPhase::Killed
            }
            &&& behind.leftover.len() > 0 && now >= deadline && (phase is Killed || phase
                is Leaving) ==> {
                &&& after.step == StopStepView::Done
                &&& after.phase == StopPhase::Done
            }
        }),
{
}

/// A stop of what was left behind asks first, too.
pub proof fn a_leftover_stop_asks_before_it_kills(
    commands: CommandsView,
    alive: Seq<u32>,
    now: u64,
    grace: u64,
)
    ensures
        stop_leftover_step(commands, StopPhase::Start, alive, now, grace).step
            == (StopStepView::Send {
            order: SignalOrderView {
                signal: Signal::Interrupt,
                groups: living(commands.leftover, alive),
            },
        }),
        stop_leftover_step(commands, StopPhase::Start, alive, now, grace).phase == StopPhase::Asked,
        stop_running_step(commands, StopPhase::Start, alive, now, grace).phase == StopPhase::Asked,
        stop_leftover_step(commands, StopPhase::Done, alive, now, grace).step == StopStepView::Done,
        stop_running_step(commands, StopPhase::Done, alive, now, grace).step == StopStepView::Done,
{
}

/// A stop gives everything up, forgets the groups that are gone, and sends its
/// signal to all that live, those that run and those that were left behind.
pub proof fn stops_give_everything_up(
    commands: CommandsView,
    alive: Seq<u32>,
    signal: Signal,
    group: u32,
)
    ensures
        ({
            let (after, order) = commands.stopped(alive, signal);
            &&& after.abandoned
            &&& after.spawning == commands.spawning
            &&& after.running == living(commands.running, alive)
            &&& after.leftover == living(commands.leftover, alive)
            &&& order.signal == signal
            &&& order.groups.contains(group) <==> alive.contains(group) && (
            commands.running.contains(group) || commands.leftover.contains(group))
        }),
        CommandsView::idle().is_quiet(),
        !CommandsView::idle().abandoned,
{
    signals_reach_living_groups_only(commands, alive, signal, group);
}

} // verus!
