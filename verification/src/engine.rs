//! One cycle of the poll loop: from what the devices report to the commands
//! to carry out.

use vstd::prelude::*;
use crate::keycodes::TriggerKey;
use crate::keys::OutputKey;
use crate::symbols::{Direction, MouseButton, Target, Trigger};
use crate::table::{
    delay_fits, delays_fit, entries_view, ActionStep, EntryView, MappingTable, TableView,
};

verus! {

/// The milliseconds to wait at the end of every cycle.
pub const POLL_INTERVAL_MS: u64 = 50;

/// What the devices report at one moment: the keys that are down, and
/// whether the left and the right button of the mouse are down.
#[derive(Clone, Debug, PartialEq, Eq)]
pub struct Snapshot {
    pub keys: Vec<TriggerKey>,
    pub left_button: bool,
    pub right_button: bool,
}

/// A `Snapshot` with its keys as a sequence.
pub struct SnapshotView {
    pub keys: Seq<TriggerKey>,
    pub left_button: bool,
    pub right_button: bool,
}

impl View for Snapshot {
    type V = SnapshotView;

    open spec fn view(&self) -> SnapshotView {
        SnapshotView {
            keys: self.keys@,
            left_button: self.left_button,
            right_button: self.right_button,
        }
    }
}

/// One thing for the loop to carry out.
#[derive(Clone, Copy, Debug, PartialEq, Eq, Structural)]
pub enum Command {
    /// Wait for the given milliseconds.
    Sleep(u64),
    /// Inject a key in the given direction.
    Key(OutputKey, Direction),
    /// Inject a button of the mouse in the given direction.
    Button(MouseButton, Direction),
}

/// The button that counts as down: the left one where it is down, else the
/// right one where it is down, else none.
pub open spec fn button_down(snapshot: SnapshotView) -> Option<MouseButton> {
    if snapshot.left_button {
        Some(MouseButton::Left)
    } else if snapshot.right_button {
        Some(MouseButton::Right)
    } else {
        None
    }
}

/// Whether a trigger is set off: a button where it is the one that counts as
/// down, a key where it is among the keys that are down.
pub open spec fn is_active(trigger: Trigger, snapshot: SnapshotView) -> bool {
    match trigger {
        Trigger::Button(button) => button_down(snapshot) == Some(button),
        Trigger::Key(key) => snapshot.keys.contains(key),
    }
}

/// The injection that a step calls for.
pub open spec fn injection_of(step: ActionStep) -> Command {
    match step.target {
        Target::Button(button) => Command::Button(button, step.direction),
        Target::Key(key) => Command::Key(key, step.direction),
    }
}

/// The commands of one step: a wait of the step's delay and the global delay
/// together, unless both are zero, and then the injection.
pub open spec fn step_commands(step: ActionStep, global_delay: u64) -> Seq<Command> {
    if step.delay + global_delay > 0 {
        seq![Command::Sleep((step.delay + global_delay) as u64), injection_of(step)]
    } else {
        seq![injection_of(step)]
    }
}

/// The commands of a run of steps, step after step.
pub open spec fn replay_commands(steps: Seq<ActionStep>, global_delay: u64) -> Seq<Command>
    decreases steps.len(),
{
    if steps.len() == 0 {
        Seq::empty()
    } else {
        replay_commands(steps.drop_last(), global_delay) + step_commands(
            steps.last(),
            global_delay,
        )
    }
}

/// The commands of one entry: those of its steps where its trigger is set
/// off, none where it is not.
pub open spec fn entry_commands(
    entry: EntryView,
    global_delay: u64,
    snapshot: SnapshotView,
) -> Seq<Command> {
    if is_active(entry.trigger, snapshot) {
        replay_commands(entry.steps, global_delay)
    } else {
        Seq::empty()
    }
}

/// The commands of a run of entries, entry after entry.
pub open spec fn scan_commands(
    entries: Seq<EntryView>,
    global_delay: u64,
    snapshot: SnapshotView,
) -> Seq<Command>
    decreases entries.len(),
{
    if entries.len() == 0 {
        Seq::empty()
    } else {
        scan_commands(entries.drop_last(), global_delay, snapshot) + entry_commands(
            entries.last(),
            global_delay,
            snapshot,
        )
    }
}

/// The commands of one cycle: those of every entry whose trigger is set off,
/// in the order of the table, and then the wait that ends the cycle.
pub open spec fn cycle_commands(table: TableView, snapshot: SnapshotView) -> Seq<Command> {
    scan_commands(table.entries, table.global_delay, snapshot).push(
        Command::Sleep(POLL_INTERVAL_MS),
    )
}

/// Whether a command injects a key or a button.
pub open spec fn is_injection(command: Command) -> bool {
    !(command is Sleep)
}

impl Snapshot {
    /// The button that counts as down.
    pub fn button_down(&self) -> (button: Option<MouseButton>)
        ensures
            button == button_down(self@),
    {
        if self.left_button {
            Some(MouseButton::Left)
        } else if self.right_button {
            Some(MouseButton::Right)
        } else {
            None
        }
    }

    /// Whether a key is among the keys that are down.
    pub fn key_down(&self, key: TriggerKey) -> (down: bool)
        ensures
            down == self@.keys.contains(key),
    {
        let mut i: usize = 0;
        while i < self.keys.len()
            invariant
                i <= self.keys.len(),
                forall|j: int| 0 <= j < i ==> self.keys@[j] != key,
            decreases self.keys.len() - i,
        {
            if self.keys[i] == key {
                return true;
            }
            i = i + 1;
        }
        false
    }

    /// Whether a trigger is set off.
    pub fn is_active(&self, trigger: Trigger) -> (active: bool)
        ensures
            active == is_active(trigger, self@),
    {
        match trigger {
            Trigger::Button(button) => match self.button_down() {
                Some(down) => down == button,
                None => false,
            },
            Trigger::Key(key) => self.key_down(key),
        }
    }
}

/// Appends the commands of a run of steps to a plan.
pub fn replay(plan: &mut Vec<Command>, steps: &Vec<ActionStep>, global_delay: u64)
    requires
        forall|j: int| 0 <= j < steps@.len() ==> delay_fits(#[trigger] steps@[j], global_delay),
    ensures
        final(plan)@ == old(plan)@ + replay_commands(steps@, global_delay),
{
    let mut j: usize = 0;
    assert(steps@.take(0) =~= Seq::empty());
    assert(plan@ =~= old(plan)@ + Seq::<Command>::empty());
    while j < steps.len()
        invariant
            j <= steps.len(),
            forall|k: int| 0 <= k < steps@.len() ==> delay_fits(#[trigger] steps@[k], global_delay),
            plan@ == old(plan)@ + replay_commands(steps@.take(j as int), global_delay),
        decreases steps.len() - j,
    {
        let step = steps[j];
        let ghost before = plan@;
        proof {
            assert(steps@.take(j + 1).drop_last() =~= steps@.take(j as int));
            assert(steps@.take(j + 1).last() == step);
            assert(delay_fits(steps@[j as int], global_delay));
        }
        if step.delay > 0 || global_delay > 0 {
            plan.push(Command::Sleep(step.delay + global_delay));
        }
        match step.target {
            Target::Button(button) => {
                plan.push(Command::Button(button, step.direction));
            },
            Target::Key(key) => {
                plan.push(Command::Key(key, step.direction));
            },
        }
        assert(plan@ =~= before + step_commands(step, global_delay));
        assert(plan@ =~= old(plan)@ + replay_commands(steps@.take(j + 1), global_delay));
        j = j + 1;
    }
    assert(steps@.take(j as int) =~= steps@);
}

/// The commands of one cycle of the poll loop.
///
/// Every entry of the table whose trigger the snapshot sets off has its steps
/// replayed, in the order of the table: before each injection a wait of the
/// step's delay and the global delay together, unless both are zero. A wait
/// of `POLL_INTERVAL_MS` ends the cycle. A trigger that stays set off over
/// several cycles is replayed in each of them.
pub fn plan_cycle(table: &MappingTable, snapshot: &Snapshot) -> (plan: Vec<Command>)
    ensures
        plan@ == cycle_commands(table@, snapshot@),
{
    proof {
        use_type_invariant(table);
    }
    let global_delay: u64 = table.global_delay();
    let entries = table.entries();
    let ghost all = table@.entries;
    let mut plan: Vec<Command> = Vec::new();
    let mut i: usize = 0;
    assert(all.take(0) =~= Seq::empty());
    while i < entries.len()
        invariant
            i <= entries.len(),
            all == entries_view(entries@),
            all == table@.entries,
            global_delay == table@.global_delay,
            delays_fit(table@),
            plan@ == scan_commands(all.take(i as int), global_delay, snapshot@),
        decreases entries.len() - i,
    {
        let entry = &entries[i];
        proof {
            assert(all.take(i + 1).drop_last() =~= all.take(i as int));
            assert(all.take(i + 1).last() == entry@);
            assert(all[i as int] == entry@);
            assert forall|j: int| 0 <= j < entry.steps@.len() implies delay_fits(
                #[trigger] entry.steps@[j],
                global_delay,
            ) by {
                assert(delay_fits(table@.entries[i as int].steps[j], table@.global_delay));
            }
        }
        if snapshot.is_active(entry.trigger) {
            replay(&mut plan, &entry.steps, global_delay);
        } else {
            assert(plan@ =~= plan@ + Seq::<Command>::empty());
        }
        i = i + 1;
    }
    assert(all.take(i as int) =~= all);
    plan.push(Command::Sleep(POLL_INTERVAL_MS));
    plan
}

/// A table without entries calls for no injection, whatever the devices
/// report: its cycle is the closing wait alone.
pub proof fn lemma_empty_table_injects_nothing(table: TableView, snapshot: SnapshotView)
    requires
        table.entries.len() == 0,
    ensures
        cycle_commands(table, snapshot) == seq![Command::Sleep(POLL_INTERVAL_MS)],
        forall|k: int|
            0 <= k < cycle_commands(table, snapshot).len() ==> !is_injection(
                #[trigger] cycle_commands(table, snapshot)[k],
            ),
{
    assert(cycle_commands(table, snapshot) =~= seq![Command::Sleep(POLL_INTERVAL_MS)]);
}

/// Where no key and no button is down, no table calls for an injection: the
/// cycle is the closing wait alone.
pub proof fn lemma_idle_devices_inject_nothing(table: TableView, snapshot: SnapshotView)
    requires
        snapshot.keys.len() == 0,
        !snapshot.left_button,
        !snapshot.right_button,
    ensures
        cycle_commands(table, snapshot) == seq![Command::Sleep(POLL_INTERVAL_MS)],
{
    lemma_idle_scan_is_empty(table.entries, table.global_delay, snapshot);
    assert(cycle_commands(table, snapshot) =~= seq![Command::Sleep(POLL_INTERVAL_MS)]);
}

/// Where no key and no button is down, a scan of any entries gives no
/// command.
pub proof fn lemma_idle_scan_is_empty(
    entries: Seq<EntryView>,
    global_delay: u64,
    snapshot: SnapshotView,
)
    requires
        snapshot.keys.len() == 0,
        !snapshot.left_button,
        !snapshot.right_button,
    ensures
        scan_commands(entries, global_delay, snapshot) == Seq::<Command>::empty(),
    decreases entries.len(),
{
    if entries.len() > 0 {
        lemma_idle_scan_is_empty(entries.drop_last(), global_delay, snapshot);
        assert(!is_active(entries.last().trigger, snapshot));
        assert(scan_commands(entries, global_delay, snapshot) =~= Seq::<Command>::empty());
    }
}

/// A step with a delay, or under a global delay, is a wait of both together
/// and then its injection; a step with neither is its injection alone.
pub proof fn lemma_step_waits_then_injects(step: ActionStep, global_delay: u64)
    requires
        delay_fits(step, global_delay),
    ensures
        step.delay > 0 || global_delay > 0 ==> step_commands(step, global_delay) == seq![
            Command::Sleep((step.delay + global_delay) as u64),
            injection_of(step),
        ],
        step.delay == 0 && global_delay == 0 ==> step_commands(step, global_delay) == seq![
            injection_of(step),
        ],
        is_injection(step_commands(step, global_delay).last()),
{
}

} // verus!
