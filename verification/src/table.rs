//! The mapping table: a configuration with every symbol resolved.

use vstd::prelude::*;
use crate::config::{
    mappings_view, steps_view, Config, ConfigView, KeyPress, KeyPressView, Mapping, MappingView,
};
use crate::error::{ConfigError, ConfigErrorView};
use crate::symbols::{
    direction_for, parse_direction, string_to_target, string_to_trigger, target_for, trigger_for,
    Direction, Target, Trigger,
};

verus! {

/// One step of a mapping: what to inject, in which direction, and the
/// milliseconds to wait before it on top of the global delay.
#[derive(Clone, Copy, Debug, PartialEq, Eq, Structural)]
pub struct ActionStep {
    pub target: Target,
    pub delay: u64,
    pub direction: Direction,
}

/// A trigger and the steps that it replays, in order.
#[derive(Clone, Debug, PartialEq, Eq)]
pub struct MappingEntry {
    pub trigger: Trigger,
    pub steps: Vec<ActionStep>,
}

/// A `MappingEntry` with its steps as a sequence.
pub struct EntryView {
    pub trigger: Trigger,
    pub steps: Seq<ActionStep>,
}

impl View for MappingEntry {
    type V = EntryView;

    open spec fn view(&self) -> EntryView {
        EntryView { trigger: self.trigger, steps: self.steps@ }
    }
}

/// The views of a run of entries.
pub open spec fn entries_view(entries: Seq<MappingEntry>) -> Seq<EntryView> {
    entries.map_values(|entry: MappingEntry| entry@)
}

/// The mapping table: the global delay in milliseconds and the entries in the
/// order of the configuration. It is built once and never changed.
#[derive(Debug, PartialEq, Eq)]
pub struct MappingTable {
    global_delay: u64,
    entries: Vec<MappingEntry>,
}

/// A `MappingTable` with its entries as a sequence.
pub struct TableView {
    pub global_delay: u64,
    pub entries: Seq<EntryView>,
}

/// Whether the wait before a step, its own delay and the global delay
/// together, fits a delay.
pub open spec fn delay_fits(step: ActionStep, global_delay: u64) -> bool {
    step.delay + global_delay <= u64::MAX
}

/// Whether the wait before every step of every entry fits a delay.
pub open spec fn delays_fit(table: TableView) -> bool {
    forall|i: int, j: int|
        0 <= i < table.entries.len() && 0 <= j < table.entries[i].steps.len() ==> delay_fits(
            #[trigger] table.entries[i].steps[j],
            table.global_delay,
        )
}

/// The step that a written step resolves to, or the error that turns it
/// down: its target's name where that stands for nothing, else an overflow
/// where its wait does not fit.
pub open spec fn step_for(press: KeyPressView, global_delay: u64) -> Result<
    ActionStep,
    ConfigErrorView,
> {
    match target_for(press.key) {
        None => Err(ConfigErrorView::UnsupportedSymbol(press.key)),
        Some(target) => {
            let step = ActionStep {
                target,
                delay: match press.delay {
                    Some(delay) => delay,
                    None => 0,
                },
                direction: match press.direction {
                    Some(word) => direction_for(word),
                    None => Direction::Click,
                },
            };
            if delay_fits(step, global_delay) {
                Ok(step)
            } else {
                Err(ConfigErrorView::DelayOverflow)
            }
        },
    }
}

/// The steps that a run of written steps resolves to, or the error of the
/// first of them that is turned down.
pub open spec fn steps_for(presses: Seq<KeyPressView>, global_delay: u64) -> Result<
    Seq<ActionStep>,
    ConfigErrorView,
>
    decreases presses.len(),
{
    if presses.len() == 0 {
        Ok(Seq::empty())
    } else {
        match steps_for(presses.drop_last(), global_delay) {
            Err(error) => Err(error),
            Ok(steps) => match step_for(presses.last(), global_delay) {
                Err(error) => Err(error),
                Ok(step) => Ok(steps.push(step)),
            },
        }
    }
}

/// The entry that a written mapping resolves to, or the error that turns it
/// down: its trigger's name where that stands for nothing, else the error of
/// its steps.
pub open spec fn entry_for(mapping: MappingView, global_delay: u64) -> Result<
    EntryView,
    ConfigErrorView,
> {
    match trigger_for(mapping.trigger) {
        None => Err(ConfigErrorView::UnsupportedSymbol(mapping.trigger)),
        Some(trigger) => match steps_for(mapping.steps, global_delay) {
            Err(error) => Err(error),
            Ok(steps) => Ok(EntryView { trigger, steps }),
        },
    }
}

/// The entries that a run of written mappings resolves to, or the error of
/// the first of them that is turned down.
pub open spec fn entries_for(mappings: Seq<MappingView>, global_delay: u64) -> Result<
    Seq<EntryView>,
    ConfigErrorView,
>
    decreases mappings.len(),
{
    if mappings.len() == 0 {
        Ok(Seq::empty())
    } else {
        match entries_for(mappings.drop_last(), global_delay) {
            Err(error) => Err(error),
            Ok(entries) => match entry_for(mappings.last(), global_delay) {
                Err(error) => Err(error),
                Ok(entry) => Ok(entries.push(entry)),
            },
        }
    }
}

/// The global delay of a configuration: zero where none is written.
pub open spec fn global_delay_of(config: ConfigView) -> u64 {
    match config.global_delay {
        Some(delay) => delay,
        None => 0,
    }
}

/// The table that a configuration resolves to, or the error that turns the
/// configuration down.
pub open spec fn table_for(config: ConfigView) -> Result<TableView, ConfigErrorView> {
    match entries_for(config.mappings, global_delay_of(config)) {
        Err(error) => Err(error),
        Ok(entries) => Ok(TableView { global_delay: global_delay_of(config), entries }),
    }
}

impl View for MappingTable {
    type V = TableView;

    closed spec fn view(&self) -> TableView {
        TableView { global_delay: self.global_delay, entries: entries_view(self.entries@) }
    }
}

/// Resolves one written step.
pub fn resolve_step(press: &KeyPress, global_delay: u64) -> (r: Result<ActionStep, ConfigError>)
    ensures
        match r {
            Ok(step) => step_for(press@, global_delay) == Ok::<ActionStep, ConfigErrorView>(step),
            Err(error) => step_for(press@, global_delay) == Err::<ActionStep, ConfigErrorView>(
                error@,
            ),
        },
{
    let target = match string_to_target(press.key.as_str()) {
        Ok(target) => target,
        Err(error) => {
            return Err(error);
        },
    };
    let delay: u64 = match press.delay {
        Some(delay) => delay,
        None => 0,
    };
    let direction = match &press.direction {
        Some(word) => parse_direction(word.as_str()),
        None => Direction::Click,
    };
    if delay > u64::MAX - global_delay {
        return Err(ConfigError::DelayOverflow);
    }
    Ok(ActionStep { target, delay, direction })
}

/// Resolves the steps of one mapping, in order, up to the first that is
/// turned down.
pub fn resolve_steps(presses: &Vec<KeyPress>, global_delay: u64) -> (r: Result<
    Vec<ActionStep>,
    ConfigError,
>)
    ensures
        match r {
            Ok(steps) => steps_for(steps_view(presses@), global_delay) == Ok::<
                Seq<ActionStep>,
                ConfigErrorView,
            >(steps@),
            Err(error) => steps_for(steps_view(presses@), global_delay) == Err::<
                Seq<ActionStep>,
                ConfigErrorView,
            >(error@),
        },
{
    let ghost all = steps_view(presses@);
    let mut steps: Vec<ActionStep> = Vec::new();
    let mut i: usize = 0;
    assert(all.take(0) =~= Seq::empty());
    while i < presses.len()
        invariant
            i <= presses.len(),
            all == steps_view(presses@),
            steps_for(all.take(i as int), global_delay) == Ok::<Seq<ActionStep>, ConfigErrorView>(
                steps@,
            ),
        decreases presses.len() - i,
    {
        proof {
            assert(all.take(i + 1).drop_last() =~= all.take(i as int));
            assert(all.take(i + 1).last() == presses@[i as int]@);
        }
        match resolve_step(&presses[i], global_delay) {
            Ok(step) => {
                steps.push(step);
            },
            Err(error) => {
                proof {
                    lemma_steps_error_stays(all, i + 1, global_delay);
                }
                return Err(error);
            },
        }
        i = i + 1;
    }
    assert(all.take(i as int) =~= all);
    Ok(steps)
}

/// Once a run of written steps is turned down, every longer run is turned
/// down with the same error.
pub proof fn lemma_steps_error_stays(presses: Seq<KeyPressView>, n: int, global_delay: u64)
    requires
        0 <= n <= presses.len(),
        steps_for(presses.take(n), global_delay).is_err(),
    ensures
        steps_for(presses, global_delay) == steps_for(presses.take(n), global_delay),
    decreases presses.len(),
{
    if n < presses.len() {
        assert(presses.drop_last().take(n) =~= presses.take(n));
        lemma_steps_error_stays(presses.drop_last(), n, global_delay);
    } else {
        assert(presses.take(n) =~= presses);
    }
}

/// Once a run of written mappings is turned down, every longer run is turned
/// down with the same error.
pub proof fn lemma_entries_error_stays(mappings: Seq<MappingView>, n: int, global_delay: u64)
    requires
        0 <= n <= mappings.len(),
        entries_for(mappings.take(n), global_delay).is_err(),
    ensures
        entries_for(mappings, global_delay) == entries_for(mappings.take(n), global_delay),
    decreases mappings.len(),
{
    if n < mappings.len() {
        assert(mappings.drop_last().take(n) =~= mappings.take(n));
        lemma_entries_error_stays(mappings.drop_last(), n, global_delay);
    } else {
        assert(mappings.take(n) =~= mappings);
    }
}

/// Steps resolve as a whole exactly where each written step resolves, and
/// then one by one, in place.
pub proof fn lemma_steps_one_by_one(presses: Seq<KeyPressView>, global_delay: u64)
    ensures
        steps_for(presses, global_delay).is_ok() <==> forall|j: int|
            0 <= j < presses.len() ==> (#[trigger] step_for(presses[j], global_delay)).is_ok(),
        steps_for(presses, global_delay) matches Ok(steps) ==> steps.len() == presses.len()
            && forall|j: int|
            0 <= j < presses.len() ==> step_for(presses[j], global_delay) == Ok::<
                ActionStep,
                ConfigErrorView,
            >(#[trigger] steps[j]),
    decreases presses.len(),
{
    if presses.len() > 0 {
        let front = presses.drop_last();
        lemma_steps_one_by_one(front, global_delay);
        assert forall|j: int| 0 <= j < front.len() implies front[j] == presses[j] by {}
        if steps_for(presses, global_delay).is_ok() {
            assert forall|j: int| 0 <= j < presses.len() implies (#[trigger] step_for(
                presses[j],
                global_delay,
            )).is_ok() by {
                if j < front.len() {
                    assert(front[j] == presses[j]);
                }
            }
        }
        if forall|j: int|
            0 <= j < presses.len() ==> (#[trigger] step_for(presses[j], global_delay)).is_ok() {
            assert forall|j: int| 0 <= j < front.len() implies (#[trigger] step_for(
                front[j],
                global_delay,
            )).is_ok() by {
                assert(front[j] == presses[j]);
            }
            assert(step_for(presses.last(), global_delay).is_ok());
        }
    }
}

/// Mappings resolve as a whole exactly where each written mapping resolves,
/// and then one by one, in place.
pub proof fn lemma_entries_one_by_one(mappings: Seq<MappingView>, global_delay: u64)
    ensures
        entries_for(mappings, global_delay).is_ok() <==> forall|i: int|
            0 <= i < mappings.len() ==> (#[trigger] entry_for(mappings[i], global_delay)).is_ok(),
        entries_for(mappings, global_delay) matches Ok(entries) ==> entries.len()
            == mappings.len() && forall|i: int|
            0 <= i < mappings.len() ==> entry_for(mappings[i], global_delay) == Ok::<
                EntryView,
                ConfigErrorView,
            >(#[trigger] entries[i]),
    decreases mappings.len(),
{
    if mappings.len() > 0 {
        let front = mappings.drop_last();
        lemma_entries_one_by_one(front, global_delay);
        assert forall|i: int| 0 <= i < front.len() implies front[i] == mappings[i] by {}
        if entries_for(mappings, global_delay).is_ok() {
            assert forall|i: int| 0 <= i < mappings.len() implies (#[trigger] entry_for(
                mappings[i],
                global_delay,
            )).is_ok() by {
                if i < front.len() {
                    assert(front[i] == mappings[i]);
                }
            }
        }
        if forall|i: int|
            0 <= i < mappings.len() ==> (#[trigger] entry_for(mappings[i], global_delay)).is_ok() {
            assert forall|i: int| 0 <= i < front.len() implies (#[trigger] entry_for(
                front[i],
                global_delay,
            )).is_ok() by {
                assert(front[i] == mappings[i]);
            }
            assert(entry_for(mappings.last(), global_delay).is_ok());
        }
    }
}

/// A configuration in which a trigger's name stands for nothing resolves to
/// no table.
pub proof fn lemma_unknown_trigger_is_refused(config: ConfigView, i: int)
    requires
        0 <= i < config.mappings.len(),
        trigger_for(config.mappings[i].trigger).is_none(),
    ensures
        table_for(config).is_err(),
{
    lemma_entries_one_by_one(config.mappings, global_delay_of(config));
    assert(entry_for(config.mappings[i], global_delay_of(config)).is_err());
}

/// A configuration in which a target's name stands for nothing resolves to
/// no table.
pub proof fn lemma_unknown_target_is_refused(config: ConfigView, i: int, j: int)
    requires
        0 <= i < config.mappings.len(),
        0 <= j < config.mappings[i].steps.len(),
        target_for(config.mappings[i].steps[j].key).is_none(),
    ensures
        table_for(config).is_err(),
{
    let global_delay = global_delay_of(config);
    lemma_entries_one_by_one(config.mappings, global_delay);
    lemma_steps_one_by_one(config.mappings[i].steps, global_delay);
    assert(step_for(config.mappings[i].steps[j], global_delay).is_err());
    assert(entry_for(config.mappings[i], global_delay).is_err());
}

/// A configuration resolves to a table exactly where every trigger's name and
/// every target's name stands for something and every wait fits. The table
/// then holds, place by place, the trigger of each mapping and the step of
/// each written step, and the wait before each of its steps fits.
pub proof fn lemma_table_holds_resolved_symbols(config: ConfigView)
    ensures
        table_for(config).is_ok() <==> forall|i: int|
            0 <= i < config.mappings.len() ==> trigger_for(
                (#[trigger] config.mappings[i]).trigger,
            ).is_some() && forall|j: int|
                0 <= j < config.mappings[i].steps.len() ==> (#[trigger] step_for(
                    config.mappings[i].steps[j],
                    global_delay_of(config),
                )).is_ok(),
        table_for(config) matches Ok(table) ==> {
            &&& table.global_delay == global_delay_of(config)
            &&& table.entries.len() == config.mappings.len()
            &&& forall|i: int|
                0 <= i < config.mappings.len() ==> {
                    &&& trigger_for(config.mappings[i].trigger) == Some(
                        (#[trigger] table.entries[i]).trigger,
                    )
                    &&& table.entries[i].steps.len() == config.mappings[i].steps.len()
                }
            &&& forall|i: int, j: int|
                0 <= i < config.mappings.len() && 0 <= j < config.mappings[i].steps.len()
                    ==> step_for(config.mappings[i].steps[j], global_delay_of(config)) == Ok::<
                    ActionStep,
                    ConfigErrorView,
                >(#[trigger] table.entries[i].steps[j])
            &&& delays_fit(table)
        },
{
    let global_delay = global_delay_of(config);
    let mappings = config.mappings;
    lemma_entries_one_by_one(mappings, global_delay);
    assert forall|i: int| 0 <= i < mappings.len() implies ((#[trigger] entry_for(
        mappings[i],
        global_delay,
    )).is_ok() <==> trigger_for(mappings[i].trigger).is_some() && forall|j: int|
        0 <= j < mappings[i].steps.len() ==> (#[trigger] step_for(
            mappings[i].steps[j],
            global_delay,
        )).is_ok()) by {
        lemma_steps_one_by_one(mappings[i].steps, global_delay);
    }
    if table_for(config).is_ok() {
        assert forall|i: int| 0 <= i < mappings.len() implies trigger_for(
            (#[trigger] mappings[i]).trigger,
        ).is_some() && forall|j: int|
            0 <= j < mappings[i].steps.len() ==> (#[trigger] step_for(
                mappings[i].steps[j],
                global_delay,
            )).is_ok() by {
            assert(entry_for(mappings[i], global_delay).is_ok());
        }
    }
    if let Ok(table) = table_for(config) {
        assert forall|i: int| 0 <= i < mappings.len() implies {
            &&& trigger_for(mappings[i].trigger) == Some((#[trigger] table.entries[i]).trigger)
            &&& table.entries[i].steps.len() == mappings[i].steps.len()
        } by {
            lemma_steps_one_by_one(mappings[i].steps, global_delay);
            assert(entry_for(mappings[i], global_delay) == Ok::<EntryView, ConfigErrorView>(
                table.entries[i],
            ));
        }
        assert forall|i: int, j: int|
            0 <= i < mappings.len() && 0 <= j < mappings[i].steps.len() implies step_for(
            mappings[i].steps[j],
            global_delay,
        ) == Ok::<ActionStep, ConfigErrorView>(#[trigger] table.entries[i].steps[j]) by {
            lemma_steps_one_by_one(mappings[i].steps, global_delay);
            assert(entry_for(mappings[i], global_delay) == Ok::<EntryView, ConfigErrorView>(
                table.entries[i],
            ));
        }
        assert forall|i: int, j: int|
            0 <= i < table.entries.len() && 0 <= j < table.entries[i].steps.len() implies delay_fits(
            #[trigger] table.entries[i].steps[j],
            table.global_delay,
        ) by {
            assert(table.entries[i].steps.len() == mappings[i].steps.len());
            assert(step_for(mappings[i].steps[j], global_delay) == Ok::<
                ActionStep,
                ConfigErrorView,
            >(table.entries[i].steps[j]));
        }
    }
}

/// Resolves one written mapping: its trigger first, then its steps in order.
pub fn resolve_mapping(mapping: &Mapping, global_delay: u64) -> (r: Result<
    MappingEntry,
    ConfigError,
>)
    ensures
        match r {
            Ok(entry) => entry_for(mapping@, global_delay) == Ok::<EntryView, ConfigErrorView>(
                entry@,
            ),
            Err(error) => entry_for(mapping@, global_delay) == Err::<EntryView, ConfigErrorView>(
                error@,
            ),
        },
{
    let trigger = match string_to_trigger(mapping.trigger.as_str()) {
        Ok(trigger) => trigger,
        Err(error) => {
            return Err(error);
        },
    };
    match resolve_steps(&mapping.steps, global_delay) {
        Ok(steps) => Ok(MappingEntry { trigger, steps }),
        Err(error) => Err(error),
    }
}

impl MappingTable {
    /// Whether the wait before every step fits a delay.
    #[verifier::type_invariant]
    pub open spec fn wf(&self) -> bool {
        delays_fit(self@)
    }

    /// Builds the table of a configuration: the global delay, zero where
    /// none is written, and the mappings in order, every symbol resolved.
    /// The first symbol that stands for nothing, or the first wait that does
    /// not fit, turns the whole configuration down.
    pub fn build(config: &Config) -> (r: Result<MappingTable, ConfigError>)
        ensures
            match r {
                Ok(table) => table_for(config@) == Ok::<TableView, ConfigErrorView>(table@),
                Err(error) => table_for(config@) == Err::<TableView, ConfigErrorView>(error@),
            },
    {
        let global_delay: u64 = match config.global_delay() {
            Some(delay) => delay,
            None => 0,
        };
        let mappings = config.mappings();
        let ghost all = config@.mappings;
        let mut entries: Vec<MappingEntry> = Vec::new();
        let mut i: usize = 0;
        assert(all.take(0) =~= Seq::empty());
        assert(entries_view(entries@) =~= Seq::empty());
        while i < mappings.len()
            invariant
                i <= mappings.len(),
                all == mappings_view(mappings@),
                all == config@.mappings,
                global_delay == global_delay_of(config@),
                entries_for(all.take(i as int), global_delay) == Ok::<
                    Seq<EntryView>,
                    ConfigErrorView,
                >(entries_view(entries@)),
            decreases mappings.len() - i,
        {
            proof {
                assert(all.take(i + 1).drop_last() =~= all.take(i as int));
                assert(all.take(i + 1).last() == mappings@[i as int]@);
            }
            match resolve_mapping(&mappings[i], global_delay) {
                Ok(entry) => {
                    let ghost before = entries_view(entries@);
                    entries.push(entry);
                    assert(entries_view(entries@) =~= before.push(entry@));
                },
                Err(error) => {
                    proof {
                        lemma_entries_error_stays(all, i + 1, global_delay);
                    }
                    return Err(error);
                },
            }
            i = i + 1;
        }
        assert(all.take(i as int) =~= all);
        proof {
            lemma_table_holds_resolved_symbols(config@);
        }
        Ok(MappingTable { global_delay, entries })
    }

    /// The global delay in milliseconds.
    pub fn global_delay(&self) -> (delay: u64)
        ensures
            delay == self@.global_delay,
    {
        self.global_delay
    }

    /// The entries, in the order of the configuration.
    pub fn entries(&self) -> (entries: &Vec<MappingEntry>)
        ensures
            entries_view(entries@) == self@.entries,
    {
        &self.entries
    }
}

} // verus!
