use device_query::Keycode;
use keymastro::config::{Config, KeyPress};
use keymastro::engine::{plan_cycle, replay, Command, Snapshot, POLL_INTERVAL_MS};
use keymastro::error::ConfigError;
use keymastro::keycodes::TriggerKey;
use keymastro::keys::OutputKey;
use keymastro::symbols::{Direction, MouseButton, Target, Trigger};
use keymastro::table::{resolve_step, resolve_steps, ActionStep, MappingEntry, MappingTable};

fn key_of(keycode: Keycode) -> TriggerKey {
    TriggerKey { code: keycode as u16 }
}

fn press(key: &str, delay: Option<u64>, direction: Option<&str>) -> KeyPress {
    KeyPress { key: key.to_string(), delay, direction: direction.map(|word| word.to_string()) }
}

fn keys_down(keys: Vec<Keycode>) -> Snapshot {
    Snapshot {
        keys: keys.into_iter().map(key_of).collect(),
        left_button: false,
        right_button: false,
    }
}

fn buttons_down(left: bool, right: bool) -> Snapshot {
    Snapshot { keys: vec![], left_button: left, right_button: right }
}

fn table_of(global_delay: Option<u64>, mappings: Vec<(&str, Vec<KeyPress>)>) -> MappingTable {
    let mut config = Config::new(global_delay);
    for (trigger, steps) in mappings {
        config = config.with_mapping(trigger.to_string(), steps);
    }
    MappingTable::build(&config).unwrap()
}

#[test]
fn press_of_b_after_fifteen_milliseconds() {
    let table = table_of(Some(5), vec![("A", vec![press("B", Some(10), Some("Press"))])]);
    assert_eq!(table.global_delay(), 5);
    assert_eq!(
        table.entries(),
        &vec![MappingEntry {
            trigger: Trigger::Key(key_of(Keycode::A)),
            steps: vec![ActionStep {
                target: Target::Key(OutputKey::Unicode('B')),
                delay: 10,
                direction: Direction::Press,
            }],
        }]
    );
    let plan = plan_cycle(&table, &keys_down(vec![Keycode::A]));
    assert_eq!(
        plan,
        vec![
            Command::Sleep(15),
            Command::Key(OutputKey::Unicode('B'), Direction::Press),
            Command::Sleep(POLL_INTERVAL_MS),
        ]
    );
}

#[test]
fn empty_table_injects_nothing() {
    let table = table_of(Some(5), vec![]);
    assert!(table.entries().is_empty());
    let snapshots = vec![
        keys_down(vec![]),
        keys_down(vec![Keycode::A, Keycode::Up]),
        buttons_down(true, false),
        buttons_down(true, true),
    ];
    for snapshot in snapshots {
        assert_eq!(plan_cycle(&table, &snapshot), vec![Command::Sleep(50)]);
    }
}

#[test]
fn idle_devices_inject_nothing() {
    let table = table_of(
        None,
        vec![("A", vec![press("B", None, None)]), ("LeftMouse", vec![press("C", None, None)])],
    );
    assert_eq!(plan_cycle(&table, &keys_down(vec![])), vec![Command::Sleep(50)]);
    assert_eq!(plan_cycle(&table, &keys_down(vec![Keycode::B])), vec![Command::Sleep(50)]);
    assert_eq!(plan_cycle(&table, &buttons_down(false, true)), vec![Command::Sleep(50)]);
}

#[test]
fn poll_interval_is_fifty_milliseconds() {
    assert_eq!(POLL_INTERVAL_MS, 50);
}

#[test]
fn defaults_are_no_delay_and_a_click() {
    let table = table_of(None, vec![("A", vec![press("Enter", None, None)])]);
    assert_eq!(table.global_delay(), 0);
    assert_eq!(
        table.entries()[0].steps,
        vec![ActionStep {
            target: Target::Key(OutputKey::Return),
            delay: 0,
            direction: Direction::Click,
        }]
    );
    assert_eq!(
        plan_cycle(&table, &keys_down(vec![Keycode::A])),
        vec![Command::Key(OutputKey::Return, Direction::Click), Command::Sleep(50)]
    );
}

#[test]
fn unknown_direction_is_a_click() {
    let table = table_of(None, vec![("A", vec![press("x", None, Some("Hold"))])]);
    assert_eq!(table.entries()[0].steps[0].direction, Direction::Click);
}

#[test]
fn global_delay_alone_makes_every_step_wait() {
    let table = table_of(
        Some(3),
        vec![("A", vec![press("x", None, None), press("y", Some(0), Some("Release"))])],
    );
    assert_eq!(
        plan_cycle(&table, &keys_down(vec![Keycode::A])),
        vec![
            Command::Sleep(3),
            Command::Key(OutputKey::Unicode('x'), Direction::Click),
            Command::Sleep(3),
            Command::Key(OutputKey::Unicode('y'), Direction::Release),
            Command::Sleep(50),
        ]
    );
}

#[test]
fn step_delay_alone_makes_that_step_wait() {
    let table = table_of(
        None,
        vec![("A", vec![press("x", Some(20), None), press("y", None, None)])],
    );
    assert_eq!(
        plan_cycle(&table, &keys_down(vec![Keycode::A])),
        vec![
            Command::Sleep(20),
            Command::Key(OutputKey::Unicode('x'), Direction::Click),
            Command::Key(OutputKey::Unicode('y'), Direction::Click),
            Command::Sleep(50),
        ]
    );
}

#[test]
fn entries_replay_in_the_order_of_the_table() {
    let table = table_of(
        None,
        vec![
            ("B", vec![press("1", None, None)]),
            ("A", vec![press("2", None, None)]),
            ("C", vec![press("3", None, None)]),
        ],
    );
    assert_eq!(
        plan_cycle(&table, &keys_down(vec![Keycode::A, Keycode::B])),
        vec![
            Command::Key(OutputKey::Unicode('1'), Direction::Click),
            Command::Key(OutputKey::Unicode('2'), Direction::Click),
            Command::Sleep(50),
        ]
    );
}

#[test]
fn two_names_of_one_key_both_replay() {
    let table = table_of(
        None,
        vec![("Up", vec![press("a", None, None)]), ("UpArrow", vec![press("b", None, None)])],
    );
    assert_eq!(
        plan_cycle(&table, &keys_down(vec![Keycode::Up])),
        vec![
            Command::Key(OutputKey::Unicode('a'), Direction::Click),
            Command::Key(OutputKey::Unicode('b'), Direction::Click),
            Command::Sleep(50),
        ]
    );
}

#[test]
fn held_key_replays_in_every_cycle() {
    let table = table_of(Some(1), vec![("A", vec![press("B", None, Some("Press"))])]);
    let snapshot = keys_down(vec![Keycode::A]);
    let first = plan_cycle(&table, &snapshot);
    let second = plan_cycle(&table, &snapshot);
    assert_eq!(first, second);
    assert_eq!(first.len(), 3);
}

#[test]
fn left_button_counts_before_the_right_one() {
    let table = table_of(
        None,
        vec![
            ("LeftMouse", vec![press("l", None, None)]),
            ("RightMouse", vec![press("r", None, None)]),
        ],
    );
    let left = Command::Key(OutputKey::Unicode('l'), Direction::Click);
    let right = Command::Key(OutputKey::Unicode('r'), Direction::Click);
    assert_eq!(plan_cycle(&table, &buttons_down(true, false)), vec![left, Command::Sleep(50)]);
    assert_eq!(plan_cycle(&table, &buttons_down(false, true)), vec![right, Command::Sleep(50)]);
    assert_eq!(plan_cycle(&table, &buttons_down(true, true)), vec![left, Command::Sleep(50)]);
    assert_eq!(buttons_down(true, true).button_down(), Some(MouseButton::Left));
    assert_eq!(buttons_down(false, true).button_down(), Some(MouseButton::Right));
    assert_eq!(buttons_down(false, false).button_down(), None);
}

#[test]
fn button_can_be_a_target() {
    let table = table_of(
        None,
        vec![(
            "A",
            vec![press("LeftMouse", None, Some("Press")), press("RightMouse", Some(4), None)],
        )],
    );
    assert_eq!(
        plan_cycle(&table, &keys_down(vec![Keycode::A])),
        vec![
            Command::Button(MouseButton::Left, Direction::Press),
            Command::Sleep(4),
            Command::Button(MouseButton::Right, Direction::Click),
            Command::Sleep(50),
        ]
    );
}

#[test]
fn snapshot_tells_which_triggers_are_set_off() {
    let snapshot = Snapshot { keys: vec![key_of(Keycode::A)], left_button: false, right_button: true };
    assert!(snapshot.key_down(key_of(Keycode::A)));
    assert!(!snapshot.key_down(key_of(Keycode::B)));
    assert!(snapshot.is_active(Trigger::Key(key_of(Keycode::A))));
    assert!(!snapshot.is_active(Trigger::Key(key_of(Keycode::Z))));
    assert!(snapshot.is_active(Trigger::Button(MouseButton::Right)));
    assert!(!snapshot.is_active(Trigger::Button(MouseButton::Left)));
}

#[test]
fn replay_appends_to_the_plan() {
    let steps = vec![
        ActionStep { target: Target::Key(OutputKey::Tab), delay: 2, direction: Direction::Press },
        ActionStep { target: Target::Key(OutputKey::Tab), delay: 0, direction: Direction::Release },
    ];
    let mut plan = vec![Command::Sleep(9)];
    replay(&mut plan, &steps, 0);
    assert_eq!(
        plan,
        vec![
            Command::Sleep(9),
            Command::Sleep(2),
            Command::Key(OutputKey::Tab, Direction::Press),
            Command::Key(OutputKey::Tab, Direction::Release),
        ]
    );
}

#[test]
fn unknown_trigger_is_refused_when_the_table_is_built() {
    let mut config = Config::new(None);
    config = config.with_mapping("A".to_string(), vec![press("B", None, None)]);
    config = config.with_mapping("Nothing".to_string(), vec![press("B", None, None)]);
    assert_eq!(
        MappingTable::build(&config),
        Err(ConfigError::UnsupportedSymbol("Nothing".to_string()))
    );
}

#[test]
fn unknown_target_is_refused_when_the_table_is_built() {
    let mut config = Config::new(None);
    config = config.with_mapping("A".to_string(), vec![press("B", None, None), press("Nothing", None, None)]);
    assert_eq!(
        MappingTable::build(&config),
        Err(ConfigError::UnsupportedSymbol("Nothing".to_string()))
    );
    let mut empty_name = Config::new(None);
    empty_name = empty_name.with_mapping("A".to_string(), vec![press("", None, None)]);
    assert_eq!(
        MappingTable::build(&empty_name),
        Err(ConfigError::UnsupportedSymbol(String::new()))
    );
}

#[test]
fn first_fault_in_order_is_reported() {
    let mut config = Config::new(None);
    config = config.with_mapping("A".to_string(), vec![press("ok", None, None), press("bad", None, None)]);
    config = config.with_mapping("Worse".to_string(), vec![]);
    assert_eq!(
        MappingTable::build(&config),
        Err(ConfigError::UnsupportedSymbol("ok".to_string()))
    );
    let mut trigger_first = Config::new(None);
    trigger_first = trigger_first.with_mapping("Worse".to_string(), vec![press("bad", None, None)]);
    assert_eq!(
        MappingTable::build(&trigger_first),
        Err(ConfigError::UnsupportedSymbol("Worse".to_string()))
    );
}

#[test]
fn wait_that_does_not_fit_is_refused() {
    let mut config = Config::new(Some(1));
    config = config.with_mapping("A".to_string(), vec![press("B", Some(u64::MAX), None)]);
    assert_eq!(MappingTable::build(&config), Err(ConfigError::DelayOverflow));
    let mut fits = Config::new(Some(1));
    fits = fits.with_mapping("A".to_string(), vec![press("B", Some(u64::MAX - 1), None)]);
    let table = MappingTable::build(&fits).unwrap();
    assert_eq!(
        plan_cycle(&table, &keys_down(vec![Keycode::A])),
        vec![
            Command::Sleep(u64::MAX),
            Command::Key(OutputKey::Unicode('B'), Direction::Click),
            Command::Sleep(50),
        ]
    );
}

#[test]
fn steps_resolve_one_by_one() {
    assert_eq!(
        resolve_step(&press("Space", Some(3), Some("Release")), 4),
        Ok(ActionStep {
            target: Target::Key(OutputKey::Space),
            delay: 3,
            direction: Direction::Release,
        })
    );
    assert_eq!(
        resolve_step(&press("??", Some(u64::MAX), None), 4),
        Err(ConfigError::UnsupportedSymbol("??".to_string()))
    );
    assert_eq!(resolve_step(&press("a", Some(u64::MAX), None), 1), Err(ConfigError::DelayOverflow));
    assert_eq!(resolve_steps(&vec![], 0), Ok(vec![]));
    assert_eq!(
        resolve_steps(&vec![press("a", None, None), press("b", Some(1), None)], 0),
        Ok(vec![
            ActionStep {
                target: Target::Key(OutputKey::Unicode('a')),
                delay: 0,
                direction: Direction::Click,
            },
            ActionStep {
                target: Target::Key(OutputKey::Unicode('b')),
                delay: 1,
                direction: Direction::Click,
            },
        ])
    );
}
