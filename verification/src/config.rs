//! A configuration as it is written: names and words, nothing resolved yet.

use vstd::prelude::*;
use crate::error::ConfigError;
use crate::text::{ends_with, has_suffix, same_text};

verus! {

/// One step of a mapping as it is written.
#[derive(Clone, Debug, PartialEq, Eq)]
pub struct KeyPress {
    /// The name of the key or button to inject.
    pub key: String,
    /// Milliseconds to wait before the step; none means zero.
    pub delay: Option<u64>,
    /// `Press`, `Release` or `Click`; none means a click.
    pub direction: Option<String>,
}

/// A `KeyPress` with its texts as sequences of characters.
pub struct KeyPressView {
    pub key: Seq<char>,
    pub delay: Option<u64>,
    pub direction: Option<Seq<char>>,
}

impl View for KeyPress {
    type V = KeyPressView;

    open spec fn view(&self) -> KeyPressView {
        KeyPressView {
            key: self.key@,
            delay: self.delay,
            direction: match self.direction {
                Some(word) => Some(word@),
                None => None,
            },
        }
    }
}

/// The steps that a trigger's name is mapped to, as they are written.
#[derive(Clone, Debug, PartialEq, Eq)]
pub struct Mapping {
    pub trigger: String,
    pub steps: Vec<KeyPress>,
}

/// A `Mapping` with its texts as sequences of characters.
pub struct MappingView {
    pub trigger: Seq<char>,
    pub steps: Seq<KeyPressView>,
}

/// The views of a run of steps.
pub open spec fn steps_view(steps: Seq<KeyPress>) -> Seq<KeyPressView> {
    steps.map_values(|step: KeyPress| step@)
}

impl View for Mapping {
    type V = MappingView;

    open spec fn view(&self) -> MappingView {
        MappingView { trigger: self.trigger@, steps: steps_view(self.steps@) }
    }
}

/// The views of a run of mappings.
pub open spec fn mappings_view(mappings: Seq<Mapping>) -> Seq<MappingView> {
    mappings.map_values(|mapping: Mapping| mapping@)
}

/// Whether no two mappings of a run carry the same trigger name.
pub open spec fn distinct_triggers(mappings: Seq<MappingView>) -> bool {
    forall|i: int, j: int|
        0 <= i < j < mappings.len() ==> mappings[i].trigger != mappings[j].trigger
}

/// Whether some mapping of a run carries the given trigger name.
pub open spec fn has_trigger(mappings: Seq<MappingView>, name: Seq<char>) -> bool {
    exists|i: int| 0 <= i < mappings.len() && #[trigger] mappings[i].trigger == name
}

/// A configuration: an optional global delay in milliseconds, and the
/// mappings in the order in which they were first put in, no two under the
/// same trigger name.
#[derive(Debug, PartialEq, Eq)]
pub struct Config {
    global_delay: Option<u64>,
    mappings: Vec<Mapping>,
}

/// A `Config` with its texts as sequences of characters.
pub struct ConfigView {
    pub global_delay: Option<u64>,
    pub mappings: Seq<MappingView>,
}

impl View for Config {
    type V = ConfigView;

    closed spec fn view(&self) -> ConfigView {
        ConfigView { global_delay: self.global_delay, mappings: mappings_view(self.mappings@) }
    }
}

impl Config {
    /// Whether no trigger name occurs twice.
    #[verifier::type_invariant]
    pub open spec fn wf(&self) -> bool {
        distinct_triggers(self@.mappings)
    }

    /// A configuration without mappings.
    pub fn new(global_delay: Option<u64>) -> (config: Config)
        ensures
            config@.global_delay == global_delay,
            config@.mappings.len() == 0,
    {
        Config { global_delay, mappings: Vec::new() }
    }

    /// The global delay as it is written.
    pub fn global_delay(&self) -> (delay: Option<u64>)
        ensures
            delay == self@.global_delay,
    {
        self.global_delay
    }

    /// The mappings, in order. No trigger name occurs twice among them.
    pub fn mappings(&self) -> (mappings: &Vec<Mapping>)
        ensures
            mappings_view(mappings@) == self@.mappings,
            distinct_triggers(self@.mappings),
    {
        proof {
            use_type_invariant(self);
        }
        &self.mappings
    }

    /// The place of the mapping under a trigger name, if there is one.
    pub fn position(&self, trigger: &str) -> (place: Option<usize>)
        ensures
            match place {
                Some(i) => i < self@.mappings.len() && self@.mappings[i as int].trigger
                    == trigger@ && forall|j: int|
                    0 <= j < i ==> self@.mappings[j].trigger != trigger@,
                None => !has_trigger(self@.mappings, trigger@),
            },
    {
        let mut i: usize = 0;
        while i < self.mappings.len()
            invariant
                i <= self.mappings.len(),
                forall|j: int| 0 <= j < i ==> self@.mappings[j].trigger != trigger@,
            decreases self.mappings.len() - i,
        {
            if same_text(self.mappings[i].trigger.as_str(), trigger) {
                return Some(i);
            }
            i = i + 1;
        }
        None
    }

    /// The configuration with one more mapping put in. Where the trigger name
    /// is there already, the new steps take the place of the old ones; else
    /// the mapping goes to the end.
    pub fn with_mapping(self, trigger: String, steps: Vec<KeyPress>) -> (config: Config)
        ensures
            config@.global_delay == self@.global_delay,
            has_trigger(self@.mappings, trigger@) ==> exists|i: int|
                0 <= i < self@.mappings.len() && self@.mappings[i].trigger == trigger@
                    && config@.mappings == self@.mappings.update(
                    i,
                    MappingView { trigger: trigger@, steps: steps_view(steps@) },
                ),
            !has_trigger(self@.mappings, trigger@) ==> config@.mappings == self@.mappings.push(
                MappingView { trigger: trigger@, steps: steps_view(steps@) },
            ),
    {
        proof {
            use_type_invariant(&self);
        }
        let place = self.position(trigger.as_str());
        let mapping = Mapping { trigger, steps };
        let Config { global_delay, mut mappings } = self;
        match place {
            Some(i) => {
                mappings.set(i, mapping);
                assert(mappings_view(mappings@) =~= self@.mappings.update(i as int, mapping@));
            },
            None => {
                mappings.push(mapping);
                assert(mappings_view(mappings@) =~= self@.mappings.push(mapping@));
            },
        }
        Config { global_delay, mappings }
    }
}

/// The notation in which a configuration file is written.
#[derive(Clone, Copy, Debug, PartialEq, Eq, Structural)]
pub enum ConfigFormat {
    Json,
    Yaml,
}

/// The notation that a file's name calls for: JSON for `.json`, YAML for
/// `.yaml` and `.yml`, none for any other name.
pub open spec fn format_for(path: Seq<char>) -> Option<ConfigFormat> {
    if ends_with(path, ".json"@) {
        Some(ConfigFormat::Json)
    } else if ends_with(path, ".yaml"@) || ends_with(path, ".yml"@) {
        Some(ConfigFormat::Yaml)
    } else {
        None
    }
}

/// Tells from a file's name in which notation the file is written.
pub fn config_format(path: &str) -> (r: Result<ConfigFormat, ConfigError>)
    ensures
        match format_for(path@) {
            Some(format) => r == Ok::<ConfigFormat, ConfigError>(format),
            None => r == Err::<ConfigFormat, ConfigError>(ConfigError::UnsupportedFormat),
        },
{
    if has_suffix(path, ".json") {
        Ok(ConfigFormat::Json)
    } else if has_suffix(path, ".yaml") || has_suffix(path, ".yml") {
        Ok(ConfigFormat::Yaml)
    } else {
        Err(ConfigError::UnsupportedFormat)
    }
}

} // verus!
