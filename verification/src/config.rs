//! The tablet pad's settings from the optional configuration file.
//!
//! Reading and parsing the file is the application's business; this module
//! holds what the file says and turns it into bindings.

use std::collections::HashMap;
use vstd::prelude::*;

use crate::actions::{default_global_accel_map, global_action_named, GlobalAccels, GlobalAction};

verus! {

broadcast use vstd::std_specs::hash::group_hash_axioms;

/// The `[pad]` section of the configuration.
pub struct PadConfig {
    /// `None` when the user didn't say either way, in which case pad support
    /// is on, but quietly.
    pub enabled: Option<bool>,
    /// Action names by button number. Replaces the defaults when present.
    pub buttons: Option<HashMap<u32, String>>,
}

/// The bindings that the action names `buttons` give, by button number:
/// every button whose name is known, bound to the action it names.
pub open spec fn named_accels(buttons: Map<u32, String>) -> Map<u32, GlobalAction> {
    Map::new(
        |b: u32| buttons.contains_key(b) && global_action_named(buttons[b]@) is Some,
        |b: u32| global_action_named(buttons[b]@)->0,
    )
}

impl PadConfig {
    /// The configured action names by button number, if any.
    pub open spec fn button_names(&self) -> Option<Map<u32, String>> {
        match &self.buttons {
            Some(m) => Some(m@),
            None => None,
        }
    }

    /// The bindings that this section configures: the defaults when it names
    /// no buttons, else those of [`named_accels`].
    pub open spec fn spec_accels(&self) -> Map<u32, GlobalAction> {
        match self.button_names() {
            None => default_global_accel_map(),
            Some(m) => named_accels(m),
        }
    }

    /// The configured bindings; unknown action names are left out (see
    /// [`PadConfig::ignored_buttons`]).
    pub fn accels(&self) -> (res: GlobalAccels)
        ensures
            res@ == self.spec_accels(),
    {
        let buttons = match &self.buttons {
            Some(buttons) => buttons,
            None => {
                return GlobalAccels::default();
            },
        };
        let ghost target = named_accels(buttons@);
        let mut accels = GlobalAccels::empty();
        for (button, name) in it: buttons.iter()
            invariant
                target == named_accels(buttons@),
                forall|j: int| 0 <= j < it.seq().len() ==> buttons@.contains_key(*(#[trigger] it.seq()[j]).0)
                    && buttons@[*it.seq()[j].0] == *it.seq()[j].1,
                forall|b: u32| #[trigger] buttons@.contains_key(b) ==> exists|j: int|
                    0 <= j < it.seq().len() && *(#[trigger] it.seq()[j]).0 == b,
                forall|b: u32|
                    #[trigger] accels@.contains_key(b) <==> target.contains_key(b) && exists|j: int|
                        0 <= j < it.index() && *(#[trigger] it.seq()[j]).0 == b,
                forall|b: u32| #[trigger] accels@.contains_key(b) ==> accels@[b] == target[b],
        {
            let ghost idx = it.index();
            let ghost before = accels@;
            assert(*it.seq()[idx].0 == *button && *it.seq()[idx].1 == *name);
            let name_str = name.as_str();
            let found = GlobalAction::from_name(name_str);
            if let Some(action) = found {
                accels.bind(*button, action);
            }
            proof {
                assert forall|b: u32|
                    #[trigger] accels@.contains_key(b) <==> target.contains_key(b) && exists|j: int|
                        0 <= j < idx + 1 && *(#[trigger] it.seq()[j]).0 == b by {
                    if b != *button {
                        if exists|j: int| 0 <= j < idx + 1 && *(#[trigger] it.seq()[j]).0 == b {
                            let j = choose|j: int| 0 <= j < idx + 1 && *(#[trigger] it.seq()[j]).0 == b;
                            assert(j < idx);
                        }
                    } else {
                        assert(*it.seq()[idx].0 == b);
                    }
                }
            }
        }
        proof {
            assert(accels@ =~= target);
        }
        accels
    }

    /// The buttons bound to names that name no action, which
    /// [`PadConfig::accels`] leaves out, each once.
    pub fn ignored_buttons(&self) -> (res: Vec<u32>)
        ensures
            res@.no_duplicates(),
            forall|b: u32|
                res@.contains(b) <==> (self.button_names() matches Some(m) && m.contains_key(b)
                    && global_action_named(m[b]@) is None),
    {
        let mut ignored: Vec<u32> = Vec::new();
        let buttons = match &self.buttons {
            Some(buttons) => buttons,
            None => {
                return ignored;
            },
        };
        for (button, name) in it: buttons.iter()
            invariant
                it.seq().no_duplicates(),
                ignored@.no_duplicates(),
                forall|j: int| 0 <= j < it.seq().len() ==> buttons@.contains_key(*(#[trigger] it.seq()[j]).0)
                    && buttons@[*it.seq()[j].0] == *it.seq()[j].1,
                forall|b: u32| #[trigger] buttons@.contains_key(b) ==> exists|j: int|
                    0 <= j < it.seq().len() && *(#[trigger] it.seq()[j]).0 == b,
                forall|b: u32|
                    #[trigger] ignored@.contains(b) <==> buttons@.contains_key(b) && global_action_named(buttons@[b]@) is None
                        && exists|j: int| 0 <= j < it.index() && *(#[trigger] it.seq()[j]).0 == b,
        {
            let ghost idx = it.index();
            let ghost before = ignored@;
            assert(*it.seq()[idx].0 == *button && *it.seq()[idx].1 == *name);
            let name_str = name.as_str();
            let unknown = GlobalAction::from_name(name_str).is_none();
            if unknown {
                proof {
                    if before.contains(*button) {
                        let j = choose|j: int| 0 <= j < idx && *(#[trigger] it.seq()[j]).0 == *button;
                        assert(it.seq()[j] == it.seq()[idx]);
                    }
                }
                ignored.push(*button);
            }
            proof {
                assert(unknown == (global_action_named(buttons@[*button]@) is None));
                assert forall|b: u32|
                    #[trigger] ignored@.contains(b) <==> buttons@.contains_key(b) && global_action_named(buttons@[b]@) is None
                        && exists|j: int| 0 <= j < idx + 1 && *(#[trigger] it.seq()[j]).0 == b by {
                    if b != *button {
                        if ignored@.contains(b) {
                            let k = choose|k: int| 0 <= k < ignored@.len() && ignored@[k] == b;
                            assert(before[k] == b);
                        }
                        if before.contains(b) {
                            let k = choose|k: int| 0 <= k < before.len() && before[k] == b;
                            assert(ignored@[k] == b);
                        }
                        if exists|j: int| 0 <= j < idx + 1 && *(#[trigger] it.seq()[j]).0 == b {
                            let j = choose|j: int| 0 <= j < idx + 1 && *(#[trigger] it.seq()[j]).0 == b;
                            assert(j < idx);
                        }
                    } else {
                        assert(*it.seq()[idx].0 == b);
                        if unknown {
                            assert(ignored@ == before.push(b));
                            assert(ignored@[before.len() as int] == b);
                        } else {
                            assert(ignored@ == before);
                            assert(!before.contains(b));
                        }
                    }
                }
            }
        }
        ignored
    }
}

impl Default for PadConfig {
    /// Pad support unset, and no buttons configured.
    fn default() -> (res: Self)
        ensures
            res.enabled is None,
            res.buttons is None,
    {
        PadConfig { enabled: None, buttons: None }
    }
}

/// The configuration file's contents.
pub struct Config {
    pub pad: PadConfig,
}

impl Default for Config {
    /// Every setting at its default.
    fn default() -> (res: Self)
        ensures
            res.pad.enabled is None,
            res.pad.buttons is None,
    {
        Config { pad: PadConfig::default() }
    }
}

/// Configured buttons replace the default bindings: a button the
/// configuration does not name is unbound, whatever the defaults bind it to,
/// and a button named with an unknown action is unbound too.
pub proof fn lemma_configured_buttons_replace_defaults(buttons: Map<u32, String>, b: u32)
    ensures
        !buttons.contains_key(b) ==> !named_accels(buttons).contains_key(b),
        buttons.contains_key(b) && global_action_named(buttons[b]@) is None ==> !named_accels(
            buttons,
        ).contains_key(b),
        buttons.contains_key(b) ==> (global_action_named(buttons[b]@) matches Some(a) ==> named_accels(
            buttons,
        ).contains_key(b) && named_accels(buttons)[b] == a),
{
}

} // verus!
