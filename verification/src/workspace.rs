//! Queries on a loaded databank: finding an elite by fingerprint, reading the
//! run recipe's flags and bindings, and the structural counts of a strategy.
use vstd::prelude::*;
use crate::databank::DesktopError;
use crate::text::{owned, str_eq};

verus! {

/// The fingerprints of a loaded bank's databank elites and Holding, in order.
pub struct BankFingerprints {
    pub elites: Vec<String>,
    pub holding: Vec<String>,
}

/// Where an elite was found.
#[derive(PartialEq, Eq, Structural, Debug, Clone, Copy)]
pub enum EliteSlot {
    Databank(usize),
    Holding(usize),
}

/// The first index whose entry equals `key`, if any.
pub open spec fn first_match(entries: Seq<Seq<char>>, key: Seq<char>) -> Option<int> {
    if exists|i: int| 0 <= i < entries.len() && entries[i] == key {
        Some(choose|i: int| 0 <= i < entries.len() && entries[i] == key
            && forall|j: int| 0 <= j < i ==> entries[j] != key)
    } else {
        None
    }
}

pub open spec fn strings(v: Seq<String>) -> Seq<Seq<char>> {
    v.map_values(|s: String| s@)
}

/// Databank elites are searched before Holding; the first match wins.
pub open spec fn elite_slot(bank: BankFingerprints, fingerprint: Seq<char>) -> Option<EliteSlot> {
    match first_match(strings(bank.elites@), fingerprint) {
        Some(i) => Some(EliteSlot::Databank(i as usize)),
        None => match first_match(strings(bank.holding@), fingerprint) {
            Some(i) => Some(EliteSlot::Holding(i as usize)),
            None => None,
        },
    }
}

fn find_first(entries: &Vec<String>, key: &str) -> (r: Option<usize>)
    ensures
        match first_match(strings(entries@), key@) {
            Some(i) => 0 <= i < entries.len() && r == Some(i as usize),
            None => r is None,
        },
{
    let ghost view = strings(entries@);
    let mut i: usize = 0;
    while i < entries.len()
        invariant
            view == strings(entries@),
            i <= entries.len(),
            forall|j: int| 0 <= j < i ==> view[j] != key@,
        decreases entries.len() - i,
    {
        if str_eq(entries[i].as_str(), key) {
            proof {
                assert(view[i as int] == key@);
                let k = choose|k: int| 0 <= k < view.len() && view[k] == key@
                    && forall|j: int| 0 <= j < k ==> view[j] != key@;
                assert(k == i as int) by {
                    if k < i as int {
                        assert(view[k] != key@);
                    } else if k > i as int {
                        assert(view[i as int] != key@);
                    }
                }
            }
            return Some(i);
        }
        i = i + 1;
    }
    proof {
        assert(!(exists|k: int| 0 <= k < view.len() && view[k] == key@));
    }
    None
}

pub fn find_elite_in_bank(bank: &BankFingerprints, fingerprint: &str) -> (r: Option<EliteSlot>)
    ensures
        r == elite_slot(*bank, fingerprint@),
{
    match find_first(&bank.elites, fingerprint) {
        Some(i) => Some(EliteSlot::Databank(i)),
        None => match find_first(&bank.holding, fingerprint) {
            Some(i) => Some(EliteSlot::Holding(i)),
            None => None,
        },
    }
}

/// Looks an elite up in the loaded bank: refused when no bank is loaded or
/// when neither the databank nor Holding holds the fingerprint.
pub fn lookup_elite(loaded: Option<&BankFingerprints>, fingerprint: &str) -> (r: Result<EliteSlot, DesktopError>)
    ensures
        loaded is None ==> r == Err::<EliteSlot, DesktopError>(DesktopError::NoDatabank),
        loaded matches Some(bank) ==> match elite_slot(*bank, fingerprint@) {
            Some(slot) => r == Ok::<EliteSlot, DesktopError>(slot),
            None => (r matches Err(DesktopError::MissingElite(id)) && id@ == fingerprint@),
        },
{
    let bank = match loaded {
        None => return Err(DesktopError::NoDatabank),
        Some(b) => b,
    };
    match find_elite_in_bank(bank, fingerprint) {
        Some(slot) => Ok(slot),
        None => Err(DesktopError::MissingElite(owned(fingerprint))),
    }
}

/// A gate an elite has been through.
pub struct GateOutcome {
    pub name: String,
    pub passed: bool,
}

pub open spec fn sealed_protected(gates: Seq<GateOutcome>) -> bool {
    exists|i: int| 0 <= i < gates.len() && gates[i].name@ == "production_lane_v1"@ && gates[i].passed
}

/// An elite that passed Production Lane v1 is protected from sealed re-tests.
pub fn elite_is_sealed_protected(gates: &Vec<GateOutcome>) -> (r: bool)
    ensures
        r == sealed_protected(gates@),
{
    let mut i: usize = 0;
    while i < gates.len()
        invariant
            i <= gates.len(),
            forall|j: int| 0 <= j < i ==> !(gates@[j].name@ == "production_lane_v1"@ && gates@[j].passed),
        decreases gates.len() - i,
    {
        if gates[i].passed && str_eq(gates[i].name.as_str(), "production_lane_v1") {
            return true;
        }
        i = i + 1;
    }
    false
}

/// A run-recipe configuration value, as far as the workspace reads it.
pub enum RecipeValue {
    Bool(bool),
    Text(String),
    Other,
}

/// The recipe configuration: keys are unique, as in the archive's JSON object.
pub struct RecipeConfig {
    pub entries: Vec<(String, RecipeValue)>,
}

pub open spec fn recipe_keys(config: RecipeConfig) -> Seq<Seq<char>> {
    config.entries@.map_values(|e: (String, RecipeValue)| e.0@)
}

/// The value stored under `key`, if any.
pub open spec fn recipe_get(config: RecipeConfig, key: Seq<char>) -> Option<RecipeValue> {
    match first_match(recipe_keys(config), key) {
        Some(i) => Some(config.entries@[i].1),
        None => None,
    }
}

fn recipe_index(config: &RecipeConfig, key: &str) -> (r: Option<usize>)
    ensures
        r matches Some(i) ==> i < config.entries.len(),
        match first_match(recipe_keys(*config), key@) {
            Some(i) => 0 <= i < config.entries.len() && r == Some(i as usize),
            None => r is None,
        },
{
    let ghost view = recipe_keys(*config);
    let mut i: usize = 0;
    while i < config.entries.len()
        invariant
            view == recipe_keys(*config),
            i <= config.entries.len(),
            forall|j: int| 0 <= j < i ==> view[j] != key@,
        decreases config.entries.len() - i,
    {
        if str_eq(config.entries[i].0.as_str(), key) {
            proof {
                assert(view[i as int] == key@);
                let k = choose|k: int| 0 <= k < view.len() && view[k] == key@
                    && forall|j: int| 0 <= j < k ==> view[j] != key@;
                assert(k == i as int) by {
                    if k < i as int {
                        assert(view[k] != key@);
                    } else if k > i as int {
                        assert(view[i as int] != key@);
                    }
                }
            }
            return Some(i);
        }
        i = i + 1;
    }
    proof {
        assert(!(exists|k: int| 0 <= k < view.len() && view[k] == key@));
    }
    None
}

/// The text stored under `key`; any other kind of value reads as absent.
pub fn recipe_text(config: &RecipeConfig, key: &str) -> (r: Option<String>)
    ensures
        match recipe_get(*config, key@) {
            Some(RecipeValue::Text(t)) => r matches Some(s) && s@ == t@,
            _ => r is None,
        },
{
    let found = recipe_index(config, key);
    match found {
        Some(i) => match &config.entries[i].1 {
            RecipeValue::Text(t) => Some(t.clone()),
            _ => None,
        },
        None => None,
    }
}

/// Whether `key` holds the boolean `true`.
pub fn recipe_flag_is_true(config: &RecipeConfig, key: &str) -> (r: bool)
    ensures
        r == (recipe_get(*config, key@) matches Some(RecipeValue::Bool(true))),
{
    match recipe_index(config, key) {
        Some(i) => match &config.entries[i].1 {
            RecipeValue::Bool(b) => *b,
            _ => false,
        },
        None => false,
    }
}

/// A bank is M1-fidelity verified only when its recipe says so explicitly.
pub fn artifact_m1_fidelity_verified(config: &RecipeConfig) -> (r: bool)
    ensures
        r == (recipe_get(*config, "m1_fidelity_verified"@) matches Some(RecipeValue::Bool(true))),
{
    recipe_flag_is_true(config, "m1_fidelity_verified")
}

/// Banks stay research-grade until the M1 fidelity gate stamps them.
pub fn artifact_is_research_grade(config: &RecipeConfig) -> (r: bool)
    ensures
        r == !(recipe_get(*config, "m1_fidelity_verified"@) matches Some(RecipeValue::Bool(true))),
{
    !artifact_m1_fidelity_verified(config)
}

/// The top-level shape of a strategy's entry or exit expression.
#[derive(PartialEq, Eq, Structural, Debug, Clone, Copy)]
pub enum ConditionShape {
    /// A conjunction with this many children.
    All(usize),
    /// A disjunction with this many children.
    Any(usize),
    /// A single condition.
    Single,
}

/// Entry conditions: the children of the long (else short) entry's
/// conjunction, one for any other expression, none without an entry.
pub open spec fn entry_count(long: Option<ConditionShape>, short: Option<ConditionShape>) -> nat {
    let chosen = if long is Some { long } else { short };
    match chosen {
        Some(ConditionShape::All(n)) => n as nat,
        Some(_) => 1,
        None => 0,
    }
}

pub fn strategy_entry_condition_count(long: Option<ConditionShape>, short: Option<ConditionShape>) -> (r: usize)
    ensures
        r == entry_count(long, short),
{
    let chosen = match long {
        Some(shape) => Some(shape),
        None => short,
    };
    match chosen {
        Some(ConditionShape::All(n)) => n,
        Some(_) => 1,
        None => 0,
    }
}

/// Exit conditions: the children of the first present exit among long,
/// short and shared when it is a disjunction, one for any other expression.
pub open spec fn exit_count(long: Option<ConditionShape>, short: Option<ConditionShape>, shared: Option<ConditionShape>) -> nat {
    let chosen = if long is Some { long } else if short is Some { short } else { shared };
    match chosen {
        Some(ConditionShape::Any(n)) => n as nat,
        Some(_) => 1,
        None => 0,
    }
}

pub fn strategy_exit_condition_count(long: Option<ConditionShape>, short: Option<ConditionShape>, shared: Option<ConditionShape>) -> (r: usize)
    ensures
        r == exit_count(long, short, shared),
{
    let chosen = match long {
        Some(shape) => Some(shape),
        None => match short {
            Some(shape) => Some(shape),
            None => shared,
        },
    };
    match chosen {
        Some(ConditionShape::Any(n)) => n,
        Some(_) => 1,
        None => 0,
    }
}

/// The first requested fingerprint that is not a databank elite.
pub open spec fn first_missing(elites: Seq<Seq<char>>, requested: Seq<Seq<char>>, n: int) -> Option<int>
    decreases n,
{
    if n <= 0 {
        None
    } else {
        match first_missing(elites, requested, n - 1) {
            Some(i) => Some(i),
            None => if first_match(elites, requested[n - 1]) is None { Some(n - 1) } else { None },
        }
    }
}

proof fn lemma_first_missing_stays(elites: Seq<Seq<char>>, requested: Seq<Seq<char>>, m: int, n: int)
    requires
        0 <= m <= n <= requested.len(),
        first_missing(elites, requested, m) is Some,
    ensures
        first_missing(elites, requested, n) == first_missing(elites, requested, m),
    decreases n - m,
{
    if m < n {
        lemma_first_missing_stays(elites, requested, m, n - 1);
    }
}

/// The databank elites an export names, in the order requested. Exports look
/// only at databank elites (not Holding): a missing bank or a fingerprint that
/// is not a databank elite refuses the export.
pub fn resolve_databank_elites(elites: Option<&Vec<String>>, requested: &Vec<String>) -> (r: Result<Vec<usize>, DesktopError>)
    ensures
        elites is None ==> r == Err::<Vec<usize>, DesktopError>(DesktopError::NoDatabank),
        elites matches Some(e) ==> match first_missing(strings(e@), strings(requested@), requested.len() as int) {
            Some(i) => (r matches Err(DesktopError::MissingElite(id)) && id@ == requested@[i]@),
            None => (r matches Ok(v) && v.len() == requested.len() && forall|k: int| 0 <= k < requested.len() ==>
                first_match(strings(e@), requested@[k]@) == Some(#[trigger] v@[k] as int)),
        },
{
    let bank = match elites {
        None => return Err(DesktopError::NoDatabank),
        Some(b) => b,
    };
    let mut found: Vec<usize> = Vec::new();
    let mut i: usize = 0;
    while i < requested.len()
        invariant
            elites == Some(bank),
            i <= requested.len(),
            found.len() == i,
            first_missing(strings(bank@), strings(requested@), i as int) is None,
            forall|k: int| 0 <= k < i ==> first_match(strings(bank@), requested@[k]@) == Some(#[trigger] found@[k] as int),
        decreases requested.len() - i,
    {
        assert(strings(requested@)[i as int] == requested@[i as int]@);
        match find_first(bank, requested[i].as_str()) {
            Some(j) => {
                found.push(j);
            },
            None => {
                proof {
                    assert(first_missing(strings(bank@), strings(requested@), i + 1) == Some(i as int));
                    lemma_first_missing_stays(strings(bank@), strings(requested@), i + 1, requested.len() as int);
                }
                return Err(DesktopError::MissingElite(requested[i].clone()));
            },
        }
        i = i + 1;
    }
    Ok(found)
}

} // verus!
