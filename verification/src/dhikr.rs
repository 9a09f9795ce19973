//! Dhikr definitions, daily logs, and the toggle/increment rule applied
//! when the user marks one.

use vstd::prelude::*;

verus! {

/// How a dhikr is tracked: a single checkbox or a running counter.
#[derive(Clone, Copy, Debug, PartialEq, Eq, Structural)]
pub enum DhikrType {
    Checkbox,
    Counter,
}

impl DhikrType {
    pub open spec fn spec_str(&self) -> Seq<char> {
        match self {
            DhikrType::Checkbox => "checkbox"@,
            DhikrType::Counter => "counter"@,
        }
    }

    /// The lower-case storage key of the kind.
    pub fn as_str(&self) -> (r: &'static str)
        ensures
            r@ == self.spec_str(),
    {
        match self {
            DhikrType::Checkbox => "checkbox",
            DhikrType::Counter => "counter",
        }
    }
}

/// How often a dhikr resets.
#[derive(Clone, Copy, Debug, PartialEq, Eq, Structural)]
pub enum DhikrFrequency {
    Daily,
    Weekly,
}

impl DhikrFrequency {
    pub open spec fn spec_str(&self) -> Seq<char> {
        match self {
            DhikrFrequency::Daily => "daily"@,
            DhikrFrequency::Weekly => "weekly"@,
        }
    }

    /// The lower-case storage key of the frequency.
    pub fn as_str(&self) -> (r: &'static str)
        ensures
            r@ == self.spec_str(),
    {
        match self {
            DhikrFrequency::Daily => "daily",
            DhikrFrequency::Weekly => "weekly",
        }
    }
}

/// Whether a dhikr is one of the built-in defaults or user defined.
#[derive(Clone, Copy, Debug, PartialEq, Eq, Structural)]
pub enum DhikrCategory {
    Builtin,
    Custom,
}

impl DhikrCategory {
    pub open spec fn spec_str(&self) -> Seq<char> {
        match self {
            DhikrCategory::Builtin => "builtin"@,
            DhikrCategory::Custom => "custom"@,
        }
    }

    /// The lower-case storage key of the category.
    pub fn as_str(&self) -> (r: &'static str)
        ensures
            r@ == self.spec_str(),
    {
        match self {
            DhikrCategory::Builtin => "builtin",
            DhikrCategory::Custom => "custom",
        }
    }
}

/// A dhikr definition as stored.
#[derive(Clone, Debug)]
pub struct DhikrDef {
    pub id: i64,
    pub name: String,
    pub dhikr_type: DhikrType,
    pub frequency: DhikrFrequency,
    pub target_count: i32,
    pub category: DhikrCategory,
    pub sort_order: i32,
    pub active: bool,
}

/// One day's progress on a dhikr.
#[derive(Clone, Debug)]
pub struct DhikrLog {
    pub id: Option<i64>,
    pub dhikr_id: i64,
    pub date: String,
    pub count: i32,
    pub completed: bool,
}

/// The kind a storage key denotes, exactly.
pub open spec fn spec_parse_dhikr_type(s: Seq<char>) -> Option<DhikrType> {
    if s == "checkbox"@ {
        Some(DhikrType::Checkbox)
    } else if s == "counter"@ {
        Some(DhikrType::Counter)
    } else {
        None
    }
}

/// Parse a stored dhikr kind key.
pub fn parse_dhikr_type(s: &str) -> (r: Option<DhikrType>)
    ensures
        r == spec_parse_dhikr_type(s@),
{
    if crate::prayer::str_eq(s, "checkbox") {
        Some(DhikrType::Checkbox)
    } else if crate::prayer::str_eq(s, "counter") {
        Some(DhikrType::Counter)
    } else {
        None
    }
}

/// The frequency a storage key denotes, exactly.
pub open spec fn spec_parse_dhikr_frequency(s: Seq<char>) -> Option<DhikrFrequency> {
    if s == "daily"@ {
        Some(DhikrFrequency::Daily)
    } else if s == "weekly"@ {
        Some(DhikrFrequency::Weekly)
    } else {
        None
    }
}

/// Parse a stored dhikr frequency key.
pub fn parse_dhikr_frequency(s: &str) -> (r: Option<DhikrFrequency>)
    ensures
        r == spec_parse_dhikr_frequency(s@),
{
    if crate::prayer::str_eq(s, "daily") {
        Some(DhikrFrequency::Daily)
    } else if crate::prayer::str_eq(s, "weekly") {
        Some(DhikrFrequency::Weekly)
    } else {
        None
    }
}

/// The log row that marking a dhikr writes, as `(count, completed)`.
///
/// A checkbox flips its done flag and keeps count 1; a counter adds the
/// given amount (1 when none is given) and completes on reaching its
/// target.
pub fn toggle_update(
    kind: &DhikrType,
    target_count: i32,
    current_count: i32,
    currently_completed: bool,
    extra_count: Option<i32>,
) -> (r: (i32, bool))
    requires
        -0x2000_0000 <= current_count <= 0x2000_0000,
        extra_count is Some ==> -0x2000_0000 <= extra_count.unwrap() <= 0x2000_0000,
    ensures
        *kind is Checkbox ==> r == (1i32, !currently_completed),
        *kind is Counter ==> r.0 == current_count + (if extra_count is Some {
            extra_count.unwrap() as int
        } else {
            1
        }) && r.1 == (r.0 >= target_count),
{
    match kind {
        DhikrType::Checkbox => (1, !currently_completed),
        DhikrType::Counter => {
            let add: i32 = match extra_count {
                Some(n) => n,
                None => 1,
            };
            let new_count: i32 = current_count + add;
            (new_count, new_count >= target_count)
        },
    }
}

} // verus!
