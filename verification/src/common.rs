//! Shared helpers: the command-line greeting and the four-level importance scale.
use vstd::prelude::*;

use crate::text::{push_str, str_eq, string_from_chars};

verus! {

/// The greeting for a name: `Hello, {name}!`.
pub open spec fn spec_greeting(name: Seq<char>) -> Seq<char> {
    "Hello, "@ + name + "!"@
}

/// Builds a greeting string for the CLI.
pub fn greeting(name: &str) -> (r: String)
    ensures
        r@ == spec_greeting(name@),
{
    let mut out: Vec<char> = Vec::new();
    push_str(&mut out, "Hello, ");
    push_str(&mut out, name);
    push_str(&mut out, "!");
    string_from_chars(out.as_slice())
}

/// Importance level attached to a memory entry.
#[derive(Debug, Clone, Copy, PartialEq, Eq, Structural)]
pub enum MemoryImportance {
    /// High-priority facts that should not be discarded.
    Critical,
    /// Important but not immutable.
    High,
    /// Default importance.
    Medium,
    /// Low-priority memory.
    Low,
}

/// The canonical database name of an importance level.
pub open spec fn importance_name(i: MemoryImportance) -> Seq<char> {
    match i {
        MemoryImportance::Critical => "critical"@,
        MemoryImportance::High => "high"@,
        MemoryImportance::Medium => "medium"@,
        MemoryImportance::Low => "low"@,
    }
}

/// The level stored under a name; unknown names read as medium.
pub open spec fn importance_from_name(s: Seq<char>) -> MemoryImportance {
    if s == "critical"@ {
        MemoryImportance::Critical
    } else if s == "high"@ {
        MemoryImportance::High
    } else if s == "low"@ {
        MemoryImportance::Low
    } else {
        MemoryImportance::Medium
    }
}

impl MemoryImportance {
    /// Return canonical database representation.
    pub fn as_str(self) -> (r: &'static str)
        ensures
            r@ == importance_name(self),
    {
        match self {
            MemoryImportance::Critical => "critical",
            MemoryImportance::High => "high",
            MemoryImportance::Medium => "medium",
            MemoryImportance::Low => "low",
        }
    }

    /// Parse from a canonical database representation; unknown names read as medium.
    pub fn from_db(value: &str) -> (r: Self)
        ensures
            r == importance_from_name(value@),
    {
        if str_eq(value, "critical") {
            MemoryImportance::Critical
        } else if str_eq(value, "high") {
            MemoryImportance::High
        } else if str_eq(value, "low") {
            MemoryImportance::Low
        } else {
            MemoryImportance::Medium
        }
    }
}

/// Law: reading back the canonical name of a level gives that level.
pub proof fn lemma_importance_roundtrip(i: MemoryImportance)
    ensures
        importance_from_name(importance_name(i)) == i,
{
    reveal_strlit("critical");
    reveal_strlit("high");
    reveal_strlit("medium");
    reveal_strlit("low");
    assert("critical"@.len() != "high"@.len());
    assert("critical"@.len() != "low"@.len());
    assert("critical"@.len() != "medium"@.len());
    assert("high"@.len() != "low"@.len());
    assert("high"@.len() != "medium"@.len());
    assert("low"@.len() != "medium"@.len());
}

} // verus!
