use vstd::prelude::*;

use crate::text::{eq_ignoring_ascii_case, matches_ignoring_ascii_case, UnknownValue};

verus! {

/// The three states of a checkbox.
#[derive(Debug, Clone, Copy, PartialEq, Eq, Structural)]
pub enum CheckboxState {
    On,
    Off,
    Intermediate,
}

/// The state that a name reads as, if any: `"intermediate"`, `"on"` or
/// `"true"`, `"off"` or `"false"`, in any ASCII case.
pub open spec fn checkbox_state_named(s: Seq<char>) -> Option<CheckboxState> {
    if eq_ignoring_ascii_case(s, "intermediate"@) {
        Some(CheckboxState::Intermediate)
    } else if eq_ignoring_ascii_case(s, "on"@) || eq_ignoring_ascii_case(s, "true"@) {
        Some(CheckboxState::On)
    } else if eq_ignoring_ascii_case(s, "off"@) || eq_ignoring_ascii_case(s, "false"@) {
        Some(CheckboxState::Off)
    } else {
        None
    }
}

impl CheckboxState {
    pub fn is_on(&self) -> (r: bool)
        ensures
            r == (*self is On),
    {
        matches!(self, CheckboxState::On)
    }

    pub fn is_off(&self) -> (r: bool)
        ensures
            r == (*self is Off),
    {
        matches!(self, CheckboxState::Off)
    }

    pub fn is_intermediate(&self) -> (r: bool)
        ensures
            r == (*self is Intermediate),
    {
        matches!(self, CheckboxState::Intermediate)
    }

    /// The value of the `data-state` attribute.
    pub fn state(&self) -> (r: String)
        ensures
            r@ == match *self {
                CheckboxState::Intermediate => "intermediate"@,
                CheckboxState::On => "checked"@,
                CheckboxState::Off => "unchecked"@,
            },
    {
        let s = match self {
            CheckboxState::Intermediate => "intermediate",
            CheckboxState::On => "checked",
            CheckboxState::Off => "unchecked",
        };
        let r = s.to_string();
        proof {
            vstd::string::to_string_from_display_ensures_for_str(s, r);
        }
        r
    }

    /// The value of the `aria-checked` attribute.
    pub fn aria(&self) -> (r: String)
        ensures
            r@ == match *self {
                CheckboxState::Intermediate => "mixed"@,
                CheckboxState::On => "true"@,
                CheckboxState::Off => "false"@,
            },
    {
        let s = match self {
            CheckboxState::Intermediate => "mixed",
            CheckboxState::On => "true",
            CheckboxState::Off => "false",
        };
        let r = s.to_string();
        proof {
            vstd::string::to_string_from_display_ensures_for_str(s, r);
        }
        r
    }

    /// The form value of the checkbox.
    pub fn value(&self) -> (r: String)
        ensures
            r@ == match *self {
                CheckboxState::Intermediate => "intermediate"@,
                CheckboxState::On => "on"@,
                CheckboxState::Off => "off"@,
            },
    {
        let s = match self {
            CheckboxState::Intermediate => "intermediate",
            CheckboxState::On => "on",
            CheckboxState::Off => "off",
        };
        let r = s.to_string();
        proof {
            vstd::string::to_string_from_display_ensures_for_str(s, r);
        }
        r
    }

    /// The state after a click: an undecided or unchecked box becomes
    /// checked, a checked one unchecked.
    pub fn clicked(self) -> (r: CheckboxState)
        ensures
            r == match self {
                CheckboxState::Intermediate => CheckboxState::On,
                CheckboxState::On => CheckboxState::Off,
                CheckboxState::Off => CheckboxState::On,
            },
    {
        match self {
            CheckboxState::Intermediate => CheckboxState::On,
            CheckboxState::On => CheckboxState::Off,
            CheckboxState::Off => CheckboxState::On,
        }
    }

    /// Reads a state from its name.
    pub fn parse(s: &str) -> (r: Result<CheckboxState, UnknownValue>)
        ensures
            match checkbox_state_named(s@) {
                Some(c) => r == Ok::<CheckboxState, UnknownValue>(c),
                None => r is Err,
            },
    {
        if matches_ignoring_ascii_case(s, "intermediate") {
            Ok(CheckboxState::Intermediate)
        } else if matches_ignoring_ascii_case(s, "on") || matches_ignoring_ascii_case(s, "true") {
            Ok(CheckboxState::On)
        } else if matches_ignoring_ascii_case(s, "off") || matches_ignoring_ascii_case(s, "false") {
            Ok(CheckboxState::Off)
        } else {
            Err(UnknownValue)
        }
    }
}

} // verus!
