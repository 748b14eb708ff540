//! Unstyled, accessible UI primitives: the state machines behind an accordion,
//! a portal registry, a checkbox and an alert dialog, with an option type that
//! the widgets share.

mod accordion;
mod checkbox;
mod dialog;
mod item;
mod optional;
mod orientation;
mod portal;
mod text;

pub use accordion::{
    key_response, lemma_collapsible_close, lemma_focus_bounds, lemma_multiple_mode_independent,
    lemma_non_collapsible_floor, lemma_single_mode_exclusive, lemma_single_mode_exclusive_always,
    lemma_switch_replaces, nav_applies, nav_target, toggled, toggled_all, AccordianState,
    AccordianType, AccordionModel, KeyResponse, NavKey,
};
pub use checkbox::{checkbox_state_named, CheckboxState};
pub use dialog::{opt_view, AlertDialogState, DialogKey};
pub use item::{content_id_of, short_uuid_text, trigger_id_of, AccordianItemState};
pub use optional::{Optional, OptionalFromValue};
pub use orientation::Orientation;
pub use portal::{
    channel_name, channel_views, keyed, lemma_insert_keeps_tidy, lemma_insertion_order,
    lemma_reinsert_in_place, lemma_remove_keeps_tidy, lemma_tidy_lists_every_id, resolve,
    Portals, PortalsModel,
};
pub use text::{find, matches_ignoring_ascii_case, views, UnknownValue};
