//! Links each application window to the physical monitor it occupies.
//!
//! The core of the crate is a pure heuristic, [`resolver::determine_monitor`],
//! that maps a window's declared placement and the list of known monitors to
//! the monitor the window most likely occupies, or to "unknown" where that
//! cannot be told from static state alone. Around it, [`reconciler::reconcile`]
//! keeps a persistent window-to-monitor association
//! ([`associations::Associations`]) up to date as windows and monitors change:
//! once per update cycle the host hands it the set of changed windows together
//! with what the platform reports for each, and the reconciler creates,
//! replaces or removes each window's association to match.
//!
//! Every ambiguous case is an explicit "unknown" (`None`), never an error: the
//! heuristic degrades to "no determination" rather than guess.

pub mod associations;
pub mod reconciler;
pub mod resolver;
pub mod types;
