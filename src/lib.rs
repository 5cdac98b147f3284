//! Cleanup orchestration for a Steam installation: the option resolver that
//! turns toggles into an action plan, the run that joins the outcomes of the
//! concurrently dispatched units into one ordered log, and the classifiers of
//! orphaned game folders and redistributable installer folders.
use vstd::prelude::*;

pub mod cache;
pub mod i18n;
pub mod options;
pub mod orchestrator;
pub mod orphans;
pub mod platform;
pub mod profiles;
pub mod redist;
pub mod redist_view;
pub mod steam;
pub mod text;

verus! {

} // verus!
