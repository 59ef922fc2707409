//! Named probes that record elapsed cycles and a byte count per firing,
//! keep running statistics per probe, and list them on demand.
//!
//! Everything here is plain state that one owner changes at a time: the
//! registry owns the records, a probe holds its slot in it, and whoever
//! shares them between threads puts a lock around them.

pub mod calibrate;
pub mod history;
pub mod probe;
pub mod profile;
pub mod registry;

pub use calibrate::{get_nsc_timestamp, init, Calibration, OnExit, Reading};
pub use probe::{Profiled, Profiler};
pub use profile::Profile;
pub use registry::{visit_profiles, Registry, RegistryError, MAX_NUM_PROFILERS};
