//! Verified policy and bookkeeping core of the westonite compositor
//! frontend: generational registries, output policy, the desktop-shell
//! focus state machine, configuration resolution and its validators.

pub mod registry;
pub mod ids;
pub mod forge;
pub mod host;
pub mod text;
pub mod output_policy;
pub mod shell;
pub mod shell_laws;
pub mod shell_events;
pub mod numeric;
pub mod config;
pub mod resolve;
pub mod libinput;
pub mod layoutput;
pub mod frontend;
pub mod compositor;
pub mod heads;
pub mod logging;
pub mod grab;
pub mod protocol;
pub mod dispatch;
pub mod spawn;
pub mod xwayland;
pub mod startup;
pub mod tracking;
pub mod overrides;
pub mod screenshooter;
