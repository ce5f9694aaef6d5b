//! Lookup of the default application for a MIME type, following the
//! freedesktop mime-apps rules: XDG environment defaults, the ordered list of
//! `mimeapps.list` candidates, the `[Default Applications]` entry, the
//! application descriptor search and its `Exec` line.
//!
//! The library performs no I/O. [`resolver::Resolver`] is a state machine
//! that names each file-system access it needs and is fed the answer.

pub mod descriptor;
pub mod environment;
pub mod mimeapps;
pub mod resolver;
pub mod search;
pub mod text;

pub use text::drop_right_whitespace;
pub use descriptor::{child_probes, exec_binary, probe_plan, Probe};
pub use environment::{resolve_environment, XdgEnvironment};
pub use mimeapps::default_app_ids;
pub use resolver::{Action, ErrorPolicy, Event, ResolveError, Resolver};
pub use search::{config_candidates, data_search_dirs, desktop_names};
