use vstd::prelude::*;
use crate::classify::Target;

verus! {

/// The parsed command line.
#[derive(Debug)]
pub struct Cli {
    pub command: Commands,
}

#[derive(Debug)]
pub enum Commands {
    /// Toggle a named scratchpad.
    Show {
        /// Which window is the scratchpad.
        criteria: Criteria,
        /// The command line that starts the scratchpad's program.
        exec_command: String,
        /// Resize argument applied when the scratchpad comes into view
        /// (e.g. "set 90 ppt 90 ppt").
        resize: Option<String>,
    },
}

/// The attribute that names the scratchpad: exactly one is expected.
#[derive(Debug)]
pub struct Criteria {
    /// The Wayland app_id of the application.
    pub app_id: Option<String>,
    /// The window_properties.class of the application (Xwayland).
    pub class: Option<String>,
}

impl Criteria {
    /// The target these criteria name: the app_id when one is given, else
    /// the class; `None` when neither is.
    pub fn target(&self) -> (r: Option<Target>)
        ensures
            match self.app_id {
                Some(v) => r == Some(Target::AppId(v)),
                None => match self.class {
                    Some(v) => r == Some(Target::Class(v)),
                    None => r is None,
                },
            },
    {
        match &self.app_id {
            Some(v) => Some(Target::AppId(v.clone())),
            None => match &self.class {
                Some(v) => Some(Target::Class(v.clone())),
                None => None,
            },
        }
    }
}

} // verus!
