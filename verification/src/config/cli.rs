//! What the command line says.

use super::service::Service;
use super::sound_server::SoundServer;
use crate::song::clone_text;
use vstd::prelude::*;

verus! {

/// The options of the command line.
#[derive(Debug)]
pub struct CliOpts {
    /// The output directory to record to. Given here, it overrides the
    /// setting in the config file.
    pub output_dir: Option<String>,
    /// The service to record. Given here, it overrides the setting in the
    /// config file.
    pub service: Option<Service>,
    /// The sound server to use. Given here, it overrides the setting in
    /// the config file.
    pub sound_server: Option<SoundServer>,
    pub verbosity: u8,
    pub command: Command,
}

/// What the program is asked to do.
#[derive(Debug)]
pub enum Command {
    /// Begin a new recording.
    Record,
    /// Cut a previous recording into individual songs.
    Cut(CutArgs),
    /// Monitor the incoming d-bus messages, to find faults.
    MonitorDbus,
}

/// What the command to cut needs to know.
#[derive(Debug)]
pub struct CutArgs {
    /// Path of the recording session to cut.
    pub path: String,
}

impl Clone for CutArgs {
    fn clone(&self) -> (copy: CutArgs)
        ensures
            copy == *self,
    {
        CutArgs { path: self.path.clone() }
    }
}

impl Clone for Command {
    fn clone(&self) -> (copy: Command)
        ensures
            copy == *self,
    {
        match self {
            Command::Record => Command::Record,
            Command::Cut(args) => Command::Cut(args.clone()),
            Command::MonitorDbus => Command::MonitorDbus,
        }
    }
}

impl Clone for CliOpts {
    fn clone(&self) -> (copy: CliOpts)
        ensures
            copy == *self,
    {
        CliOpts {
            output_dir: clone_text(&self.output_dir),
            service: self.service,
            sound_server: self.sound_server,
            verbosity: self.verbosity,
            command: self.command.clone(),
        }
    }
}

} // verus!
