//! The settings that the program runs with.

pub mod cli;
pub mod config_file;
pub mod service;
pub mod sound_server;

use self::cli::CliOpts;
use self::config_file::ConfigFile;
use vstd::prelude::*;

pub use self::cli::{Command, CutArgs};
pub use self::service::Service;
pub use self::sound_server::SoundServer;

verus! {

/// The settings that the program runs with.
#[derive(Debug)]
pub struct Opts {
    pub output_dir: String,
    pub service: Service,
    pub sound_server: SoundServer,
    pub command: Command,
    pub verbosity: usize,
}

/// The service that the config file names, if there is a config file and it names one.
pub open spec fn service_of(config_file: Option<ConfigFile>) -> Option<Service> {
    match config_file {
        Some(file) => file.service,
        None => None,
    }
}

/// The sound server that the config file names, if there is a config file
/// and it names one.
pub open spec fn sound_server_of(config_file: Option<ConfigFile>) -> Option<SoundServer> {
    match config_file {
        Some(file) => file.sound_server,
        None => None,
    }
}

/// The first of the two that is there, or else `default`.
pub open spec fn first_of<T>(first: Option<T>, second: Option<T>, default: T) -> T {
    match first {
        Some(value) => value,
        None => match second {
            Some(value) => value,
            None => default,
        },
    }
}

impl Clone for Opts {
    fn clone(&self) -> (copy: Opts)
        ensures
            copy == *self,
    {
        Opts {
            output_dir: self.output_dir.clone(),
            service: self.service,
            sound_server: self.sound_server,
            command: self.command.clone(),
            verbosity: self.verbosity,
        }
    }
}

impl Opts {
    /// Settles each setting: what the command line says comes first, what
    /// the config file says second, and the default last. There is no
    /// default for the output directory: the command line or the config
    /// file has to name one.
    pub fn new(opts: CliOpts, config_file: Option<ConfigFile>) -> (result: Opts)
        requires
            opts.output_dir is Some || config_file is Some,
        ensures
            result.service == first_of(
                opts.service,
                service_of(config_file),
                Service::SpotifyNative,
            ),
            result.sound_server == first_of(
                opts.sound_server,
                sound_server_of(config_file),
                SoundServer::Pulseaudio,
            ),
            result.output_dir == (match opts.output_dir {
                Some(dir) => dir,
                None => config_file->Some_0.output_dir,
            }),
            result.command == opts.command,
            result.verbosity == opts.verbosity,
    {
        let file_service: Option<Service> = match &config_file {
            Some(file) => file.service,
            None => None,
        };
        let service: Service = match opts.service {
            Some(service) => service,
            None => match file_service {
                Some(service) => service,
                None => Service::default(),
            },
        };
        let file_sound_server: Option<SoundServer> = match &config_file {
            Some(file) => file.sound_server,
            None => None,
        };
        let sound_server: SoundServer = match opts.sound_server {
            Some(sound_server) => sound_server,
            None => match file_sound_server {
                Some(sound_server) => sound_server,
                None => SoundServer::default(),
            },
        };
        let output_dir: String = match opts.output_dir {
            Some(dir) => dir,
            None => match config_file {
                Some(file) => file.output_dir,
                None => vstd::pervasive::unreached(),
            },
        };
        Opts {
            output_dir,
            service,
            sound_server,
            command: opts.command,
            verbosity: opts.verbosity as usize,
        }
    }
}

} // verus!
