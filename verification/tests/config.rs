use std::path::Path;

use striputary::config::cli::CliOpts;
use striputary::config::config_file::ConfigFile;
use striputary::config::Service::{SpotifyChromium, SpotifyNative};
use striputary::config::{Command, CutArgs, Opts, Service, SoundServer};

fn test_opts() -> CliOpts {
    CliOpts {
        output_dir: Some("".into()),
        service: None,
        sound_server: None,
        verbosity: 0,
        command: Command::Record,
    }
}

fn test_config_file() -> ConfigFile {
    ConfigFile {
        output_dir: "from_config_file".into(),
        service: None,
        sound_server: None,
    }
}

#[test]
fn service_set_properly() {
    let mut p_opts = CliOpts {
        service: Some(SpotifyChromium),
        ..test_opts()
    };
    let config_file = ConfigFile {
        service: Some(SpotifyChromium),
        ..test_config_file()
    };

    let opts = Opts::new(p_opts.clone(), None);
    assert_eq!(opts.service, SpotifyChromium);

    p_opts.service = Some(SpotifyNative);
    let opts = Opts::new(p_opts.clone(), None);
    assert_eq!(opts.service, SpotifyNative);

    p_opts.service = None;
    let opts = Opts::new(p_opts.clone(), None);
    assert_eq!(opts.service, Service::default());

    p_opts.service = None;
    let opts = Opts::new(p_opts.clone(), Some(config_file));
    assert_eq!(opts.service, SpotifyChromium);
}

#[test]
fn output_dir_set_properly() {
    let mut p_opts = CliOpts {
        output_dir: Some("from_cli".into()),
        ..test_opts()
    };
    let config_file = ConfigFile {
        output_dir: "from_config_file".into(),
        ..test_config_file()
    };
    let opts = Opts::new(p_opts.clone(), None);
    assert!(Path::new(&opts.output_dir) == Path::new("from_cli").to_owned());
    let opts = Opts::new(p_opts.clone(), Some(config_file.clone()));
    assert!(Path::new(&opts.output_dir) == Path::new("from_cli").to_owned());
    p_opts.output_dir = None;
    let opts = Opts::new(p_opts.clone(), Some(config_file));
    assert!(Path::new(&opts.output_dir) == Path::new("from_config_file").to_owned());
}

#[test]
fn sound_server_set_properly() {
    let mut p_opts = CliOpts {
        sound_server: Some(SoundServer::Pipewire),
        ..test_opts()
    };
    let config_file = ConfigFile {
        sound_server: Some(SoundServer::Pipewire),
        ..test_config_file()
    };
    let opts = Opts::new(p_opts.clone(), None);
    assert_eq!(opts.sound_server, SoundServer::Pipewire);

    p_opts.sound_server = None;
    let opts = Opts::new(p_opts.clone(), None);
    assert_eq!(opts.sound_server, SoundServer::default());
    assert_eq!(opts.sound_server, SoundServer::Pulseaudio);

    let opts = Opts::new(p_opts.clone(), Some(config_file));
    assert_eq!(opts.sound_server, SoundServer::Pipewire);
}

#[test]
fn command_line_service_beats_config_file() {
    let p_opts = CliOpts {
        service: Some(Service::SpotifyNative),
        ..test_opts()
    };
    let config_file = ConfigFile {
        service: Some(Service::SpotifyChromium),
        ..test_config_file()
    };
    let opts = Opts::new(p_opts, Some(config_file));
    assert_eq!(opts.service, Service::SpotifyNative);
}

#[test]
fn command_and_verbosity_are_kept() {
    let p_opts = CliOpts {
        verbosity: 2,
        command: Command::Cut(CutArgs {
            path: "some/session".into(),
        }),
        ..test_opts()
    };
    let opts = Opts::new(p_opts, None);
    assert_eq!(opts.verbosity, 2);
    match opts.command {
        Command::Cut(args) => assert_eq!(args.path, "some/session"),
        _ => panic!("the command changed"),
    }
}

#[test]
fn default_service_is_the_native_player() {
    assert_eq!(Service::default(), Service::SpotifyNative);
}

#[test]
fn path_without_home_sign_stays() {
    let config_file = ConfigFile {
        output_dir: "music/recordings".into(),
        service: Some(Service::SpotifyChromium),
        sound_server: Some(SoundServer::Pipewire),
    };
    let expanded = config_file.expand_home();
    assert_eq!(expanded.output_dir, "music/recordings");
    assert_eq!(expanded.service, Some(Service::SpotifyChromium));
    assert_eq!(expanded.sound_server, Some(SoundServer::Pipewire));

    let other_user = ConfigFile {
        output_dir: "~someone/music".into(),
        ..test_config_file()
    };
    assert_eq!(other_user.expand_home().output_dir, "~someone/music");
}

#[test]
fn home_sign_is_replaced() {
    let config_file = ConfigFile {
        output_dir: "~/music/recordings".into(),
        ..test_config_file()
    };
    let expanded = config_file.expand_home();
    assert!(expanded.output_dir.ends_with("/music/recordings"));
    assert!(!expanded.output_dir.starts_with('~'));
}

#[test]
fn output_dir_is_replaced() {
    let config_file = ConfigFile {
        output_dir: "from_config_file".into(),
        service: Some(Service::SpotifyChromium),
        sound_server: None,
    };
    let changed = config_file.with_output_dir("/home/someone/music".into());
    assert_eq!(changed.output_dir, "/home/someone/music");
    assert_eq!(changed.service, Some(Service::SpotifyChromium));
    assert_eq!(changed.sound_server, None);
}

#[test]
fn home_sign_alone_is_the_home_directory() {
    let alone = ConfigFile {
        output_dir: "~".into(),
        ..test_config_file()
    };
    let below = ConfigFile {
        output_dir: "~/music".into(),
        ..test_config_file()
    };
    let home = alone.expand_home().output_dir;
    assert_eq!(below.expand_home().output_dir, format!("{}/music", home));
}
