//! What the config file says.

use super::service::Service;
use super::sound_server::SoundServer;
use vstd::prelude::*;

verus! {

/// The settings of the config file.
#[derive(Debug)]
pub struct ConfigFile {
    pub output_dir: String,
    pub service: Option<Service>,
    pub sound_server: Option<SoundServer>,
}

/// A path that begins with the sign for the home directory: a `~` alone,
/// or a `~` and then a separator.
pub open spec fn begins_with_home(path: Seq<char>) -> bool {
    path.len() > 0 && path[0] == '~' && (path.len() == 1 || path[1] == '/' || path[1] == '\\')
}

/// Calls `shellexpand::tilde`, which puts the home directory of the user
/// in the place of a leading `~`. A path that does not begin with the sign
/// for the home directory comes back as it is. One that does either comes
/// back as it is too, where no home directory is known, or comes back with
/// something in the place of the `~`: either way it still ends with all
/// that followed the `~`.
#[verifier::external_body]
fn tilde(path: &str) -> (expanded: String)
    ensures
        !begins_with_home(path@) ==> expanded@ == path@,
        begins_with_home(path@) ==> expanded@.len() >= path@.len() - 1 && expanded@.skip(
            expanded@.len() - (path@.len() - 1),
        ) == path@.skip(1),
{
    shellexpand::tilde(path).into_owned()
}

impl Clone for ConfigFile {
    fn clone(&self) -> (copy: ConfigFile)
        ensures
            copy == *self,
    {
        ConfigFile {
            output_dir: self.output_dir.clone(),
            service: self.service,
            sound_server: self.sound_server,
        }
    }
}

impl ConfigFile {
    /// The settings with the home directory of the user in the place of a
    /// leading `~` of the output directory.
    pub fn expand_home(self) -> (expanded: ConfigFile)
        ensures
            expanded.service == self.service,
            expanded.sound_server == self.sound_server,
            !begins_with_home(self.output_dir@) ==> expanded.output_dir@ == self.output_dir@,
            begins_with_home(self.output_dir@) ==> expanded.output_dir@.len()
                >= self.output_dir@.len() - 1 && expanded.output_dir@.skip(
                expanded.output_dir@.len() - (self.output_dir@.len() - 1),
            ) == self.output_dir@.skip(1),
    {
        let output_dir: String = tilde(self.output_dir.as_str());
        self.with_output_dir(output_dir)
    }

    /// The settings with `output_dir` as the output directory and
    /// everything else as it is.
    pub fn with_output_dir(self, output_dir: String) -> (changed: ConfigFile)
        ensures
            changed.output_dir == output_dir,
            changed.service == self.service,
            changed.sound_server == self.sound_server,
    {
        ConfigFile { output_dir, service: self.service, sound_server: self.sound_server }
    }
}

} // verus!
