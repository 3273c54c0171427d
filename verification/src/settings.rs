//! Daemon configuration: the immutable settings record consumed once at
//! startup, and the location of the configuration file it is read from.

use crate::startup::StartupError;
use vstd::prelude::*;
use vstd::string::StringExecFns;

verus! {

/// The daemon's configuration, loaded once at startup and immutable
/// thereafter.
#[derive(Debug, Clone)]
pub struct Settings {
    /// Poll/debounce interval of the watch mechanism, in seconds.
    pub interval: i64,
    /// Directory watched for newly created files.
    pub books_dir: String,
    /// Address of the target device handed to the transfer command.
    pub device_mac: String,
    /// File that receives the daemon's standard output.
    pub stdout_file: String,
    /// File that receives the daemon's standard error.
    pub stderr_file: String,
}

impl Settings {
    /// Assemble a settings record from its plain values.
    pub fn new(
        interval: i64,
        books_dir: String,
        device_mac: String,
        stdout_file: String,
        stderr_file: String,
    ) -> (s: Self)
        ensures
            s.interval == interval,
            s.books_dir@ == books_dir@,
            s.device_mac@ == device_mac@,
            s.stdout_file@ == stdout_file@,
            s.stderr_file@ == stderr_file@,
    {
        Settings { interval, books_dir, device_mac, stdout_file, stderr_file }
    }

    /// The watch interval as an unsigned count of seconds. A negative
    /// configured value is converted by truncation, as the numeric cast does.
    pub fn interval(&self) -> (r: u64)
        ensures
            self.interval >= 0 ==> r == self.interval,
            r == self.interval as u64,
    {
        #[verifier::truncate] (self.interval as u64)
    }

    /// The watched directory.
    pub fn books_dir(&self) -> (r: &str)
        ensures
            r@ == self.books_dir@,
    {
        self.books_dir.as_str()
    }

    /// The target device address.
    pub fn device_mac(&self) -> (r: &str)
        ensures
            r@ == self.device_mac@,
    {
        self.device_mac.as_str()
    }

    /// The standard-output redirection target.
    pub fn stdout_file(&self) -> (r: &str)
        ensures
            r@ == self.stdout_file@,
    {
        self.stdout_file.as_str()
    }

    /// The standard-error redirection target.
    pub fn stderr_file(&self) -> (r: &str)
        ensures
            r@ == self.stderr_file@,
    {
        self.stderr_file.as_str()
    }
}

/// Tail that the configuration file's full path always ends with: a path
/// separator and the fixed file name.
pub open spec fn config_file_suffix() -> Seq<char> {
    "/books-daemon.toml"@
}

/// Append the fixed configuration file name to a configuration directory.
pub fn config_file_path(config_dir: &str) -> (r: String)
    ensures
        r@ == config_dir@ + config_file_suffix(),
{
    let mut path = config_dir.to_owned();
    path.append("/books-daemon.toml");
    path
}

#[verifier::external_type_specification]
#[verifier::external_body]
pub struct ExPathBuf(std::path::PathBuf);

/// Relies on dirs::config_dir: yields the platform's configuration directory,
/// or nothing when the platform defines none. The result depends on the
/// environment, so nothing more is stated of it.
#[verifier::external_body]
fn user_config_dir() -> Option<std::path::PathBuf> {
    dirs::config_dir()
}

/// Relies on the standard library's conversion of an owned path into a
/// string: the path's text when it is valid Unicode, nothing otherwise.
#[verifier::external_body]
pub fn into_string(path: std::path::PathBuf) -> Option<String> {
    path.into_os_string().into_string().ok()
}

/// Locate the daemon's configuration file: the platform's configuration
/// directory, with the fixed file name appended. Fails when no configuration
/// directory is known or its path is not valid Unicode.
pub fn config_path() -> (r: Result<String, StartupError>)
    ensures
        r matches Ok(s) ==> s@.len() >= config_file_suffix().len()
            && s@.skip(s@.len() - config_file_suffix().len()) == config_file_suffix(),
{
    match user_config_dir() {
        None => Err(StartupError::ConfigDirUnknown),
        Some(dir) => match into_string(dir) {
            None => Err(StartupError::ConfigPathNotUnicode),
            Some(text) => {
                let full = config_file_path(text.as_str());
                proof {
                    assert(full@.skip(full@.len() - config_file_suffix().len())
                        =~= config_file_suffix());
                }
                Ok(full)
            },
        },
    }
}

} // verus!
