//! The decisions the command-line tool makes while locating the engine: the
//! engine's version file must be there and name the tool's own version, and
//! the editor binary is taken from the install directory before the tool's
//! own directory.
use vstd::prelude::*;

verus! {

/// The Unicode `White_Space` property.
pub open spec fn is_white_space(c: char) -> bool {
    ||| '\u{9}' <= c <= '\u{d}'
    ||| c == ' '
    ||| c == '\u{85}'
    ||| c == '\u{a0}'
    ||| c == '\u{1680}'
    ||| '\u{2000}' <= c <= '\u{200a}'
    ||| c == '\u{2028}'
    ||| c == '\u{2029}'
    ||| c == '\u{202f}'
    ||| c == '\u{205f}'
    ||| c == '\u{3000}'
}

/// `s` without its leading white space.
pub open spec fn trim_start(s: Seq<char>) -> Seq<char>
    decreases s.len(),
{
    if s.len() > 0 && is_white_space(s[0]) {
        trim_start(s.drop_first())
    } else {
        s
    }
}

/// `s` without its trailing white space.
pub open spec fn trim_end(s: Seq<char>) -> Seq<char>
    decreases s.len(),
{
    if s.len() > 0 && is_white_space(s.last()) {
        trim_end(s.drop_last())
    } else {
        s
    }
}

/// `s` without leading and trailing white space.
pub open spec fn trimmed(s: Seq<char>) -> Seq<char> {
    trim_end(trim_start(s))
}

/// `str::trim`: the slice without leading and trailing characters of the
/// Unicode `White_Space` property, as its documentation says.
#[verifier::external_body]
fn trim(s: &str) -> (t: &str)
    ensures
        t@ == trimmed(s@),
{
    s.trim()
}

/// Why the engine could not be located.
#[derive(Debug, PartialEq, Eq)]
pub enum ConfigError {
    /// The engine directory holds no version file.
    NotInstalled,
    /// The version file names another version: the tool's version, then the
    /// file's contents.
    VersionMismatch(String, String),
    /// No editor binary in the install directory nor beside the tool.
    EditorNotFound,
}

/// Checks the engine's version file, given its contents or `None` where it
/// is missing: its contents, trimmed, must be the tool's version.
pub fn check_engine_version(version_file: Option<&str>, cli_version: &str) -> (r: Result<(), ConfigError>)
    ensures
        version_file is None ==> r == Err::<(), ConfigError>(ConfigError::NotInstalled),
        version_file matches Some(v) ==> (r is Ok <==> trimmed(v@) == cli_version@),
        version_file matches Some(v) ==> (r is Err ==> (r matches Err(ConfigError::VersionMismatch(cli, engine))
            && cli@ == cli_version@ && engine@ == v@)),
{
    match version_file {
        None => Err(ConfigError::NotInstalled),
        Some(version) => {
            let found = trim(version).to_owned();
            let expected = cli_version.to_owned();
            if found != expected {
                Err(ConfigError::VersionMismatch(expected, version.to_owned()))
            } else {
                Ok(())
            }
        },
    }
}

/// Where the editor binary is taken from.
#[derive(Clone, Copy, Debug, PartialEq, Eq, Structural)]
pub enum EditorLocation {
    /// The engine's install directory.
    Install,
    /// The directory of the running tool, as in a development tree.
    BesideExecutable,
}

/// Picks the editor binary: the one in the install directory where it is a
/// file, else the one beside the tool, else none.
pub fn choose_editor(in_install_dir: bool, beside_executable: bool) -> (r: Result<EditorLocation, ConfigError>)
    ensures
        in_install_dir ==> r == Ok::<EditorLocation, ConfigError>(EditorLocation::Install),
        !in_install_dir && beside_executable ==> r == Ok::<EditorLocation, ConfigError>(
            EditorLocation::BesideExecutable,
        ),
        !in_install_dir && !beside_executable ==> r == Err::<EditorLocation, ConfigError>(
            ConfigError::EditorNotFound,
        ),
{
    if in_install_dir {
        Ok(EditorLocation::Install)
    } else if beside_executable {
        Ok(EditorLocation::BesideExecutable)
    } else {
        Err(ConfigError::EditorNotFound)
    }
}

} // verus!
