//! Where the store file is: where the environment says, or else under the
//! user's home directory.

use vstd::prelude::*;
use vstd::string::StringExecFns;

verus! {

/// The exit code where the store file cannot be located.
pub const LOCATION_EXIT_CODE: i32 = 1;

/// The name of the environment variable that overrides the location.
pub fn override_variable() -> (name: &'static str)
    ensures
        name@ == "ROOSTER_FILE"@,
{
    "ROOSTER_FILE"
}

/// The name of the store file under the home directory.
pub fn default_file_name() -> (name: &'static str)
    ensures
        name@ == ".passwords.rooster"@,
{
    ".passwords.rooster"
}

/// What the environment holds under the overriding variable.
pub enum Override {
    /// The variable is set to this text.
    Given(String),
    /// The variable is not set.
    Absent,
    /// The variable is set to something that is no text.
    NotUnicode,
}

/// The path of the store file, given what the environment holds, the home
/// directory if it is known, and what separates the parts of a path.
pub open spec fn located(rooster_file: Override, home_dir: Option<String>, separator: Seq<char>)
    -> Result<Seq<char>, i32> {
    match rooster_file {
        Override::Given(path) => Ok(path@),
        Override::Absent => match home_dir {
            Some(home) => Ok(home@ + separator + ".passwords.rooster"@),
            None => Err(LOCATION_EXIT_CODE),
        },
        Override::NotUnicode => Err(LOCATION_EXIT_CODE),
    }
}

/// Resolves the path of the store file: the overriding variable's value if
/// it is set, else the default file name under the home directory. There is
/// no path if the variable holds no text, or is not set while the home
/// directory is unknown.
pub fn get_password_file_path(rooster_file: Override, home_dir: Option<String>, separator: &str)
    -> (result: Result<String, i32>)
    ensures
        match located(rooster_file, home_dir, separator@) {
            Ok(path) => result matches Ok(found) && found@ == path,
            Err(code) => result matches Err(c) && c == code,
        },
{
    match rooster_file {
        Override::Given(path) => Ok(path),
        Override::Absent => match home_dir {
            Some(home) => {
                let mut path = home;
                path.append(separator);
                path.append(default_file_name());
                Ok(path)
            },
            None => Err(LOCATION_EXIT_CODE),
        },
        Override::NotUnicode => Err(LOCATION_EXIT_CODE),
    }
}

} // verus!
