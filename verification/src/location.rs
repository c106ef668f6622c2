//! Where the list is kept.

use vstd::prelude::*;

verus! {

/// The directory and the file that hold the list, and whether a home
/// directory was known when they were chosen.
#[derive(Debug, PartialEq, Eq)]
pub struct DataLocation {
    pub directory: String,
    pub file: String,
    pub home_found: bool,
}

/// The home directory: the profile directory where one is given, else the
/// home directory where one is given, else the current directory.
pub open spec fn home_directory(userprofile: Option<&str>, home: Option<&str>) -> Seq<char> {
    match (userprofile, home) {
        (Some(profile), _) => profile@,
        (None, Some(home)) => home@,
        (None, None) => "."@,
    }
}

/// The directory `.todo` under `home`.
pub open spec fn data_directory(home: Seq<char>) -> Seq<char> {
    home + "/.todo"@
}

/// The file `tasks.txt` in the directory `.todo` under `home`.
pub open spec fn data_file(home: Seq<char>) -> Seq<char> {
    data_directory(home) + "/tasks.txt"@
}

/// Chooses the place of the list from the two variables that may name the
/// user's home directory: `userprofile` comes first, `home` second. With
/// neither, the list is kept under the current directory and `home_found` is
/// false, for the caller to warn.
pub fn get_data_file_path(userprofile: Option<&str>, home: Option<&str>) -> (location:
    DataLocation)
    ensures
        location.home_found == (userprofile is Some || home is Some),
        location.directory@ == data_directory(home_directory(userprofile, home)),
        location.file@ == data_file(home_directory(userprofile, home)),
{
    let (home_dir, home_found) = match (userprofile, home) {
        (Some(profile), _) => (profile, true),
        (None, Some(home)) => (home, true),
        (None, None) => (".", false),
    };
    let mut directory = home_dir.to_owned();
    directory.append("/.todo");
    let mut file = directory.clone();
    file.append("/tasks.txt");
    DataLocation { directory, file, home_found }
}

} // verus!
