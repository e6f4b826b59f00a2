//! Where the daemon keeps its files: which of the possible directories holds the database and the
//! settings, and what stands beneath it.
use vstd::prelude::*;

verus! {

/// The settings file, in the data directory.
pub const SETTINGS_FILE: &'static str = "cortexd.toml";

/// The database, in the platform's data directory.
pub const DATABASE_FILE: &'static str = "cortex.db";

/// What the platform's data directory lies in.
#[derive(Clone, Copy, Debug, PartialEq, Eq, Structural)]
pub enum DataBase {
    /// The directory that the environment declares for data.
    Declared,
    /// The user's home.
    Home,
    /// The directory for temporary files.
    Temporary,
}

/// What the data directory is taken from.
#[derive(Clone, Copy, Debug, PartialEq, Eq, Structural)]
pub enum DataDirectory {
    /// The directory that the database override lies in.
    OverrideParent,
    /// The platform's data directory.
    Platform,
}

/// What the path of the database is taken from.
#[derive(Clone, Copy, Debug, PartialEq, Eq, Structural)]
pub enum DatabasePath {
    /// The name that the settings declare, in the data directory.
    Settings,
    /// The database override itself.
    Override,
    /// The default name, in the platform's data directory.
    Platform,
}

/// The base of the platform's data directory: what the environment declares, else the home, else
/// the directory for temporary files.
pub fn default_data_base(declared: bool, home: bool) -> (base: DataBase)
    ensures
        declared ==> base == DataBase::Declared,
        !declared && home ==> base == DataBase::Home,
        !declared && !home ==> base == DataBase::Temporary,
{
    if declared {
        DataBase::Declared
    } else if home {
        DataBase::Home
    } else {
        DataBase::Temporary
    }
}

/// The path from the base to the platform's data directory.
pub open spec fn data_segments(base: DataBase) -> Seq<Seq<char>> {
    match base {
        DataBase::Home => seq![".local"@, "share"@, "cortex"@],
        _ => seq!["cortex"@],
    }
}

/// The path from the base to the platform's data directory, segment by segment.
pub fn default_data_segments(base: DataBase) -> (segments: Vec<&'static str>)
    ensures
        segments@.map_values(|one: &'static str| one@) == data_segments(base),
{
    let mut segments: Vec<&'static str> = Vec::new();
    match base {
        DataBase::Home => {
            segments.push(".local");
            segments.push("share");
        },
        _ => {},
    }
    segments.push("cortex");
    assert(segments@.map_values(|one: &'static str| one@) =~= data_segments(base));
    segments
}

/// The data directory. `override_parent` is the length of the name of the directory that the
/// database override lies in, where there are an override and such a directory: an override with
/// an empty one says nothing about the directory.
pub fn data_directory_for(override_parent: Option<usize>) -> (directory: DataDirectory)
    ensures
        directory == DataDirectory::OverrideParent <==> (override_parent matches Some(length)
            && length > 0),
{
    match override_parent {
        Some(length) => if length > 0 {
            DataDirectory::OverrideParent
        } else {
            DataDirectory::Platform
        },
        None => DataDirectory::Platform,
    }
}

/// The database: the name in the settings, else the override, else the default.
pub fn database_path_for(declared: bool, overridden: bool) -> (path: DatabasePath)
    ensures
        declared ==> path == DatabasePath::Settings,
        !declared ==> path == (if overridden {
            DatabasePath::Override
        } else {
            DatabasePath::Platform
        }),
{
    if declared {
        DatabasePath::Settings
    } else {
        default_database_path_for(overridden)
    }
}

/// The database where the settings name none: the override, else the default.
pub fn default_database_path_for(overridden: bool) -> (path: DatabasePath)
    ensures
        path == (if overridden {
            DatabasePath::Override
        } else {
            DatabasePath::Platform
        }),
{
    if overridden {
        DatabasePath::Override
    } else {
        DatabasePath::Platform
    }
}

/// Every data directory ends in the daemon's own directory; beneath a home it lies where user data
/// lies.
pub proof fn law_data_lies_in_the_daemons_directory(base: DataBase)
    ensures
        data_segments(base).last() == "cortex"@,
        base == DataBase::Home <==> data_segments(base).len() == 3,
        base != DataBase::Home <==> data_segments(base).len() == 1,
        base == DataBase::Home ==> data_segments(base)[0] == ".local"@ && data_segments(base)[1]
            == "share"@,
{
}

} // verus!
