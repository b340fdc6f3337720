//! Where preferences come from: a repository that loads them, and a mock
//! that hands out the defaults.
//!
//! The file-backed repository here only carries the configuration file path;
//! reading, creating and parsing the file is the application shell's work.

use vstd::prelude::*;

verus! {

use crate::preferences::Preferences;

/// Loading failed: the file could not be read, created, or parsed.
#[derive(Clone, Copy, Debug, PartialEq, Eq, Structural)]
pub struct PreferencesLoadError;

/// A source of preferences.
pub trait PreferencesRepository {
    /// Load the current preferences.
    fn load(&self) -> Result<Preferences, PreferencesLoadError>;
}

/// The file-backed repository: remembers which configuration file the
/// preferences live in.
pub struct PreferencesRepositoryImpl {
    config_file_path: String,
}

impl PreferencesRepositoryImpl {
    /// A repository over the given configuration file.
    pub fn new(file_path: String) -> (r: Self)
        ensures
            r.path_spec() == file_path@,
    {
        PreferencesRepositoryImpl { config_file_path: file_path }
    }

    /// The configuration file this repository reads.
    pub closed spec fn path_spec(&self) -> Seq<char> {
        self.config_file_path@
    }

    /// The configuration file this repository reads.
    pub fn config_file_path(&self) -> (r: &String)
        ensures
            r@ == self.path_spec(),
    {
        &self.config_file_path
    }
}

/// A repository that always hands out the stock preferences.
pub struct MockPreferencesRepository;

impl PreferencesRepository for MockPreferencesRepository {
    fn load(&self) -> Result<Preferences, PreferencesLoadError> {
        Ok(Preferences::default())
    }
}

} // verus!
