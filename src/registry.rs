//! The index of named configurations: where each is kept, and which one is current.

use vstd::prelude::*;

use crate::config::{opt_text, CliMode, Config, TMP_CONFIG};
use crate::error::CliError;
use crate::table::Table;
use crate::text::same_text;

verus! {

/// Configuration names and the files they are kept in, with the current name.
pub struct Configs {
    configs: Table<String>,
    current: Option<String>,
}

impl Configs {
    /// The file of each registered configuration.
    pub closed spec fn paths(&self) -> Map<Seq<char>, Seq<char>> {
        Map::new(|k: Seq<char>| self.configs@.contains_key(k), |k: Seq<char>| self.configs@[k]@)
    }

    /// The name of the current configuration, if any.
    pub closed spec fn current_name(&self) -> Option<Seq<char>> {
        opt_text(self.current)
    }

    pub closed spec fn well_formed(&self) -> bool {
        self.configs.well_formed()
    }

    /// No configurations, none current.
    pub fn empty() -> (r: Self)
        ensures
            r.well_formed(),
            r.paths() == Map::<Seq<char>, Seq<char>>::empty(),
            r.current_name() is None,
    {
        let r = Configs { configs: Table::new(), current: None };
        assert(r.paths() =~= Map::<Seq<char>, Seq<char>>::empty());
        r
    }

    /// Adds a registration; for loading an index that was kept.
    pub fn register(&mut self, name: String, path: String)
        requires
            old(self).well_formed(),
        ensures
            final(self).well_formed(),
            final(self).paths() == old(self).paths().insert(name@, path@),
            final(self).current_name() == old(self).current_name(),
    {
        let ghost before = self.paths();
        let ghost entry = (name@, path@);
        self.configs.insert(name, path);
        assert(self.paths() =~= before.insert(entry.0, entry.1));
    }

    /// The file of the configuration named `name`.
    pub fn path_of(&self, name: &String) -> (r: Option<String>)
        requires
            self.well_formed(),
        ensures
            opt_text(r) == if self.paths().contains_key(name@) {
                Some(self.paths()[name@])
            } else {
                None
            },
    {
        match self.configs.get(name) {
            Some(p) => Some(p.clone()),
            None => None,
        }
    }

    /// The name of the current configuration.
    pub fn current(&self) -> (r: Option<String>)
        ensures
            opt_text(r) == self.current_name(),
    {
        match &self.current {
            Some(c) => Some(c.clone()),
            None => None,
        }
    }

    /// Every registration.
    pub fn list(&self) -> (r: Vec<(&String, &String)>)
        requires
            self.well_formed(),
        ensures
            forall|i: int|
                0 <= i < r@.len() ==> self.paths().contains_key(#[trigger] r@[i].0@)
                    && self.paths()[r@[i].0@] == r@[i].1@,
            forall|i: int, j: int| 0 <= i < j < r@.len() ==> #[trigger] r@[i].0@ != #[trigger] r@[j].0@,
            forall|k: Seq<char>| #[trigger]
                self.paths().contains_key(k) ==> exists|i: int| 0 <= i < r@.len() && #[trigger] r@[i].0@ == k,
    {
        self.configs.list()
    }

    /// A fresh configuration named `name`. The temporary one has no file and is not
    /// registered. Any other is registered with `file`, or `default_file` when `file` is
    /// empty, and becomes current; a registered name or an existing file (`file_exists`) is
    /// refused unless `overwrite`.
    pub fn new(
        &mut self,
        name: String,
        file: String,
        default_file: String,
        file_exists: bool,
        overwrite: bool,
        mode: CliMode,
    ) -> (r: Result<Config, CliError>)
        requires
            old(self).well_formed(),
        ensures
            final(self).well_formed(),
            if name@ == TMP_CONFIG@ {
                &&& final(self).paths() == old(self).paths()
                &&& final(self).current_name() == old(self).current_name()
                &&& if file@.len() > 0 {
                    r == Err::<Config, CliError>(CliError::InvalidConfig)
                } else {
                    r matches Ok(c) && c.well_formed() && c.name_view() == name@ && c.file_view() is None
                        && c.mode_view() == mode
                }
            } else if !overwrite && (old(self).paths().contains_key(name@) || file_exists) {
                &&& r == Err::<Config, CliError>(CliError::AlreadyExists)
                &&& final(self).paths() == old(self).paths()
                &&& final(self).current_name() == old(self).current_name()
            } else {
                let path = if file@.len() > 0 {
                    file@
                } else {
                    default_file@
                };
                &&& r matches Ok(c) && c.well_formed() && c.name_view() == name@ && c.file_view()
                    == Some(path) && c.mode_view() == mode
                &&& final(self).paths() == old(self).paths().insert(name@, path)
                &&& final(self).current_name() == Some(name@)
            },
    {
        if same_text(name.as_str(), TMP_CONFIG) {
            if file.unicode_len() > 0 {
                return Err(CliError::InvalidConfig);
            }
            return Ok(Config::new(name, None, mode));
        }
        if !overwrite && (self.configs.contains_key(&name) || file_exists) {
            return Err(CliError::AlreadyExists);
        }
        let path = if file.unicode_len() > 0 {
            file
        } else {
            default_file
        };
        self.register(name.clone(), path.clone());
        self.current = Some(name.clone());
        Ok(Config::new(name, Some(path), mode))
    }

    /// Where the configuration to load is kept: `name`, or else the current one. `None` stands
    /// for the temporary configuration, which is used when no name is given or current.
    pub fn load(&self, name: Option<String>) -> (r: Result<Option<String>, CliError>)
        requires
            self.well_formed(),
        ensures
            match (
                match name {
                    Some(n) => Some(n@),
                    None => self.current_name(),
                }
            ) {
                None => r == Ok::<Option<String>, CliError>(None),
                Some(n) => if n == TMP_CONFIG@ {
                    r == Ok::<Option<String>, CliError>(None)
                } else if self.paths().contains_key(n) {
                    r matches Ok(Some(p)) && p@ == self.paths()[n]
                } else {
                    r == Err::<Option<String>, CliError>(CliError::NotFound)
                },
            },
    {
        let name = match name {
            Some(n) => n,
            None => match &self.current {
                Some(c) => c.clone(),
                None => return Ok(None),
            },
        };
        if same_text(name.as_str(), TMP_CONFIG) {
            return Ok(None);
        }
        match self.configs.get(&name) {
            Some(p) => Ok(Some(p.clone())),
            None => Err(CliError::NotFound),
        }
    }

    /// Unregisters the configuration named `name` and gives its file; it is no longer current.
    /// The temporary configuration cannot be removed.
    pub fn remove(&mut self, name: String) -> (r: Result<String, CliError>)
        requires
            old(self).well_formed(),
        ensures
            final(self).well_formed(),
            if name@ == TMP_CONFIG@ {
                r == Err::<String, CliError>(CliError::InvalidConfig) && final(self).paths() == old(
                    self,
                ).paths() && final(self).current_name() == old(self).current_name()
            } else if !old(self).paths().contains_key(name@) {
                r == Err::<String, CliError>(CliError::NotFound) && final(self).paths() == old(
                    self,
                ).paths() && final(self).current_name() == old(self).current_name()
            } else {
                &&& r matches Ok(p) && p@ == old(self).paths()[name@]
                &&& final(self).paths() == old(self).paths().remove(name@)
                &&& final(self).current_name() == if old(self).current_name() == Some(name@) {
                    None
                } else {
                    old(self).current_name()
                }
            },
    {
        if same_text(name.as_str(), TMP_CONFIG) {
            return Err(CliError::InvalidConfig);
        }
        let ghost before = self.paths();
        match self.configs.remove(&name) {
            Some(path) => {
                let clear = match &self.current {
                    Some(c) => *c == name,
                    None => false,
                };
                if clear {
                    self.current = None;
                }
                assert(self.paths() =~= before.remove(name@));
                Ok(path)
            },
            None => {
                assert(self.paths() =~= before);
                Err(CliError::NotFound)
            },
        }
    }

    /// Makes `name` the current configuration.
    pub fn use_(&mut self, name: String)
        requires
            old(self).well_formed(),
        ensures
            final(self).well_formed(),
            final(self).paths() == old(self).paths(),
            final(self).current_name() == Some(name@),
    {
        self.current = Some(name);
        assert(self.paths() =~= old(self).paths());
    }
}

} // verus!
