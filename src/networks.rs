//! Named remote endpoints and the one in current use.

use vstd::prelude::*;

use crate::error::CliError;
use crate::table::Table;
use crate::text::owned;

verus! {

/// The address of the local service.
pub const DEFAULT_NETWORK_URL: &'static str = "http://localhost";

/// The port of the local service.
pub const DEFAULT_NETWORK_PORT: u32 = 44444;

/// The name of the network that is always at hand.
pub const DEFAULT_NETWORK_NAME: &'static str = "default";

/// What a network holds, as plain values.
pub struct NetworkView {
    pub name: Seq<char>,
    pub url: Seq<char>,
    pub port: u32,
}

/// A remote endpoint.
pub struct Network {
    pub name: String,
    pub url: String,
    pub port: u32,
}

impl View for Network {
    type V = NetworkView;

    open spec fn view(&self) -> NetworkView {
        NetworkView { name: self.name@, url: self.url@, port: self.port }
    }
}

impl Clone for Network {
    fn clone(&self) -> (r: Self)
        ensures
            r@ == self@,
    {
        Network { name: self.name.clone(), url: self.url.clone(), port: self.port }
    }
}

impl Network {
    /// The address to connect to: the URL, followed by `:` and the port unless it is zero.
    pub fn endpoint(&self) -> (r: String)
        ensures
            r@ == if self.port != 0 {
                self.url@ + seq![':'] + crate::numbers::digits_text(self.port as nat, 10)
            } else {
                self.url@
            },
    {
        let mut r = self.url.clone();
        if self.port != 0 {
            crate::text::push_char(&mut r, ':');
            let digits = crate::numbers::decimal(self.port as u64);
            let ghost before = r@;
            crate::text::append_from(&mut r, digits.as_str(), 0);
            assert(digits@.skip(0) =~= digits@);
        }
        r
    }
}

/// The local endpoint under the name `name`.
pub open spec fn local_network(name: Seq<char>) -> NetworkView {
    NetworkView { name, url: DEFAULT_NETWORK_URL@, port: DEFAULT_NETWORK_PORT }
}

impl Default for Network {
    fn default() -> (r: Self)
        ensures
            r@ == local_network(DEFAULT_NETWORK_NAME@),
    {
        Network { name: owned(DEFAULT_NETWORK_NAME), url: owned(DEFAULT_NETWORK_URL), port: DEFAULT_NETWORK_PORT }
    }
}

/// The known networks and the name of the current one.
pub struct Networks {
    known: Table<Network>,
    current: String,
}

impl Networks {
    /// The known networks by name.
    pub closed spec fn known(&self) -> Map<Seq<char>, NetworkView> {
        Map::new(|k: Seq<char>| self.known@.contains_key(k), |k: Seq<char>| self.known@[k]@)
    }

    /// The networks that a fresh registry knows: the local endpoint as `default`.
    pub open spec fn default_known() -> Map<Seq<char>, NetworkView> {
        Map::<Seq<char>, NetworkView>::empty().insert(
            DEFAULT_NETWORK_NAME@,
            local_network(DEFAULT_NETWORK_NAME@),
        )
    }

    /// The name of the current network; empty when none was chosen.
    pub closed spec fn current(&self) -> Seq<char> {
        self.current@
    }

    /// Each network is stored under its own name.
    pub open spec fn well_formed(&self) -> bool {
        &&& self.table_well_formed()
        &&& forall|n: Seq<char>| #[trigger] self.known().contains_key(n) ==> self.known()[n].name == n
    }

    pub closed spec fn table_well_formed(&self) -> bool {
        self.known.well_formed()
    }

    /// The current name that a lookup without a name settles on: the current name, or
    /// `default` when none was chosen.
    pub open spec fn settled_current(&self) -> Seq<char> {
        if self.current().len() == 0 {
            DEFAULT_NETWORK_NAME@
        } else {
            self.current()
        }
    }

    /// The network that `get` gives for `name`.
    pub open spec fn chosen(&self, name: Option<Seq<char>>) -> Option<NetworkView> {
        match name {
            Some(n) => if self.known().contains_key(n) {
                Some(self.known()[n])
            } else {
                None
            },
            None => if self.known().contains_key(self.current()) {
                Some(self.known()[self.current()])
            } else if self.known().contains_key(self.settled_current()) {
                Some(self.known()[self.settled_current()])
            } else {
                Some(local_network(self.settled_current()))
            },
        }
    }

    /// The network named `name`; without a name, the current network. When the current network
    /// is unknown, `default` becomes current if none was chosen, and a local endpoint is added
    /// under the current name if it is still unknown.
    pub fn get(&mut self, name: Option<String>) -> (r: Option<Network>)
        requires
            old(self).well_formed(),
        ensures
            final(self).well_formed(),
            name is Some ==> *final(self) == *old(self),
            match r {
                Some(v) => old(self).chosen(
                    match name {
                        Some(n) => Some(n@),
                        None => None,
                    },
                ) == Some(v@),
                None => old(self).chosen(
                    match name {
                        Some(n) => Some(n@),
                        None => None,
                    },
                ) is None,
            },
            match name {
                Some(n) => {
                    &&& final(self).known() == old(self).known()
                    &&& final(self).current() == old(self).current()
                    &&& if old(self).known().contains_key(n@) {
                        r matches Some(v) && v@ == old(self).known()[n@]
                    } else {
                        r is None
                    }
                },
                None => if old(self).known().contains_key(old(self).current()) {
                    &&& final(self).known() == old(self).known()
                    &&& final(self).current() == old(self).current()
                    &&& r matches Some(v) && v@ == old(self).known()[old(self).current()]
                } else {
                    let c = old(self).settled_current();
                    &&& final(self).current() == c
                    &&& if old(self).known().contains_key(c) {
                        &&& final(self).known() == old(self).known()
                        &&& r matches Some(v) && v@ == old(self).known()[c]
                    } else {
                        &&& final(self).known() == old(self).known().insert(c, local_network(c))
                        &&& r matches Some(v) && v@ == local_network(c)
                    }
                },
            },
    {
        match name {
            Some(n) => match self.known.get(&n) {
                Some(v) => Some(v.clone()),
                None => None,
            },
            None => {
                if let Some(v) = self.known.get(&self.current) {
                    return Some(v.clone());
                }
                if self.current.unicode_len() == 0 {
                    self.current = owned(DEFAULT_NETWORK_NAME);
                }
                assert(self.known() =~= old(self).known());
                match self.known.get(&self.current) {
                    Some(v) => Some(v.clone()),
                    None => {
                        let c = self.current.clone();
                        self.add(c, None, None).ok()
                    },
                }
            },
        }
    }

    /// Adds a network named `name`, at the local address and port unless others are given.
    pub fn add(&mut self, name: String, url: Option<String>, port: Option<u32>) -> (r: Result<
        Network,
        CliError,
    >)
        requires
            old(self).well_formed(),
        ensures
            final(self).well_formed(),
            final(self).current() == old(self).current(),
            if old(self).known().contains_key(name@) {
                r == Err::<Network, CliError>(CliError::AlreadyExists) && final(self).known() == old(
                    self,
                ).known()
            } else {
                let v = NetworkView {
                    name: name@,
                    url: match url {
                        Some(u) => u@,
                        None => DEFAULT_NETWORK_URL@,
                    },
                    port: match port {
                        Some(p) => p,
                        None => DEFAULT_NETWORK_PORT,
                    },
                };
                &&& r matches Ok(n) && n@ == v
                &&& final(self).known() == old(self).known().insert(name@, v)
            },
    {
        if self.known.contains_key(&name) {
            return Err(CliError::AlreadyExists);
        }
        let network = Network {
            name: name.clone(),
            url: match url {
                Some(u) => u,
                None => owned(DEFAULT_NETWORK_URL),
            },
            port: match port {
                Some(p) => p,
                None => DEFAULT_NETWORK_PORT,
            },
        };
        let result = network.clone();
        let ghost before = self.known();
        self.known.insert(name, network);
        assert(self.known() =~= before.insert(result@.name, result@));
        Ok(result)
    }

    /// Every network with its name, each once.
    pub fn list(&self) -> (r: Vec<(&String, &Network)>)
        requires
            self.well_formed(),
        ensures
            forall|i: int|
                0 <= i < r@.len() ==> self.known().contains_key(#[trigger] r@[i].0@)
                    && self.known()[r@[i].0@] == r@[i].1@,
            forall|i: int, j: int| 0 <= i < j < r@.len() ==> #[trigger] r@[i].0@ != #[trigger] r@[j].0@,
            forall|k: Seq<char>| #[trigger]
                self.known().contains_key(k) ==> exists|i: int| 0 <= i < r@.len() && #[trigger] r@[i].0@ == k,
    {
        self.known.list()
    }

    /// Makes the network named `name` current.
    pub fn set_using(&mut self, name: String) -> (r: Result<(), CliError>)
        requires
            old(self).well_formed(),
        ensures
            final(self).well_formed(),
            final(self).known() == old(self).known(),
            if old(self).known().contains_key(name@) {
                r is Ok && final(self).current() == name@
            } else {
                r == Err::<(), CliError>(CliError::NotFound) && final(self).current() == old(
                    self,
                ).current()
            },
    {
        if !self.known.contains_key(&name) {
            return Err(CliError::NotFound);
        }
        self.current = name;
        assert(self.known() =~= old(self).known());
        Ok(())
    }

    /// The name of the current network.
    pub fn get_using(&self) -> (r: String)
        ensures
            r@ == self.current(),
    {
        self.current.clone()
    }

    /// Changes the address or the port of the network named `name`; what is not given stays.
    pub fn update(&mut self, name: String, url: Option<String>, port: Option<u32>) -> (r: Result<
        (),
        CliError,
    >)
        requires
            old(self).well_formed(),
        ensures
            final(self).well_formed(),
            final(self).current() == old(self).current(),
            if old(self).known().contains_key(name@) {
                let was = old(self).known()[name@];
                &&& r is Ok
                &&& final(self).known() == old(self).known().insert(
                    name@,
                    NetworkView {
                        name: name@,
                        url: match url {
                            Some(u) => u@,
                            None => was.url,
                        },
                        port: match port {
                            Some(p) => p,
                            None => was.port,
                        },
                    },
                )
            } else {
                r == Err::<(), CliError>(CliError::NotFound) && final(self).known() == old(
                    self,
                ).known()
            },
    {
        let was = match self.known.get(&name) {
            Some(n) => n.clone(),
            None => return Err(CliError::NotFound),
        };
        let updated = Network {
            name: name.clone(),
            url: match url {
                Some(u) => u,
                None => was.url,
            },
            port: match port {
                Some(p) => p,
                None => was.port,
            },
        };
        let ghost v = updated@;
        let ghost before = self.known();
        self.known.insert(name, updated);
        assert(self.known() =~= before.insert(v.name, v));
        Ok(())
    }

    /// Forgets the network named `name`.
    pub fn remove(&mut self, name: &String) -> (r: Result<(), CliError>)
        requires
            old(self).well_formed(),
        ensures
            final(self).well_formed(),
            final(self).current() == old(self).current(),
            final(self).known() == old(self).known().remove(name@),
            r is Ok <==> old(self).known().contains_key(name@),
            r matches Err(e) ==> e == CliError::NotFound,
    {
        let ghost before = self.known();
        let removed = self.known.remove(name);
        assert(self.known() =~= before.remove(name@));
        match removed {
            Some(_) => Ok(()),
            None => Err(CliError::NotFound),
        }
    }
}

impl Default for Networks {
    fn default() -> (r: Self)
        ensures
            r.well_formed(),
            r.known() == Networks::default_known(),
            r.current() == DEFAULT_NETWORK_NAME@,
    {
        let default = Network::default();
        let mut known = Table::new();
        known.insert(default.name.clone(), default);
        let r = Networks { known, current: owned(DEFAULT_NETWORK_NAME) };
        assert(r.known() =~= Map::<Seq<char>, NetworkView>::empty().insert(
            DEFAULT_NETWORK_NAME@,
            local_network(DEFAULT_NETWORK_NAME@),
        ));
        r
    }
}

} // verus!
