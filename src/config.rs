//! The configuration aggregate: accounts, networks, aliases and pending claims, with the rule
//! that decides whether a change can be kept.

use vstd::prelude::*;

use crate::accounts::{Account, AccountView, Accounts, Credentials};
use crate::alias::HexMap;
use crate::claims::{ClaimLedger, PendingClaim, PendingClaimView};
use crate::error::CliError;
use crate::networks::{Network, NetworkView, Networks};
use crate::text::{lower_text, owned};

verus! {

/// The text of an optional string.
pub open spec fn opt_text(s: Option<String>) -> Option<Seq<char>> {
    match s {
        Some(t) => Some(t@),
        None => None,
    }
}

/// The name of the configuration that has no file.
pub const TMP_CONFIG: &'static str = "tmp";

/// How the program runs.
#[derive(Debug, Clone, Copy, PartialEq, Eq, Structural)]
pub enum CliMode {
    /// One command, then exit.
    SingleCommand,
    /// Several commands in one run, as in an interactive session.
    MultiCommand,
}

/// The mode assumed when none is recorded.
pub fn default_mode() -> (r: CliMode)
    ensures
        r == CliMode::SingleCommand,
{
    CliMode::SingleCommand
}

/// A locally started server.
pub struct RpcServerLocal {
    /// Start time, in seconds since the Unix epoch.
    pub started: u64,
    /// The command line that started it.
    pub command: Vec<String>,
    /// Its database directory.
    pub db_dir: String,
}

impl Clone for RpcServerLocal {
    fn clone(&self) -> (r: Self)
        ensures
            r.started == self.started,
            r.command@ == self.command@,
            r.db_dir@ == self.db_dir@,
    {
        let command = self.command.clone();
        assert(command@ =~= self.command@);
        RpcServerLocal { started: self.started, command, db_dir: self.db_dir.clone() }
    }
}

/// How a local server gets its initial state.
pub enum RpcServerInit {
    /// From an empty state.
    Empty,
    /// From a genesis file at this path.
    GenesisFile(String),
    /// From this genesis JSON text.
    GenesisJson(String),
}

/// The text of a genesis argument that is not a file: quotes and surrounding white space
/// removed.
pub open spec fn genesis_text(arg: Seq<char>) -> Seq<char> {
    crate::words::trim(crate::words::strip(crate::words::strip(arg, '\''), '"'))
}

/// How a local server is initialised from a genesis argument: a file when it names one,
/// otherwise JSON text, which must be enclosed in braces once quotes and surrounding white
/// space are removed.
pub fn genesis_source(arg: &str, is_file: bool) -> (r: Result<RpcServerInit, CliError>)
    ensures
        is_file ==> (r matches Ok(RpcServerInit::GenesisFile(f)) && f@ == arg@),
        !is_file ==> {
            let g = genesis_text(arg@);
            if g.len() >= 1 && g[0] == '{' && g.last() == '}' {
                (r matches Ok(RpcServerInit::GenesisJson(j)) && j@ == g)
            } else {
                r == Err::<RpcServerInit, CliError>(CliError::InvalidConfig)
            }
        },
{
    if is_file {
        return Ok(RpcServerInit::GenesisFile(owned(arg)));
    }
    let unquoted = crate::words::strip_char(arg, '\'');
    let unquoted = crate::words::strip_char(unquoted.as_str(), '"');
    let g = crate::words::trim_text(unquoted.as_str());
    let n = g.unicode_len();
    if n >= 1 && g.as_str().get_char(0) == '{' && g.as_str().get_char(n - 1) == '}' {
        Ok(RpcServerInit::GenesisJson(g))
    } else {
        Err(CliError::InvalidConfig)
    }
}

/// The state of the program.
pub struct Config {
    name: String,
    file: Option<String>,
    networks: Networks,
    accounts: Accounts,
    addresses: HexMap,
    identifiers: HexMap,
    submitted: ClaimLedger,
    server: Option<RpcServerLocal>,
    mode: CliMode,
}

impl Config {
    pub closed spec fn name_view(&self) -> Seq<char> {
        self.name@
    }

    pub closed spec fn file_view(&self) -> Option<Seq<char>> {
        match self.file {
            Some(f) => Some(f@),
            None => None,
        }
    }

    pub closed spec fn mode_view(&self) -> CliMode {
        self.mode
    }

    pub closed spec fn networks_view(&self) -> Networks {
        self.networks
    }

    pub closed spec fn accounts_view(&self) -> Accounts {
        self.accounts
    }

    pub closed spec fn addresses_view(&self) -> HexMap {
        self.addresses
    }

    pub closed spec fn identifiers_view(&self) -> HexMap {
        self.identifiers
    }

    pub closed spec fn claims_view(&self) -> ClaimLedger {
        self.submitted
    }

    pub closed spec fn server_view(&self) -> Option<RpcServerLocal> {
        self.server
    }

    /// The selected account, or why there is none.
    pub open spec fn selected_account(&self) -> Result<AccountView, CliError> {
        match self.accounts_view().using() {
            None => Err(CliError::NoDefaultAccount),
            Some(n) => if self.accounts_view().accounts().contains_key(n) {
                Ok(self.accounts_view().accounts()[n])
            } else {
                Err(CliError::NotFound)
            },
        }
    }

    /// A change can be kept: there is a file, or the program runs several commands.
    pub open spec fn persists(&self) -> bool {
        self.file_view() is Some || self.mode_view() == CliMode::MultiCommand
    }

    /// The parts are well formed; addresses are `0x` and 40 digits, identifiers 64 digits with
    /// an optional `0x`.
    pub open spec fn well_formed(&self) -> bool {
        &&& self.networks_view().well_formed()
        &&& self.accounts_view().well_formed()
        &&& self.addresses_view().well_formed()
        &&& self.identifiers_view().well_formed()
        &&& self.claims_view().well_formed()
        &&& self.addresses_view().prefix_text() == seq!['0', 'x']
        &&& !self.addresses_view().prefix_optional()
        &&& self.addresses_view().digits() == 40
        &&& self.identifiers_view().prefix_text() == seq!['0', 'x']
        &&& self.identifiers_view().prefix_optional()
        &&& self.identifiers_view().digits() == 64
    }

    /// The parts other than the networks are as in `other`.
    pub open spec fn same_but_networks(&self, other: &Config) -> bool {
        &&& self.name_view() == other.name_view()
        &&& self.file_view() == other.file_view()
        &&& self.mode_view() == other.mode_view()
        &&& self.accounts_view().accounts() == other.accounts_view().accounts()
        &&& self.accounts_view().using() == other.accounts_view().using()
        &&& self.addresses_view().aliases() == other.addresses_view().aliases()
        &&& self.identifiers_view().aliases() == other.identifiers_view().aliases()
        &&& self.claims_view().claims() == other.claims_view().claims()
    }

    /// A fresh configuration: the default network, no accounts, aliases or claims.
    pub fn new(name: String, file: Option<String>, mode: CliMode) -> (r: Self)
        ensures
            r.well_formed(),
            r.name_view() == name@,
            r.file_view() == match file {
                Some(f) => Some(f@),
                None => None::<Seq<char>>,
            },
            r.mode_view() == mode,
            r.networks_view().known() == Networks::default_known(),
            r.accounts_view().accounts() == Map::<Seq<char>, AccountView>::empty(),
            r.accounts_view().using() is None,
            r.addresses_view().aliases() == Map::<Seq<char>, Seq<Seq<char>>>::empty(),
            r.identifiers_view().aliases() == Map::<Seq<char>, Seq<Seq<char>>>::empty(),
            r.claims_view().claims() == Map::<Seq<char>, PendingClaimView>::empty(),
            r.server_view() is None,
    {
        proof {
            reveal_strlit("0x");
            assert(lower_text("0x"@) =~= "0x"@);
            assert("0x"@ =~= seq!['0', 'x']);
        }
        Config {
            name,
            file,
            networks: Networks::default(),
            accounts: Accounts::new(),
            addresses: HexMap::new("0x", 40),
            identifiers: HexMap::with_optional_prefix("0x", 64),
            submitted: ClaimLedger::new(),
            server: None,
            mode,
        }
    }

    /// Whether the current state can be kept. A configuration with a file is kept there by the
    /// caller; one without a file is kept only when the program runs several commands.
    pub fn save(&self) -> (r: Result<(), CliError>)
        ensures
            r == self.saved(),
    {
        match &self.file {
            Some(_) => Ok(()),
            None => match self.mode {
                CliMode::SingleCommand => Err(CliError::NoBackingStore),
                CliMode::MultiCommand => Ok(()),
            },
        }
    }

    /// The configuration's name.
    pub fn name(&self) -> (r: &String)
        ensures
            r@ == self.name_view(),
    {
        &self.name
    }

    /// The file the configuration is kept in, if any.
    pub fn file(&self) -> (r: Option<&String>)
        ensures
            match r {
                Some(f) => self.file_view() == Some(f@),
                None => self.file_view() is None,
            },
    {
        match &self.file {
            Some(f) => Some(f),
            None => None,
        }
    }

    /// How the program runs.
    pub fn mode(&self) -> (r: CliMode)
        ensures
            r == self.mode_view(),
    {
        self.mode
    }

    /// Changes how the program runs.
    pub fn set_mode(&mut self, mode: CliMode)
        requires
            old(self).well_formed(),
        ensures
            final(self).well_formed(),
            final(self).mode_view() == mode,
            final(self).name_view() == old(self).name_view(),
            final(self).file_view() == old(self).file_view(),
            final(self).networks_view() == old(self).networks_view(),
            final(self).accounts_view() == old(self).accounts_view(),
            final(self).addresses_view() == old(self).addresses_view(),
            final(self).identifiers_view() == old(self).identifiers_view(),
            final(self).claims_view() == old(self).claims_view(),
            final(self).server_view() == old(self).server_view(),
    {
        self.mode = mode;
    }

    /// The outcome of a change that succeeded: kept when the configuration persists.
    pub open spec fn saved(&self) -> Result<(), CliError> {
        if self.persists() {
            Ok(())
        } else {
            Err(CliError::NoBackingStore)
        }
    }

    /// The network named `name`, or the current one; see `Networks::get`.
    pub fn get_network(&mut self, name: Option<String>) -> (r: Result<Network, CliError>)
        requires
            old(self).well_formed(),
        ensures
            final(self).well_formed(),
            final(self).same_but_networks(old(self)),
            final(self).server_view() == old(self).server_view(),
            name is Some ==> *final(self) == *old(self),
            match r {
                Ok(v) => old(self).networks_view().chosen(opt_text(name)) == Some(v@),
                Err(e) => old(self).networks_view().chosen(opt_text(name)) is None && e
                    == CliError::NotFound,
            },
            match name {
                Some(n) => {
                    &&& final(self).networks_view().known() == old(self).networks_view().known()
                    &&& final(self).networks_view().current() == old(self).networks_view().current()
                    &&& if old(self).networks_view().known().contains_key(n@) {
                        r matches Ok(v) && v@ == old(self).networks_view().known()[n@]
                    } else {
                        r == Err::<Network, CliError>(CliError::NotFound)
                    }
                },
                None => {
                    let after = final(self).networks_view();
                    &&& after.known().contains_key(after.current())
                    &&& r matches Ok(v) && v@ == after.known()[after.current()]
                    &&& forall|k: Seq<char>| #[trigger]
                        old(self).networks_view().known().contains_key(k) ==> after.known().contains_key(k)
                            && after.known()[k] == old(self).networks_view().known()[k]
                },
            },
    {
        match self.networks.get(name) {
            Some(n) => Ok(n),
            None => Err(CliError::NotFound),
        }
    }

    /// Adds a network; see `Networks::add`.
    pub fn add_network(&mut self, name: &String, url: &Option<String>, port: &Option<u32>) -> (r: Result<
        Network,
        CliError,
    >)
        requires
            old(self).well_formed(),
        ensures
            final(self).well_formed(),
            final(self).same_but_networks(old(self)),
            final(self).server_view() == old(self).server_view(),
            final(self).networks_view().current() == old(self).networks_view().current(),
            if old(self).networks_view().known().contains_key(name@) {
                r == Err::<Network, CliError>(CliError::AlreadyExists)
                    && final(self).networks_view().known() == old(self).networks_view().known()
            } else {
                let v = NetworkView {
                    name: name@,
                    url: match url {
                        Some(u) => u@,
                        None => crate::networks::DEFAULT_NETWORK_URL@,
                    },
                    port: match port {
                        Some(p) => *p,
                        None => crate::networks::DEFAULT_NETWORK_PORT,
                    },
                };
                &&& final(self).networks_view().known() == old(self).networks_view().known().insert(name@, v)
                &&& if old(self).persists() {
                    r matches Ok(n) && n@ == v
                } else {
                    r == Err::<Network, CliError>(CliError::NoBackingStore)
                }
            },
    {
        let network = match self.networks.add(name.clone(), url.clone(), *port) {
            Ok(n) => n,
            Err(e) => return Err(e),
        };
        match self.save() {
            Ok(()) => Ok(network),
            Err(e) => Err(e),
        }
    }

    /// Every network with its name.
    pub fn list_networks(&self) -> (r: Vec<(&String, &Network)>)
        requires
            self.well_formed(),
        ensures
            forall|i: int|
                0 <= i < r@.len() ==> self.networks_view().known().contains_key(#[trigger] r@[i].0@)
                    && self.networks_view().known()[r@[i].0@] == r@[i].1@,
            forall|i: int, j: int| 0 <= i < j < r@.len() ==> #[trigger] r@[i].0@ != #[trigger] r@[j].0@,
            forall|k: Seq<char>| #[trigger]
                self.networks_view().known().contains_key(k) ==> exists|i: int|
                    0 <= i < r@.len() && #[trigger] r@[i].0@ == k,
    {
        self.networks.list()
    }

    /// Makes the network named `name` current.
    pub fn use_network(&mut self, name: String) -> (r: Result<(), CliError>)
        requires
            old(self).well_formed(),
        ensures
            final(self).well_formed(),
            final(self).same_but_networks(old(self)),
            final(self).server_view() == old(self).server_view(),
            final(self).networks_view().known() == old(self).networks_view().known(),
            if old(self).networks_view().known().contains_key(name@) {
                final(self).networks_view().current() == name@ && r == old(self).saved()
            } else {
                r == Err::<(), CliError>(CliError::NotFound) && final(self).networks_view().current()
                    == old(self).networks_view().current()
            },
    {
        match self.networks.set_using(name) {
            Ok(()) => self.save(),
            Err(e) => Err(e),
        }
    }

    /// The name of the current network.
    pub fn using_network(&self) -> (r: String)
        ensures
            r@ == self.networks_view().current(),
    {
        self.networks.get_using()
    }

    /// Changes the address or port of a network; see `Networks::update`.
    pub fn update_network(&mut self, name: &String, url: &Option<String>, port: &Option<u32>) -> (r:
        Result<(), CliError>)
        requires
            old(self).well_formed(),
        ensures
            final(self).well_formed(),
            final(self).same_but_networks(old(self)),
            final(self).server_view() == old(self).server_view(),
            final(self).networks_view().current() == old(self).networks_view().current(),
            if old(self).networks_view().known().contains_key(name@) {
                let was = old(self).networks_view().known()[name@];
                &&& r == old(self).saved()
                &&& final(self).networks_view().known() == old(self).networks_view().known().insert(
                    name@,
                    NetworkView {
                        name: name@,
                        url: match url {
                            Some(u) => u@,
                            None => was.url,
                        },
                        port: match port {
                            Some(p) => *p,
                            None => was.port,
                        },
                    },
                )
            } else {
                r == Err::<(), CliError>(CliError::NotFound) && final(self).networks_view().known()
                    == old(self).networks_view().known()
            },
    {
        match self.networks.update(name.clone(), url.clone(), *port) {
            Ok(()) => self.save(),
            Err(e) => Err(e),
        }
    }

    /// Forgets the network named `name`.
    pub fn remove_network(&mut self, name: &String) -> (r: Result<(), CliError>)
        requires
            old(self).well_formed(),
        ensures
            final(self).well_formed(),
            final(self).same_but_networks(old(self)),
            final(self).server_view() == old(self).server_view(),
            final(self).networks_view().current() == old(self).networks_view().current(),
            final(self).networks_view().known() == old(self).networks_view().known().remove(name@),
            if old(self).networks_view().known().contains_key(name@) {
                r == old(self).saved()
            } else {
                r == Err::<(), CliError>(CliError::NotFound)
            },
    {
        match self.networks.remove(name) {
            Ok(()) => self.save(),
            Err(e) => Err(e),
        }
    }

    /// Name, file, mode and server are as in `other`.
    pub open spec fn same_base(&self, other: &Config) -> bool {
        &&& self.name_view() == other.name_view()
        &&& self.file_view() == other.file_view()
        &&& self.mode_view() == other.mode_view()
        &&& self.server_view() == other.server_view()
    }

    /// Credentials for a private key or a fresh one; see `Accounts::generate_credentials`.
    pub fn generate_credentials(&self, private_key_opt: Option<String>) -> (r: Result<
        Credentials,
        CliError,
    >)
        requires
            self.well_formed(),
        ensures
            self.accounts_view().generated(private_key_opt, r),
    {
        self.accounts.generate_credentials(private_key_opt)
    }

    /// Registers and selects an account, and records its address under its name. The address
    /// must be `0x` and 40 hexadecimal digits; see `Accounts::create` for the other refusals.
    pub fn create_account(&mut self, name: String, credentials: Credentials, overwrite: bool) -> (r:
        Result<Account, CliError>)
        requires
            old(self).well_formed(),
        ensures
            final(self).well_formed(),
            final(self).same_base(old(self)),
            final(self).networks_view() == old(self).networks_view(),
            final(self).identifiers_view() == old(self).identifiers_view(),
            final(self).claims_view() == old(self).claims_view(),
            if !old(self).addresses_view().accepts(credentials.address@) || (!overwrite && old(
                self,
            ).accounts_view().accounts().contains_key(name@)) || old(
                self,
            ).accounts_view().key_taken(credentials.private_key@, Some(name@)) {
                &&& r == Err::<Account, CliError>(
                    if !old(self).addresses_view().accepts(credentials.address@) {
                        CliError::InvalidFormat
                    } else if !overwrite && old(self).accounts_view().accounts().contains_key(name@) {
                        CliError::AlreadyExists
                    } else {
                        CliError::DuplicateKey
                    },
                )
                &&& final(self).accounts_view().accounts() == old(self).accounts_view().accounts()
                &&& final(self).accounts_view().using() == old(self).accounts_view().using()
                &&& final(self).addresses_view() == old(self).addresses_view()
            } else {
                &&& final(self).accounts_view().accounts() == old(self).accounts_view().accounts().insert(
                    name@,
                    crate::accounts::account_for(name@, credentials),
                )
                &&& final(self).accounts_view().using() == Some(name@)
                &&& final(self).addresses_view().aliases() == old(self).addresses_view().aliases_with(
                    name@,
                    credentials.address@,
                )
                &&& if old(self).persists() {
                    r matches Ok(a) && a@ == crate::accounts::account_for(name@, credentials)
                } else {
                    r == Err::<Account, CliError>(CliError::NoBackingStore)
                }
            },
    {
        match self.addresses.check_hex_format(credentials.address.as_str()) {
            Ok(_) => {},
            Err(e) => return Err(e),
        }
        let address = credentials.address.clone();
        let account = match self.accounts.create(name.clone(), credentials, overwrite) {
            Ok(a) => a,
            Err(e) => return Err(e),
        };
        match self.addresses.add_id(name.as_str(), address) {
            Ok(()) => {},
            Err(e) => return Err(e),
        }
        match self.save() {
            Ok(()) => Ok(account),
            Err(e) => Err(e),
        }
    }

    /// The account named `name`, or the selected one; see `Accounts::get`.
    pub fn get_account(&self, name: Option<&str>) -> (r: Result<Account, CliError>)
        requires
            self.well_formed(),
        ensures
            match (
                match name {
                    Some(n) => Some(n@),
                    None => self.accounts_view().using(),
                }
            ) {
                None => r == Err::<Account, CliError>(CliError::NoDefaultAccount),
                Some(n) => if self.accounts_view().accounts().contains_key(n) {
                    r matches Ok(a) && a@ == self.accounts_view().accounts()[n]
                } else {
                    r == Err::<Account, CliError>(CliError::NotFound)
                },
            },
    {
        self.accounts.get(name)
    }

    /// Selects the account named `nm`.
    pub fn use_account(&mut self, nm: &str) -> (r: Result<(), CliError>)
        requires
            old(self).well_formed(),
        ensures
            final(self).well_formed(),
            final(self).same_base(old(self)),
            final(self).networks_view() == old(self).networks_view(),
            final(self).addresses_view() == old(self).addresses_view(),
            final(self).identifiers_view() == old(self).identifiers_view(),
            final(self).claims_view() == old(self).claims_view(),
            final(self).accounts_view().accounts() == old(self).accounts_view().accounts(),
            if old(self).accounts_view().accounts().contains_key(nm@) {
                final(self).accounts_view().using() == Some(nm@) && r == old(self).saved()
            } else {
                r == Err::<(), CliError>(CliError::NotFound) && final(self).accounts_view().using()
                    == old(self).accounts_view().using()
            },
    {
        match self.accounts.set_using(nm) {
            Ok(()) => self.save(),
            Err(e) => Err(e),
        }
    }

    /// Deletes the account named `name` and the addresses recorded under its name.
    pub fn remove_account(&mut self, name: &str) -> (r: Result<(), CliError>)
        requires
            old(self).well_formed(),
        ensures
            final(self).well_formed(),
            final(self).same_base(old(self)),
            final(self).networks_view() == old(self).networks_view(),
            final(self).identifiers_view() == old(self).identifiers_view(),
            final(self).claims_view() == old(self).claims_view(),
            if old(self).accounts_view().accounts().contains_key(name@) {
                &&& r == old(self).saved()
                &&& final(self).accounts_view().accounts() == old(self).accounts_view().accounts().remove(name@)
                &&& final(self).addresses_view().aliases() == old(self).addresses_view().aliases().remove(name@)
                &&& final(self).accounts_view().using() == if old(self).accounts_view().using() == Some(
                    name@,
                ) {
                    None
                } else {
                    old(self).accounts_view().using()
                }
            } else {
                &&& r == Err::<(), CliError>(CliError::NotFound)
                &&& final(self).accounts_view() == old(self).accounts_view()
                &&& final(self).addresses_view() == old(self).addresses_view()
            },
    {
        if self.accounts.get(Some(name)).is_err() {
            return Err(CliError::NotFound);
        }
        let _ = self.addresses.remove_id(name);
        match self.accounts.remove(name) {
            Ok(()) => {},
            Err(e) => return Err(e),
        }
        self.save()
    }

    /// Every account with its name.
    pub fn list_accounts(&self) -> (r: Vec<(&String, &Account)>)
        requires
            self.well_formed(),
        ensures
            forall|i: int|
                0 <= i < r@.len() ==> self.accounts_view().accounts().contains_key(#[trigger] r@[i].0@)
                    && self.accounts_view().accounts()[r@[i].0@] == r@[i].1@,
            forall|i: int, j: int| 0 <= i < j < r@.len() ==> #[trigger] r@[i].0@ != #[trigger] r@[j].0@,
            forall|k: Seq<char>| #[trigger]
                self.accounts_view().accounts().contains_key(k) ==> exists|i: int|
                    0 <= i < r@.len() && #[trigger] r@[i].0@ == k,
    {
        self.accounts.list()
    }

    /// Every name with the addresses recorded under it.
    pub fn list_addresses(&self) -> (r: Vec<(&String, &Vec<String>)>)
        requires
            self.well_formed(),
        ensures
            forall|i: int|
                0 <= i < r@.len() ==> self.addresses_view().aliases().contains_key(#[trigger] r@[i].0@)
                    && self.addresses_view().aliases()[r@[i].0@] == crate::alias::texts(r@[i].1@),
            forall|k: Seq<char>| #[trigger]
                self.addresses_view().aliases().contains_key(k) ==> exists|i: int|
                    0 <= i < r@.len() && #[trigger] r@[i].0@ == k,
    {
        self.addresses.list()
    }

    /// Every name with the identifiers recorded under it.
    pub fn list_identifiers(&self) -> (r: Vec<(&String, &Vec<String>)>)
        requires
            self.well_formed(),
        ensures
            forall|i: int|
                0 <= i < r@.len() ==> self.identifiers_view().aliases().contains_key(#[trigger] r@[i].0@)
                    && self.identifiers_view().aliases()[r@[i].0@] == crate::alias::texts(r@[i].1@),
            forall|k: Seq<char>| #[trigger]
                self.identifiers_view().aliases().contains_key(k) ==> exists|i: int|
                    0 <= i < r@.len() && #[trigger] r@[i].0@ == k,
    {
        self.identifiers.list()
    }

    /// Every pending claim once, with its label and identifier.
    pub fn list_claims(&self) -> (r: Vec<(&String, &String, &PendingClaim)>)
        requires
            self.well_formed(),
        ensures
            forall|i: int|
                0 <= i < r@.len() ==> {
                    let (l, id, c) = #[trigger] r@[i];
                    &&& self.claims_view().claims().contains_key(l@)
                    &&& self.claims_view().label_of(l@) == l@
                    &&& self.claims_view().id_of(l@) == id@
                    &&& self.claims_view().claims()[l@] == c@
                },
            forall|k: Seq<char>| #[trigger]
                self.claims_view().claims().contains_key(k) ==> exists|i: int|
                    0 <= i < r@.len() && #[trigger] r@[i].0@ == self.claims_view().label_of(k),
    {
        self.submitted.entries()
    }

    /// Records an address under `name`; it must be `0x` and 40 hexadecimal digits.
    pub fn add_address(&mut self, name: &str, address: String) -> (r: Result<(), CliError>)
        requires
            old(self).well_formed(),
        ensures
            final(self).well_formed(),
            final(self).same_base(old(self)),
            final(self).networks_view() == old(self).networks_view(),
            final(self).accounts_view() == old(self).accounts_view(),
            final(self).identifiers_view() == old(self).identifiers_view(),
            final(self).claims_view() == old(self).claims_view(),
            if old(self).addresses_view().accepts(address@) {
                &&& r == old(self).saved()
                &&& final(self).addresses_view().aliases() == old(self).addresses_view().aliases_with(
                    name@,
                    address@,
                )
            } else {
                &&& r == Err::<(), CliError>(CliError::InvalidFormat)
                &&& final(self).addresses_view().aliases() == old(self).addresses_view().aliases()
            },
    {
        match self.addresses.add_id(name, address) {
            Ok(()) => self.save(),
            Err(e) => Err(e),
        }
    }

    /// Records an identifier under `name`; it must be 64 hexadecimal digits, with or without
    /// `0x`.
    pub fn add_identifier(&mut self, name: &str, address: String) -> (r: Result<(), CliError>)
        requires
            old(self).well_formed(),
        ensures
            final(self).well_formed(),
            final(self).same_base(old(self)),
            final(self).networks_view() == old(self).networks_view(),
            final(self).accounts_view() == old(self).accounts_view(),
            final(self).addresses_view() == old(self).addresses_view(),
            final(self).claims_view() == old(self).claims_view(),
            if old(self).identifiers_view().accepts(address@) {
                &&& r == old(self).saved()
                &&& final(self).identifiers_view().aliases() == old(
                    self,
                ).identifiers_view().aliases_with(name@, address@)
            } else {
                &&& r == Err::<(), CliError>(CliError::InvalidFormat)
                &&& final(self).identifiers_view().aliases() == old(self).identifiers_view().aliases()
            },
    {
        match self.identifiers.add_id(name, address) {
            Ok(()) => self.save(),
            Err(e) => Err(e),
        }
    }

    /// The address that `name` stands for; see `HexMap::lookup_id`.
    pub fn lookup_address(&self, name: &str) -> (r: Result<String, CliError>)
        requires
            self.well_formed(),
        ensures
            match r {
                Ok(v) => self.addresses_view().resolve(name@) == Some(v@),
                Err(e) => self.addresses_view().resolve(name@) is None && self.addresses_view().lookup_error(name@, e),
            },
    {
        self.addresses.lookup_id(name)
    }

    /// The identifier that `name` stands for; see `HexMap::lookup_id`.
    pub fn lookup_identifier(&self, name: &str) -> (r: Result<String, CliError>)
        requires
            self.well_formed(),
        ensures
            match r {
                Ok(v) => self.identifiers_view().resolve(name@) == Some(v@),
                Err(e) => self.identifiers_view().resolve(name@) is None && self.identifiers_view().lookup_error(name@, e),
            },
    {
        self.identifiers.lookup_id(name)
    }

    /// Records a submitted claim under its label and `claim_id`; see `ClaimLedger::add`.
    pub fn add_claim(&mut self, submitted: PendingClaim, claim_id: String) -> (r: Result<(), CliError>)
        requires
            old(self).well_formed(),
        ensures
            final(self).well_formed(),
            final(self).same_base(old(self)),
            final(self).networks_view() == old(self).networks_view(),
            final(self).accounts_view() == old(self).accounts_view(),
            final(self).addresses_view() == old(self).addresses_view(),
            final(self).identifiers_view() == old(self).identifiers_view(),
            if old(self).claims_view().claims().contains_key(submitted.claim@) || old(
                self,
            ).claims_view().claims().contains_key(claim_id@) {
                r == Err::<(), CliError>(CliError::AlreadySubmitted) && final(self).claims_view().claims()
                    == old(self).claims_view().claims()
            } else {
                &&& r == old(self).saved()
                &&& final(self).claims_view().claims() == old(self).claims_view().claims().insert(
                    submitted.claim@,
                    submitted@,
                ).insert(claim_id@, submitted@)
                &&& final(self).claims_view().label_of(claim_id@) == submitted.claim@
                &&& final(self).claims_view().id_of(submitted.claim@) == claim_id@
            },
    {
        match self.submitted.add(submitted, claim_id) {
            Ok(()) => self.save(),
            Err(e) => Err(e),
        }
    }

    /// The pending claim under `claim`.
    pub fn get_claim(&self, claim: &str) -> (r: Result<&PendingClaim, CliError>)
        requires
            self.well_formed(),
        ensures
            if self.claims_view().claims().contains_key(claim@) {
                r matches Ok(c) && c@ == self.claims_view().claims()[claim@]
            } else {
                r == Err::<&PendingClaim, CliError>(CliError::NotSubmitted)
            },
    {
        self.submitted.get(claim)
    }

    /// Whether a claim is pending under `claim`.
    pub fn has_claim(&self, claim: &str) -> (r: bool)
        requires
            self.well_formed(),
        ensures
            r == self.claims_view().claims().contains_key(claim@),
    {
        self.submitted.has(claim)
    }

    /// Stops tracking the claim under `claim`, under both of its keys.
    pub fn remove_claim(&mut self, claim: &str) -> (r: Result<(), CliError>)
        requires
            old(self).well_formed(),
        ensures
            final(self).well_formed(),
            final(self).same_base(old(self)),
            final(self).networks_view() == old(self).networks_view(),
            final(self).accounts_view() == old(self).accounts_view(),
            final(self).addresses_view() == old(self).addresses_view(),
            final(self).identifiers_view() == old(self).identifiers_view(),
            if old(self).claims_view().claims().contains_key(claim@) {
                &&& r == old(self).saved()
                &&& final(self).claims_view().claims() == old(self).claims_view().claims().remove(
                    old(self).claims_view().label_of(claim@),
                ).remove(old(self).claims_view().id_of(claim@))
            } else {
                r == Err::<(), CliError>(CliError::NotPresent) && final(self).claims_view().claims()
                    == old(self).claims_view().claims()
            },
    {
        match self.submitted.remove(claim) {
            Ok(()) => self.save(),
            Err(e) => Err(e),
        }
    }

    /// Checks an address and gives its canonical form.
    pub fn make_valid_address(&self, address: &str) -> (r: Result<String, CliError>)
        ensures
            match r {
                Ok(v) => self.addresses_view().accepts(address@) && v@ == lower_text(address@),
                Err(e) => !self.addresses_view().accepts(address@) && e == CliError::InvalidFormat,
            },
    {
        self.addresses.check_hex_format(address)
    }

    /// Checks an identifier and gives its canonical form.
    pub fn make_valid_identifier(&self, identifier: &str) -> (r: Result<String, CliError>)
        ensures
            match r {
                Ok(v) => self.identifiers_view().accepts(identifier@) && v@ == lower_text(identifier@),
                Err(e) => !self.identifiers_view().accepts(identifier@) && e == CliError::InvalidFormat,
            },
    {
        self.identifiers.check_hex_format(identifier)
    }

    /// The locally started server, if any.
    pub fn get_server(&self) -> (r: Option<RpcServerLocal>)
        ensures
            match r {
                Some(s) => self.server_view() matches Some(t) && s.started == t.started
                    && s.command@ == t.command@ && s.db_dir@ == t.db_dir@,
                None => self.server_view() is None,
            },
    {
        match &self.server {
            Some(s) => Some(s.clone()),
            None => None,
        }
    }

    /// Records the locally started server.
    pub fn set_server(&mut self, server: Option<RpcServerLocal>) -> (r: Result<(), CliError>)
        requires
            old(self).well_formed(),
        ensures
            final(self).well_formed(),
            final(self).server_view() == server,
            final(self).name_view() == old(self).name_view(),
            final(self).file_view() == old(self).file_view(),
            final(self).mode_view() == old(self).mode_view(),
            final(self).networks_view() == old(self).networks_view(),
            final(self).accounts_view() == old(self).accounts_view(),
            final(self).addresses_view() == old(self).addresses_view(),
            final(self).identifiers_view() == old(self).identifiers_view(),
            final(self).claims_view() == old(self).claims_view(),
            r == old(self).saved(),
    {
        self.server = server;
        self.save()
    }
}

/// Once an account is created with credentials loaded from a key, loading that key again,
/// written with or without `0x` or in another case, is refused as a duplicate.
pub proof fn lemma_loaded_key_refused_again(
    before: Config,
    after: Config,
    name: Seq<char>,
    key: String,
    credentials: Credentials,
    again: String,
    r: Result<Credentials, CliError>,
)
    requires
        before.accounts_view().generated(Some(key), Ok(credentials)),
        after.accounts_view().accounts() == before.accounts_view().accounts().insert(
            name,
            crate::accounts::account_for(name, credentials),
        ),
        crate::accounts::raw_key(again@) == crate::accounts::raw_key(key@),
        after.accounts_view().generated(Some(again), r),
    ensures
        r == Err::<Credentials, CliError>(CliError::DuplicateKey),
{
    let k = crate::accounts::raw_key(key@)->Some_0;
    assert(after.accounts_view().accounts()[name].private_key == k);
    assert(after.accounts_view().key_taken(k, None));
}

} // verus!
