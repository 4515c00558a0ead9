//! The commands of the program, as plain values.

use vstd::prelude::*;

verus! {

/// A command and its arguments.
pub enum Commands {
    /// Submits a claim for verification.
    ClaimSubmit { network: Option<String>, claim: String, claim_type: String, proof: String, expires: Option<u64>, lifetime: Option<u64>, fee: String },
    /// Settles a submitted claim.
    ClaimSettle { network: Option<String>, claim: String, address: Option<String> },
    /// Lists the claims submitted to an address since a time.
    ClaimSubmitted { network: Option<String>, address: Option<String>, since: Option<u64>, within: Option<u64> },
    /// Lists the claims settled for an address since a time.
    ClaimSettled { network: Option<String>, address: Option<String>, since: Option<u64>, within: Option<u64> },
    /// Fetches a settled claim by its identifier.
    ClaimGet { network: Option<String>, id: String },
    /// Pays an amount to an address.
    Pay { network: Option<String>, to: String, amount: String },
    /// Creates an account with a fresh key.
    AccountCreate { name: String, overwrite: bool },
    /// Creates an account from a private key or a key file.
    AccountLoad { name: String, private_key: Option<String>, overwrite: bool },
    /// Shows or writes an account's private key.
    AccountExport { name: String, file: String },
    /// Fetches an account.
    AccountGet { network: Option<String>, account: Option<String> },
    /// Fetches an account's balance.
    AccountBalance { network: Option<String>, account: Option<String> },
    /// Fetches an account's state.
    AccountStateGet { network: Option<String>, account: Option<String> },
    /// Sets an account's state.
    AccountStateSet { network: Option<String>, account: Option<String>, state: String },
    /// Selects an account.
    AccountUse { name: String },
    /// Shows the selected account.
    AccountCurrent { json: bool, table: bool },
    /// Lists the accounts.
    AccountList { json: bool, table: bool },
    /// Deletes an account.
    AccountRemove { name: String },
    /// Fetches an account's balance of an asset.
    AssetBalance { network: Option<String>, asset: String, account: Option<String> },
    /// Fetches an account's balances of all assets.
    AssetBalances { network: Option<String>, account: Option<String> },
    /// Creates an asset.
    AssetCreate { network: Option<String>, symbol: String, decimals: String, supply: String },
    /// Transfers an amount of an asset.
    AssetTransfer { network: Option<String>, asset: String, to: String, amount: String },
    /// Fetches an asset.
    AssetGet { network: Option<String>, asset: String },
    /// Asks whether the service is up.
    HealthCheck { network: Option<String> },
    /// Adds a network.
    NetworkAdd { name: String, url: Option<String>, port: Option<u32> },
    /// Lists the networks.
    NetworkList { json: bool, table: bool },
    /// Makes a network current.
    NetworkUse { name: String },
    /// Shows the current network.
    NetworkCurrent { json: bool, table: bool },
    /// Changes a network's address or port.
    NetworkUpdate { name: String, url: Option<String>, port: Option<u32> },
    /// Forgets a network.
    NetworkRemove { name: String },
    /// Prepares and starts a local server.
    ServerInit { db: String, init: Option<String>, force: bool },
    /// Starts the local server.
    ServerStart {},
    /// Shows the local server's log.
    ServerDump { lines: u32, all: bool },
    /// Stops the local server.
    ServerStop {},
    /// Runs an interactive session.
    Repl { print_commands: bool, tmp_config: bool },
    /// Creates a configuration.
    ConfigCreate { name: String, copy: String, file: String, overwrite: bool },
    /// Makes a configuration current.
    ConfigUse { name: String },
    /// Shows the current configuration.
    ConfigCurrent {},
    /// Lists the configurations.
    ConfigList { json: bool, table: bool },
    /// Removes a configuration.
    ConfigRemove { name: String },
}

/// A parsed command line.
pub struct Cli {
    pub command: Commands,
}

} // verus!
