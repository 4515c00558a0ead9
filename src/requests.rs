//! The decisions around each request to the remote service: the checks made before it is
//! sent, the message that is signed, and what its answer changes.

use vstd::prelude::*;

use crate::accounts::{Account, AccountView};
use crate::claims::PendingClaim;
use crate::config::{opt_text, Config};
use crate::error::CliError;
use crate::networks::{Network, NetworkView};
use crate::numbers::{decimal, digits_text, hex_amount, parse_amount, parse_digits, to_hex};
use crate::text::owned;

verus! {

/// An answer of the remote service, decoded by shape.
pub enum Reply {
    /// A string.
    Text(String),
    /// A number that fits in 64 bits.
    Number(u64),
    /// An object, with its `asset_id` field where that is a string.
    Record { asset_id: Option<String> },
    /// Anything else.
    Other,
}

/// The nonce in an answer to a nonce query.
pub fn nonce_from_reply(reply: &Reply) -> (r: Result<u64, CliError>)
    ensures
        match reply {
            Reply::Number(n) => r == Ok::<u64, CliError>(*n),
            _ => r == Err::<u64, CliError>(CliError::UnexpectedResponseShape),
        },
{
    match reply {
        Reply::Number(n) => Ok(*n),
        _ => Err(CliError::UnexpectedResponseShape),
    }
}

/// Whether the answer to a health query says the service is up: the string `ok`.
pub fn is_healthy(reply: &Result<Reply, CliError>) -> (r: bool)
    ensures
        r == (reply matches Ok(Reply::Text(s)) && s@ == seq!['o', 'k']),
{
    proof {
        reveal_strlit("ok");
    }
    match reply {
        Ok(Reply::Text(s)) => {
            let r = crate::text::same_text(s.as_str(), "ok");
            assert("ok"@ =~= seq!['o', 'k']);
            r
        },
        _ => false,
    }
}

/// The expiry time of a claim: given outright, which must be after `now`, or as a lifetime
/// from `now` (at most the largest time); exactly one of the two.
pub open spec fn expiry_of(expires: Option<u64>, lifetime: Option<u64>, now: u64) -> Result<
    u64,
    CliError,
> {
    match (expires, lifetime) {
        (Some(_), Some(_)) => Err(CliError::AmbiguousExpiry),
        (None, None) => Err(CliError::MissingExpiry),
        (Some(e), None) => if e <= now {
            Err(CliError::ExpiredAtSubmission)
        } else {
            Ok(e)
        },
        (None, Some(l)) => Ok(if now + l > u64::MAX {
            u64::MAX
        } else {
            (now + l) as u64
        }),
    }
}

/// Computes the expiry time of a claim; see `expiry_of`.
pub fn claim_expiry(expires: Option<u64>, lifetime: Option<u64>, now: u64) -> (r: Result<
    u64,
    CliError,
>)
    ensures
        r == expiry_of(expires, lifetime, now),
{
    match (expires, lifetime) {
        (Some(_), Some(_)) => Err(CliError::AmbiguousExpiry),
        (None, None) => Err(CliError::MissingExpiry),
        (Some(e), None) => if e <= now {
            Err(CliError::ExpiredAtSubmission)
        } else {
            Ok(e)
        },
        (None, Some(l)) => Ok(now.saturating_add(l)),
    }
}

/// The start of a query window: given outright, which must not be after `now`, or as a span
/// before `now` (at least zero); exactly one of the two.
pub open spec fn since_of(since: Option<u64>, within: Option<u64>, now: u64) -> Result<
    u64,
    CliError,
> {
    match (since, within) {
        (Some(_), Some(_)) => Err(CliError::AmbiguousSince),
        (None, None) => Err(CliError::MissingSince),
        (Some(s), None) => if s > now {
            Err(CliError::SinceInFuture)
        } else {
            Ok(s)
        },
        (None, Some(w)) => Ok(if now < w {
            0
        } else {
            (now - w) as u64
        }),
    }
}

/// Computes the start of a query window; see `since_of`.
pub fn query_since(since: Option<u64>, within: Option<u64>, now: u64) -> (r: Result<u64, CliError>)
    ensures
        r == since_of(since, within, now),
{
    match (since, within) {
        (Some(_), Some(_)) => Err(CliError::AmbiguousSince),
        (None, None) => Err(CliError::MissingSince),
        (Some(s), None) => if s > now {
            Err(CliError::SinceInFuture)
        } else {
            Ok(s)
        },
        (None, Some(w)) => Ok(now.saturating_sub(w)),
    }
}

/// The account and network a request is sent with.
pub struct Sender {
    pub account: Account,
    pub network: Network,
}

/// The selected account and the chosen network, or the first reason there are none.
pub open spec fn sender_of(config: Config, network: Option<Seq<char>>) -> Result<
    (AccountView, NetworkView),
    CliError,
> {
    match config.selected_account() {
        Err(e) => Err(e),
        Ok(a) => match config.networks_view().chosen(network) {
            None => Err(CliError::NotFound),
            Some(n) => Ok((a, n)),
        },
    }
}

/// Finds the selected account and the network named `network`, or the current one.
pub fn sender(config: &mut Config, network: Option<String>) -> (r: Result<Sender, CliError>)
    requires
        old(config).well_formed(),
    ensures
        final(config).well_formed(),
        final(config).same_but_networks(old(config)),
        final(config).server_view() == old(config).server_view(),
        network is Some || old(config).selected_account() is Err ==> *final(config) == *old(config),
        match r {
            Ok(s) => sender_of(*old(config), opt_text(network)) == Ok::<
                (AccountView, NetworkView),
                CliError,
            >((s.account@, s.network@)),
            Err(e) => sender_of(*old(config), opt_text(network)) == Err::<
                (AccountView, NetworkView),
                CliError,
            >(e),
        },
{
    let account = match config.get_account(None) {
        Ok(a) => a,
        Err(e) => return Err(e),
    };
    let network = match config.get_network(network) {
        Ok(n) => n,
        Err(e) => return Err(e),
    };
    Ok(Sender { account, network })
}

/// A claim ready to be given its nonce.
pub struct ClaimSubmission {
    pub sender: Sender,
    pub expires: u64,
    pub fee: String,
}

/// What a claim submission is checked for, in order: the label is not pending, the expiry,
/// the sender, and the fee.
pub open spec fn claim_submission_of(
    config: Config,
    network: Option<Seq<char>>,
    claim: Seq<char>,
    expires: Option<u64>,
    lifetime: Option<u64>,
    fee: Seq<char>,
    now: u64,
) -> Result<(AccountView, NetworkView, u64, nat), CliError> {
    if config.claims_view().claims().contains_key(claim) {
        Err(CliError::AlreadySubmitted)
    } else {
        match expiry_of(expires, lifetime, now) {
            Err(e) => Err(e),
            Ok(x) => match sender_of(config, network) {
                Err(e) => Err(e),
                Ok((a, n)) => match parse_amount(fee) {
                    None => Err(CliError::InvalidNumber),
                    Some(f) => Ok((a, n, x, f)),
                },
            },
        }
    }
}

/// A claim whose label is not pending is refused as ambiguous when both an expiry time and a
/// lifetime are given, and as missing its expiry when neither is.
pub proof fn lemma_expiry_required(
    config: Config,
    network: Option<Seq<char>>,
    claim: Seq<char>,
    expires: Option<u64>,
    lifetime: Option<u64>,
    fee: Seq<char>,
    now: u64,
)
    requires
        !config.claims_view().claims().contains_key(claim),
    ensures
        expires is Some && lifetime is Some ==> claim_submission_of(
            config,
            network,
            claim,
            expires,
            lifetime,
            fee,
            now,
        ) == Err::<(AccountView, NetworkView, u64, nat), CliError>(CliError::AmbiguousExpiry),
        expires is None && lifetime is None ==> claim_submission_of(
            config,
            network,
            claim,
            expires,
            lifetime,
            fee,
            now,
        ) == Err::<(AccountView, NetworkView, u64, nat), CliError>(CliError::MissingExpiry),
{
}

/// Checks a claim submission before its nonce is fetched; see `claim_submission_of`.
pub fn prepare_claim_submit(
    config: &mut Config,
    network: Option<String>,
    claim: &str,
    expires: Option<u64>,
    lifetime: Option<u64>,
    fee: &str,
    now: u64,
) -> (r: Result<ClaimSubmission, CliError>)
    requires
        old(config).well_formed(),
    ensures
        final(config).well_formed(),
        final(config).same_but_networks(old(config)),
        final(config).server_view() == old(config).server_view(),
        network is Some || old(config).claims_view().claims().contains_key(claim@) || expiry_of(
            expires,
            lifetime,
            now,
        ) is Err || old(config).selected_account() is Err ==> *final(config) == *old(config),
        match claim_submission_of(*old(config), opt_text(network), claim@, expires, lifetime, fee@, now) {
            Ok((a, n, x, f)) => r matches Ok(s) && s.sender.account@ == a && s.sender.network@ == n
                && s.expires == x && s.fee@ == hex_amount(f),
            Err(e) => r == Err::<ClaimSubmission, CliError>(e),
        },
{
    if config.has_claim(claim) {
        return Err(CliError::AlreadySubmitted);
    }
    let expires = match claim_expiry(expires, lifetime, now) {
        Ok(x) => x,
        Err(e) => return Err(e),
    };
    let sender = match sender(config, network) {
        Ok(s) => s,
        Err(e) => return Err(e),
    };
    let fee = match to_hex(fee) {
        Ok(f) => f,
        Err(e) => return Err(e),
    };
    Ok(ClaimSubmission { sender, expires, fee })
}

impl ClaimSubmission {
    /// The claim to be signed and sent, with the sender's nonce.
    pub fn record(&self, claim: &str, claim_type: &str, proof: &str, nonce: u64) -> (r: PendingClaim)
        ensures
            r.claim@ == claim@,
            r.claim_type@ == claim_type@,
            r.proof@ == proof@,
            r.nonce@ == digits_text(nonce as nat, 10),
            r@.to == self.sender.account@.signatures,
            r.quorum == self.sender.account.quorum,
            r.from@ == self.sender.account.credentials.address@,
            r.expires == self.expires,
            r.fee@ == self.fee@,
    {
        let to = self.sender.account.signatures.clone();
        assert(to@ =~= self.sender.account.signatures@);
        PendingClaim {
            claim: owned(claim),
            claim_type: owned(claim_type),
            proof: owned(proof),
            nonce: decimal(nonce),
            to,
            quorum: self.sender.account.quorum,
            from: self.sender.account.credentials.address.clone(),
            expires: self.expires,
            fee: self.fee.clone(),
        }
    }
}

/// Records a submitted claim from the answer of the service: a string is the claim's
/// identifier, under which the claim is kept beside its label and which becomes an alias of
/// the label.
pub fn finish_claim_submit(config: &mut Config, record: PendingClaim, reply: Reply) -> (r: Result<
    String,
    CliError,
>)
    requires
        old(config).well_formed(),
    ensures
        final(config).well_formed(),
        final(config).same_base(old(config)),
        final(config).networks_view() == old(config).networks_view(),
        final(config).accounts_view() == old(config).accounts_view(),
        final(config).addresses_view() == old(config).addresses_view(),
        match reply {
            Reply::Text(id) => {
                let c = old(config).claims_view().claims();
                if c.contains_key(record.claim@) || c.contains_key(id@) {
                    r == Err::<String, CliError>(CliError::AlreadySubmitted)
                } else {
                    &&& final(config).claims_view().claims() == c.insert(record.claim@, record@).insert(
                        id@,
                        record@,
                    )
                    &&& (r is Ok ==> final(config).identifiers_view().aliases() == old(
                        config,
                    ).identifiers_view().aliases_with(record.claim@, id@))
                    &&& (r matches Ok(v) ==> v@ == id@)
                    &&& (r is Ok <==> old(config).persists() && old(config).identifiers_view().accepts(id@))
                }
            },
            _ => r == Err::<String, CliError>(CliError::UnexpectedResponseShape) && *final(config)
                == *old(config),
        },
{
    match reply {
        Reply::Text(id) => {
            let label = record.claim.clone();
            match config.add_claim(record, id.clone()) {
                Ok(()) => {},
                Err(e) => return Err(e),
            }
            match config.add_identifier(label.as_str(), id.clone()) {
                Ok(()) => Ok(id),
                Err(e) => Err(e),
            }
        },
        _ => Err(CliError::UnexpectedResponseShape),
    }
}

/// A settlement ready to be given its nonce and the identifier of the claim it settles.
pub struct ClaimSettlement {
    pub sender: Sender,
    /// The address the claim is settled for.
    pub address: String,
    /// The claim as it was submitted.
    pub submitted: PendingClaim,
}

/// The message that settles a claim.
pub struct SettleClaimMessage {
    pub from: String,
    pub nonce: String,
    pub target_claim_id: String,
}

/// Checks a settlement before its nonce is fetched: the sender, the address (an alias or an
/// address; the sender's own when none is given), and the pending claim.
pub fn prepare_claim_settle(
    config: &mut Config,
    network: Option<String>,
    claim: &str,
    address: Option<&str>,
) -> (r: Result<ClaimSettlement, CliError>)
    requires
        old(config).well_formed(),
    ensures
        final(config).well_formed(),
        final(config).same_but_networks(old(config)),
        final(config).server_view() == old(config).server_view(),
        network is Some || old(config).selected_account() is Err ==> *final(config) == *old(config),
        match old(config).selected_account() {
            Err(e) => r == Err::<ClaimSettlement, CliError>(e),
            Ok(acc) => match address {
                Some(a) if old(config).addresses_view().resolve(a@) is None => r matches Err(e)
                    && old(config).addresses_view().lookup_error(a@, e),
                _ => match old(config).networks_view().chosen(opt_text(network)) {
                    None => r == Err::<ClaimSettlement, CliError>(CliError::NotFound),
                    Some(n) => if !old(config).claims_view().claims().contains_key(claim@) {
                        r == Err::<ClaimSettlement, CliError>(CliError::NotSubmitted)
                    } else {
                        &&& r matches Ok(s)
                        &&& s.sender.account@ == acc
                        &&& s.sender.network@ == n
                        &&& s.address@ == match address {
                            Some(a) => old(config).addresses_view().resolve(a@)->Some_0,
                            None => acc.address,
                        }
                        &&& s.submitted@ == old(config).claims_view().claims()[claim@]
                    },
                },
            },
        },
{
    let account = match config.get_account(None) {
        Ok(a) => a,
        Err(e) => return Err(e),
    };
    let address = match address {
        Some(a) => match config.lookup_address(a) {
            Ok(v) => v,
            Err(e) => return Err(e),
        },
        None => account.credentials.address.clone(),
    };
    let network = match config.get_network(network) {
        Ok(n) => n,
        Err(e) => return Err(e),
    };
    let submitted = match config.get_claim(claim) {
        Ok(c) => c.clone(),
        Err(e) => return Err(e),
    };
    Ok(ClaimSettlement { sender: Sender { account, network }, address, submitted })
}

impl ClaimSettlement {
    /// The settlement message, with the settler's nonce and the identifier of the claim.
    pub fn message(&self, nonce: u64, target_claim_id: String) -> (r: SettleClaimMessage)
        ensures
            r.from@ == self.address@,
            r.nonce@ == digits_text(nonce as nat, 10),
            r.target_claim_id@ == target_claim_id@,
    {
        SettleClaimMessage { from: self.address.clone(), nonce: decimal(nonce), target_claim_id }
    }
}

/// Applies the answer to a settlement: a string is the settled claim's identifier; the claim
/// stops being pending and its label becomes an alias of that identifier.
pub fn finish_claim_settle(config: &mut Config, claim: &str, reply: Reply) -> (r: Result<
    String,
    CliError,
>)
    requires
        old(config).well_formed(),
    ensures
        final(config).well_formed(),
        final(config).same_base(old(config)),
        final(config).networks_view() == old(config).networks_view(),
        final(config).accounts_view() == old(config).accounts_view(),
        final(config).addresses_view() == old(config).addresses_view(),
        match reply {
            Reply::Text(id) => {
                let c = old(config).claims_view();
                if !c.claims().contains_key(claim@) {
                    r == Err::<String, CliError>(CliError::NotPresent)
                } else {
                    &&& final(config).claims_view().claims() == c.claims().remove(c.label_of(claim@)).remove(
                        c.id_of(claim@),
                    )
                    &&& !final(config).claims_view().claims().contains_key(claim@)
                    &&& (r is Ok ==> final(config).identifiers_view().aliases() == old(
                        config,
                    ).identifiers_view().aliases_with(claim@, id@))
                    &&& (r matches Ok(v) ==> v@ == id@)
                    &&& (r is Ok <==> old(config).persists() && old(config).identifiers_view().accepts(id@))
                }
            },
            _ => r == Err::<String, CliError>(CliError::UnexpectedResponseShape) && *final(config)
                == *old(config),
        },
{
    match reply {
        Reply::Text(id) => {
            match config.remove_claim(claim) {
                Ok(()) => {},
                Err(e) => return Err(e),
            }
            match config.add_identifier(claim, id.clone()) {
                Ok(()) => Ok(id),
                Err(e) => Err(e),
            }
        },
        _ => Err(CliError::UnexpectedResponseShape),
    }
}

/// The message that pays an amount.
pub struct PayMessage {
    pub from: String,
    pub to: String,
    pub amount: String,
    pub nonce: String,
}

/// A payment ready to be given its nonce.
pub struct Payment {
    pub sender: Sender,
    pub to: String,
    pub amount: String,
}

/// Checks a payment before its nonce is fetched: the sender, the receiver (an alias or an
/// address) and the amount.
pub fn prepare_payment(config: &mut Config, network: Option<String>, to: &str, amount: &str) -> (r:
    Result<Payment, CliError>)
    requires
        old(config).well_formed(),
    ensures
        final(config).well_formed(),
        final(config).same_but_networks(old(config)),
        final(config).server_view() == old(config).server_view(),
        network is Some || old(config).selected_account() is Err ==> *final(config) == *old(config),
        match sender_of(*old(config), opt_text(network)) {
            Err(e) => r == Err::<Payment, CliError>(e),
            Ok((a, n)) => match old(config).addresses_view().resolve(to@) {
                None => r matches Err(e) && old(config).addresses_view().lookup_error(to@, e),
                Some(t) => match parse_amount(amount@) {
                    None => r == Err::<Payment, CliError>(CliError::InvalidNumber),
                    Some(v) => r matches Ok(p) && p.sender.account@ == a && p.sender.network@ == n
                        && p.to@ == t && p.amount@ == hex_amount(v),
                },
            },
        },
{
    let sender = match sender(config, network) {
        Ok(s) => s,
        Err(e) => return Err(e),
    };
    let to = match config.lookup_address(to) {
        Ok(t) => t,
        Err(e) => return Err(e),
    };
    let amount = match to_hex(amount) {
        Ok(v) => v,
        Err(e) => return Err(e),
    };
    Ok(Payment { sender, to, amount })
}

impl Payment {
    /// The payment message, with the payer's nonce.
    pub fn message(&self, nonce: u64) -> (r: PayMessage)
        ensures
            r.from@ == self.sender.account.credentials.address@,
            r.to@ == self.to@,
            r.amount@ == self.amount@,
            r.nonce@ == digits_text(nonce as nat, 10),
    {
        PayMessage {
            from: self.sender.account.credentials.address.clone(),
            to: self.to.clone(),
            amount: self.amount.clone(),
            nonce: decimal(nonce),
        }
    }
}

/// The identifier in the answer to a request that creates or changes something: a string.
pub fn reply_id(reply: Reply) -> (r: Result<String, CliError>)
    ensures
        match reply {
            Reply::Text(id) => r == Ok::<String, CliError>(id),
            _ => r == Err::<String, CliError>(CliError::UnexpectedResponseShape),
        },
{
    match reply {
        Reply::Text(id) => Ok(id),
        _ => Err(CliError::UnexpectedResponseShape),
    }
}

/// The message that creates an asset.
pub struct CreateAssetMessage {
    pub account_id: String,
    pub nonce: String,
    pub ticker_symbol: String,
    pub decimals: u8,
    pub total_supply: String,
}

/// An asset creation ready to be given its nonce.
pub struct AssetCreation {
    pub sender: Sender,
    pub decimals: u8,
    pub supply: String,
}

/// Checks an asset creation before its nonce is fetched: the sender, the number of decimals
/// (a decimal number below 256) and the supply.
pub fn prepare_asset_create(config: &mut Config, network: Option<String>, decimals: &str, supply: &str) -> (r:
    Result<AssetCreation, CliError>)
    requires
        old(config).well_formed(),
    ensures
        final(config).well_formed(),
        final(config).same_but_networks(old(config)),
        final(config).server_view() == old(config).server_view(),
        network is Some || old(config).selected_account() is Err ==> *final(config) == *old(config),
        match sender_of(*old(config), opt_text(network)) {
            Err(e) => r == Err::<AssetCreation, CliError>(e),
            Ok((a, n)) => match parse_digits(decimals@, 10) {
                Some(d) if d < 256 => match parse_amount(supply@) {
                    None => r == Err::<AssetCreation, CliError>(CliError::InvalidNumber),
                    Some(v) => r matches Ok(c) && c.sender.account@ == a && c.sender.network@ == n
                        && c.decimals == d && c.supply@ == hex_amount(v),
                },
                _ => r == Err::<AssetCreation, CliError>(CliError::InvalidNumber),
            },
        },
{
    let sender = match sender(config, network) {
        Ok(s) => s,
        Err(e) => return Err(e),
    };
    let decimals = match crate::numbers::parse_decimal(decimals) {
        Some(d) if d < 256 => d as u8,
        _ => return Err(CliError::InvalidNumber),
    };
    let supply = match to_hex(supply) {
        Ok(v) => v,
        Err(e) => return Err(e),
    };
    Ok(AssetCreation { sender, decimals, supply })
}

impl AssetCreation {
    /// The creation message, with the creator's nonce.
    pub fn message(&self, symbol: &str, nonce: u64) -> (r: CreateAssetMessage)
        ensures
            r.account_id@ == self.sender.account.credentials.address@,
            r.nonce@ == digits_text(nonce as nat, 10),
            r.ticker_symbol@ == symbol@,
            r.decimals == self.decimals,
            r.total_supply@ == self.supply@,
    {
        CreateAssetMessage {
            account_id: self.sender.account.credentials.address.clone(),
            nonce: decimal(nonce),
            ticker_symbol: owned(symbol),
            decimals: self.decimals,
            total_supply: self.supply.clone(),
        }
    }
}

/// Applies the answer to an asset creation: an object with a string `asset_id`, or a bare
/// string, is the asset's identifier, which becomes an alias of the ticker symbol.
pub fn finish_asset_create(config: &mut Config, symbol: &str, reply: Reply) -> (r: Result<
    String,
    CliError,
>)
    requires
        old(config).well_formed(),
    ensures
        final(config).well_formed(),
        final(config).same_base(old(config)),
        final(config).networks_view() == old(config).networks_view(),
        final(config).accounts_view() == old(config).accounts_view(),
        final(config).addresses_view() == old(config).addresses_view(),
        final(config).claims_view() == old(config).claims_view(),
        match reply {
            Reply::Record { asset_id: Some(id) } | Reply::Text(id) => {
                &&& (r is Ok <==> old(config).persists() && old(config).identifiers_view().accepts(id@))
                &&& (r matches Ok(v) ==> v@ == id@ && final(config).identifiers_view().aliases() == old(
                    config,
                ).identifiers_view().aliases_with(symbol@, id@))
            },
            _ => r == Err::<String, CliError>(CliError::UnexpectedResponseShape) && *final(config)
                == *old(config),
        },
{
    let id = match reply {
        Reply::Record { asset_id: Some(id) } => id,
        Reply::Text(id) => id,
        _ => return Err(CliError::UnexpectedResponseShape),
    };
    match config.add_identifier(symbol, id.clone()) {
        Ok(()) => Ok(id),
        Err(e) => Err(e),
    }
}

/// The message that transfers an amount of an asset.
pub struct TransferAssetMessage {
    pub asset_id: String,
    pub from: String,
    pub to: String,
    pub amount: String,
    pub nonce: String,
}

/// An asset transfer ready to be given its nonce.
pub struct AssetTransfer {
    pub sender: Sender,
    pub asset_id: String,
    pub to: String,
    pub amount: String,
}

/// Checks an asset transfer before its nonce is fetched: the sender, the asset (an alias or an
/// identifier), the receiver (an alias or an address) and the amount.
pub fn prepare_asset_transfer(
    config: &mut Config,
    network: Option<String>,
    asset: &str,
    to: &str,
    amount: &str,
) -> (r: Result<AssetTransfer, CliError>)
    requires
        old(config).well_formed(),
    ensures
        final(config).well_formed(),
        final(config).same_but_networks(old(config)),
        final(config).server_view() == old(config).server_view(),
        network is Some || old(config).selected_account() is Err ==> *final(config) == *old(config),
        match sender_of(*old(config), opt_text(network)) {
            Err(e) => r == Err::<AssetTransfer, CliError>(e),
            Ok((a, n)) => match old(config).identifiers_view().resolve(asset@) {
                None => r matches Err(e) && old(config).identifiers_view().lookup_error(asset@, e),
                Some(x) => match old(config).addresses_view().resolve(to@) {
                    None => r matches Err(e) && old(config).addresses_view().lookup_error(to@, e),
                    Some(t) => match parse_amount(amount@) {
                        None => r == Err::<AssetTransfer, CliError>(CliError::InvalidNumber),
                        Some(v) => r matches Ok(p) && p.sender.account@ == a && p.sender.network@
                            == n && p.asset_id@ == x && p.to@ == t && p.amount@ == hex_amount(v),
                    },
                },
            },
        },
{
    let sender = match sender(config, network) {
        Ok(s) => s,
        Err(e) => return Err(e),
    };
    let asset_id = match config.lookup_identifier(asset) {
        Ok(x) => x,
        Err(e) => return Err(e),
    };
    let to = match config.lookup_address(to) {
        Ok(t) => t,
        Err(e) => return Err(e),
    };
    let amount = match to_hex(amount) {
        Ok(v) => v,
        Err(e) => return Err(e),
    };
    Ok(AssetTransfer { sender, asset_id, to, amount })
}

impl AssetTransfer {
    /// The transfer message, with the sender's nonce.
    pub fn message(&self, nonce: u64) -> (r: TransferAssetMessage)
        ensures
            r.asset_id@ == self.asset_id@,
            r.from@ == self.sender.account.credentials.address@,
            r.to@ == self.to@,
            r.amount@ == self.amount@,
            r.nonce@ == digits_text(nonce as nat, 10),
    {
        TransferAssetMessage {
            asset_id: self.asset_id.clone(),
            from: self.sender.account.credentials.address.clone(),
            to: self.to.clone(),
            amount: self.amount.clone(),
            nonce: decimal(nonce),
        }
    }
}

/// The message that sets an account's state.
pub struct SetStateMessage {
    pub from: String,
    pub state: String,
    pub nonce: String,
}

/// Builds the state message for `account` with its nonce.
pub fn set_state_message(account: &Account, state: &str, nonce: u64) -> (r: SetStateMessage)
    ensures
        r.from@ == account.credentials.address@,
        r.state@ == state@,
        r.nonce@ == digits_text(nonce as nat, 10),
{
    SetStateMessage {
        from: account.credentials.address.clone(),
        state: owned(state),
        nonce: decimal(nonce),
    }
}

/// The address a query is about: the one `account` stands for (an alias or an address), or
/// the selected account's.
pub fn account_id(config: &Config, account: Option<&str>) -> (r: Result<String, CliError>)
    requires
        config.well_formed(),
    ensures
        match account {
            Some(a) => match config.addresses_view().resolve(a@) {
                Some(v) => r matches Ok(x) && x@ == v,
                None => r matches Err(e) && config.addresses_view().lookup_error(a@, e),
            },
            None => match config.selected_account() {
                Ok(v) => r matches Ok(x) && x@ == v.address,
                Err(e) => r == Err::<String, CliError>(e),
            },
        },
{
    match account {
        Some(a) => config.lookup_address(a),
        None => match config.get_account(None) {
            Ok(acc) => Ok(acc.credentials.address),
            Err(e) => Err(e),
        },
    }
}

} // verus!
