//! Accounts: key material, derived addresses and the account selected for use.

use vstd::prelude::*;

use crate::alias::texts;
use crate::error::CliError;
use crate::keys::{
    address_of_secret, bytes_of_hex, checksum_address, hex_decode, hex_encode, lemma_hex_round_trip,
    random_secret, valid_secret,
};
use crate::table::Table;
use crate::text::{all_hex, lower_text, owned, to_lower};

verus! {

/// The hexadecimal digits of a private key, after an optional `0x`.
pub open spec fn key_digits(s: Seq<char>) -> Seq<char> {
    if s.len() >= 2 && s[0] == '0' && s[1] == 'x' {
        s.skip(2)
    } else {
        s
    }
}

/// A private key written as at least 64 hexadecimal digits, after an optional `0x`, in
/// lower case.
pub open spec fn raw_key(s: Seq<char>) -> Option<Seq<char>> {
    let t = key_digits(s);
    if t.len() >= 64 && all_hex(t) {
        Some(lower_text(t))
    } else {
        None
    }
}

/// Hexadecimal digits that stand for a secret key: 64 of them, giving 32 bytes that are a valid
/// secret.
pub open spec fn usable_key(k: Seq<char>) -> bool {
    k.len() == 64 && valid_secret(bytes_of_hex(k))
}

/// The lower-case address of a private key given by its hexadecimal digits.
pub open spec fn address_for(key: Seq<char>) -> Seq<char> {
    lower_text(checksum_address(bytes_of_hex(key)))
}

/// The account that `create` registers under `name` with these credentials.
pub open spec fn account_for(name: Seq<char>, credentials: Credentials) -> AccountView {
    AccountView {
        name,
        signatures: seq![credentials.address@],
        quorum: 1,
        address: credentials.address@,
        private_key: credentials.private_key@,
    }
}

/// The private key and the address derived from it.
pub struct Credentials {
    /// The address, in lower case.
    pub address: String,
    /// The private key as lower-case hexadecimal digits; kept in clear, for development use.
    pub private_key: String,
}

/// What an account holds, as plain values.
pub struct AccountView {
    pub name: Seq<char>,
    pub signatures: Seq<Seq<char>>,
    pub quorum: u16,
    pub address: Seq<char>,
    pub private_key: Seq<char>,
}

/// A named account.
pub struct Account {
    /// The name the account is registered under.
    pub name: String,
    /// The addresses of the verifiers of this account; its own address comes last.
    pub signatures: Vec<String>,
    /// The minimum number of signatures.
    pub quorum: u16,
    /// The key material.
    pub credentials: Credentials,
}

impl View for Account {
    type V = AccountView;

    open spec fn view(&self) -> AccountView {
        AccountView {
            name: self.name@,
            signatures: texts(self.signatures@),
            quorum: self.quorum,
            address: self.credentials.address@,
            private_key: self.credentials.private_key@,
        }
    }
}

impl Clone for Credentials {
    fn clone(&self) -> (r: Self)
        ensures
            r.address@ == self.address@,
            r.private_key@ == self.private_key@,
    {
        Credentials { address: self.address.clone(), private_key: self.private_key.clone() }
    }
}

impl Clone for Account {
    fn clone(&self) -> (r: Self)
        ensures
            r@ == self@,
    {
        let signatures = self.signatures.clone();
        assert(signatures@ =~= self.signatures@);
        Account {
            name: self.name.clone(),
            signatures,
            quorum: self.quorum,
            credentials: self.credentials.clone(),
        }
    }
}

impl Account {
    /// An account with quorum one whose verifiers are `verifiers` followed by its own address.
    pub fn new(name: String, credentials: Credentials, verifiers: Vec<String>) -> (r: Self)
        ensures
            r@ == (AccountView {
                name: name@,
                signatures: texts(verifiers@).push(credentials.address@),
                quorum: 1,
                address: credentials.address@,
                private_key: credentials.private_key@,
            }),
    {
        let mut verifiers = verifiers;
        let ghost given = verifiers@;
        verifiers.push(credentials.address.clone());
        assert(texts(verifiers@) =~= texts(given).push(credentials.address@));
        Account { name, signatures: verifiers, quorum: 1, credentials }
    }
}

/// The lower-case hexadecimal digits of a private key given in raw form, if it is one.
pub fn raw_private_key(key: &str) -> (r: Option<String>)
    ensures
        match r {
            Some(k) => raw_key(key@) == Some(k@),
            None => raw_key(key@) is None,
        },
{
    let hex = crate::text::starts_with(key, "0x");
    let from: usize = if hex {
        2
    } else {
        0
    };
    proof {
        reveal_strlit("0x");
        if key@.len() >= 2 {
            assert(key@.take(2)[0] == key@[0]);
            assert(key@.take(2)[1] == key@[1]);
            if key@[0] == '0' && key@[1] == 'x' {
                assert(key@.take(2) =~= "0x"@);
            }
        }
        assert(key@.skip(0) =~= key@);
    }
    let mut digits = String::new();
    crate::text::append_from(&mut digits, key, from);
    assert(digits@ =~= key_digits(key@));
    let n = digits.unicode_len();
    if n < 64 {
        return None;
    }
    let mut i: usize = 0;
    while i < n
        invariant
            i <= n,
            n == digits@.len(),
            digits@ == key_digits(key@),
            forall|j: int| 0 <= j < i ==> crate::text::is_hex_digit(#[trigger] digits@[j]),
        decreases n - i,
    {
        if !crate::text::is_hex_digit_exec(digits.as_str().get_char(i)) {
            assert(!crate::text::is_hex_digit(digits@[i as int]));
            return None;
        }
        i = i + 1;
    }
    Some(to_lower(digits.as_str()))
}

/// The lower-case address of a private key given in raw form; it is derived exactly when the
/// key's digits stand for a secret key.
pub fn derive_address(private_key: &str) -> (r: Result<String, CliError>)
    ensures
        match r {
            Ok(a) => raw_key(private_key@) matches Some(k) && usable_key(k) && a@ == address_for(k),
            Err(e) => e == CliError::InvalidKey && !(raw_key(private_key@) matches Some(k)
                && usable_key(k)),
        },
{
    let key = match raw_private_key(private_key) {
        Some(k) => k,
        None => return Err(CliError::InvalidKey),
    };
    match hex_decode(key.as_str()) {
        Some(bytes) => match address_of_secret(&bytes) {
            Some(a) => Ok(to_lower(a.as_str())),
            None => Err(CliError::InvalidKey),
        },
        None => Err(CliError::InvalidKey),
    }
}

/// A fresh random private key, as 64 lower-case hexadecimal digits that stand for a secret key.
pub fn generate_private_key() -> (r: String)
    ensures
        r@.len() == 64,
        raw_key(r@) == Some(r@),
        usable_key(r@),
{
    let secret = random_secret();
    let r = hex_encode(&secret);
    proof {
        lemma_hex_of_bytes_lower(secret@);
        lemma_hex_round_trip(secret@);
        assert(key_digits(r@) == r@) by {
            if r@.len() >= 2 && r@[0] == '0' && r@[1] == 'x' {
                assert(crate::text::is_hex_digit(r@[1]));
            }
        }
        assert(lower_text(r@) =~= r@);
    }
    r
}

/// A key in raw form is its own raw form.
proof fn lemma_raw_key_stable(s: Seq<char>)
    ensures
        raw_key(s) matches Some(k) ==> raw_key(k) == Some(k),
{
    if let Some(k) = raw_key(s) {
        let t = key_digits(s);
        assert forall|i: int| 0 <= i < k.len() implies crate::text::is_hex_digit(#[trigger] k[i])
            && crate::text::lower_char(k[i]) == k[i] by {
            assert(crate::text::is_hex_digit(t[i]));
        }
        assert(key_digits(k) == k) by {
            if k.len() >= 2 && k[0] == '0' && k[1] == 'x' {
                assert(crate::text::is_hex_digit(k[1]));
            }
        }
        assert(lower_text(k) =~= k);
    }
}

/// The hexadecimal form of bytes has two lower-case digits for each byte.
proof fn lemma_hex_of_bytes_lower(b: Seq<u8>)
    ensures
        hex_of_bytes_len(b),
    decreases b.len(),
{
    if b.len() > 0 {
        lemma_hex_of_bytes_lower(b.drop_last());
        let h = crate::keys::hex_of_bytes(b);
        let front = crate::keys::hex_of_bytes(b.drop_last());
        let hi = (b.last() / 16) as nat;
        let lo = (b.last() % 16) as nat;
        assert(h =~= front + seq![crate::text::digit_char(hi), crate::text::digit_char(lo)]);
        assert forall|i: int| 0 <= i < h.len() implies lower_hex_char(#[trigger] h[i]) by {
            if i < front.len() {
                assert(h[i] == front[i]);
            }
        }
    }
}

/// A digit `0`-`9` or `a`-`f`.
spec fn lower_hex_char(c: char) -> bool {
    ('0' <= c && c <= '9') || ('a' <= c && c <= 'f')
}

spec fn hex_of_bytes_len(b: Seq<u8>) -> bool {
    let h = crate::keys::hex_of_bytes(b);
    &&& h.len() == 2 * b.len()
    &&& forall|i: int| 0 <= i < h.len() ==> lower_hex_char(#[trigger] h[i])
}

/// The registered accounts and the one selected for use.
pub struct Accounts {
    accounts: Table<Account>,
    using: Option<String>,
}

impl Accounts {
    /// The accounts by name.
    pub closed spec fn accounts(&self) -> Map<Seq<char>, AccountView> {
        Map::new(
            |k: Seq<char>| self.accounts@.contains_key(k),
            |k: Seq<char>| self.accounts@[k]@,
        )
    }

    /// The name of the selected account, if any.
    pub closed spec fn using(&self) -> Option<Seq<char>> {
        match self.using {
            Some(n) => Some(n@),
            None => None,
        }
    }

    /// Some account other than `except` has this private key.
    pub open spec fn key_taken(&self, key: Seq<char>, except: Option<Seq<char>>) -> bool {
        exists|n: Seq<char>|
            #![trigger self.accounts()[n]]
            self.accounts().contains_key(n) && except != Some(n) && self.accounts()[n].private_key
                == key
    }

    /// Each account is stored under its own name, no two share a private key, and the selected
    /// account exists.
    pub open spec fn well_formed(&self) -> bool {
        &&& self.table_well_formed()
        &&& forall|n: Seq<char>| #[trigger]
            self.accounts().contains_key(n) ==> self.accounts()[n].name == n
        &&& forall|a: Seq<char>, b: Seq<char>|
            self.accounts().contains_key(a) && self.accounts().contains_key(b) && a != b
                ==> #[trigger] self.accounts()[a].private_key != #[trigger] self.accounts()[b].private_key
        &&& self.using() matches Some(u) ==> self.accounts().contains_key(u)
    }

    pub closed spec fn table_well_formed(&self) -> bool {
        self.accounts.well_formed()
    }

    /// No accounts, none selected.
    pub fn new() -> (r: Self)
        ensures
            r.well_formed(),
            r.accounts() == Map::<Seq<char>, AccountView>::empty(),
            r.using() is None,
    {
        let r = Accounts { accounts: Table::new(), using: None };
        assert(r.accounts() =~= Map::<Seq<char>, AccountView>::empty());
        r
    }

    /// Whether an account other than `except` has the private key `key`.
    fn holds_key(&self, key: &String, except: Option<&String>) -> (r: bool)
        requires
            self.well_formed(),
        ensures
            r == self.key_taken(
                key@,
                match except {
                    Some(e) => Some(e@),
                    None => None,
                },
            ),
    {
        let ghost ex = match except {
            Some(e) => Some(e@),
            None => None::<Seq<char>>,
        };
        let all = self.accounts.list();
        let mut i: usize = 0;
        while i < all.len()
            invariant
                i <= all@.len(),
                self.well_formed(),
                ex == match except {
                    Some(e) => Some(e@),
                    None => None::<Seq<char>>,
                },
                forall|j: int|
                    0 <= j < all@.len() ==> self.accounts@.contains_key(#[trigger] all@[j].0@)
                        && self.accounts@[all@[j].0@] == *all@[j].1,
                forall|j: int|
                    0 <= j < i ==> !(ex != Some(#[trigger] all@[j].0@)
                        && all@[j].1.credentials.private_key@ == key@),
            decreases all@.len() - i,
        {
            let name = all[i].0;
            let account = all[i].1;
            let other = match except {
                Some(e) => !(*name == *e),
                None => true,
            };
            assert(other == (ex != Some(all@[i as int].0@)));
            let same = account.credentials.private_key == *key;
            assert(same == (all@[i as int].1.credentials.private_key@ == key@));
            if other && same {
                assert(self.accounts()[name@].private_key == key@);
                return true;
            }
            i = i + 1;
        }
        assert forall|n: Seq<char>| #[trigger]
            self.accounts().contains_key(n) && ex != Some(n) implies self.accounts()[n].private_key
            != key@ by {
            let j = choose|j: int| 0 <= j < all@.len() && #[trigger] all@[j].0@ == n;
            assert(all@[j].0@ == n);
        }
        false
    }

    /// What `generate_credentials` may return for `private_key`.
    pub open spec fn generated(&self, private_key: Option<String>, r: Result<Credentials, CliError>) -> bool {
        match private_key {
            Some(given) => match raw_key(given@) {
                None => r == Err::<Credentials, CliError>(CliError::InvalidKey),
                Some(k) => if self.key_taken(k, None) {
                    r == Err::<Credentials, CliError>(CliError::DuplicateKey)
                } else if usable_key(k) {
                    r matches Ok(c) && c.private_key@ == k && c.address@ == address_for(k)
                } else {
                    r == Err::<Credentials, CliError>(CliError::InvalidKey)
                },
            },
            None => match r {
                Ok(c) => {
                    &&& c.private_key@.len() == 64
                    &&& raw_key(c.private_key@) == Some(c.private_key@)
                    &&& usable_key(c.private_key@)
                    &&& c.address@ == address_for(c.private_key@)
                    &&& !self.key_taken(c.private_key@, None)
                },
                Err(e) => e == CliError::DuplicateKey,
            },
        }
    }

    /// Credentials for the given raw private key, or for a fresh random one; a key that an
    /// account already has is refused, and a given key must stand for a secret key.
    pub fn generate_credentials(&self, private_key: Option<String>) -> (r: Result<
        Credentials,
        CliError,
    >)
        requires
            self.well_formed(),
        ensures
            self.generated(private_key, r),
    {
        let key = match private_key {
            Some(given) => match raw_private_key(given.as_str()) {
                Some(k) => k,
                None => return Err(CliError::InvalidKey),
            },
            None => generate_private_key(),
        };
        if self.holds_key(&key, None) {
            return Err(CliError::DuplicateKey);
        }
        proof {
            if private_key is Some {
                lemma_raw_key_stable(private_key->Some_0@);
            }
        }
        match derive_address(key.as_str()) {
            Ok(address) => Ok(Credentials { address, private_key: key }),
            Err(e) => Err(e),
        }
    }

    /// Registers an account named `name` with the given credentials, its own address as its only
    /// verifier and quorum one, and selects it. A taken name is refused unless `overwrite`; a
    /// private key of another account is refused.
    pub fn create(&mut self, name: String, credentials: Credentials, overwrite: bool) -> (r: Result<
        Account,
        CliError,
    >)
        requires
            old(self).well_formed(),
        ensures
            final(self).well_formed(),
            if !overwrite && old(self).accounts().contains_key(name@) {
                &&& r == Err::<Account, CliError>(CliError::AlreadyExists)
                &&& final(self).accounts() == old(self).accounts()
                &&& final(self).using() == old(self).using()
            } else if old(self).key_taken(credentials.private_key@, Some(name@)) {
                &&& r == Err::<Account, CliError>(CliError::DuplicateKey)
                &&& final(self).accounts() == old(self).accounts()
                &&& final(self).using() == old(self).using()
            } else {
                &&& r matches Ok(a)
                &&& a@ == account_for(name@, credentials)
                &&& final(self).accounts() == old(self).accounts().insert(name@, a@)
                &&& final(self).using() == Some(name@)
            },
    {
        if !overwrite && self.accounts.contains_key(&name) {
            return Err(CliError::AlreadyExists);
        }
        if self.holds_key(&credentials.private_key, Some(&name)) {
            return Err(CliError::DuplicateKey);
        }
        let ghost address = credentials.address@;
        let account = Account::new(name.clone(), credentials, Vec::new());
        assert(texts(Seq::<String>::empty()) =~= Seq::<Seq<char>>::empty());
        assert(Seq::<Seq<char>>::empty().push(address) =~= seq![address]);
        let result = account.clone();
        let ghost before = self.accounts();
        self.accounts.insert(name.clone(), account);
        self.using = Some(name);
        assert(self.accounts() =~= before.insert(result@.name, result@));
        Ok(result)
    }

    /// The account named `nm`, or else the selected one.
    pub fn get(&self, nm: Option<&str>) -> (r: Result<Account, CliError>)
        requires
            self.well_formed(),
        ensures
            match (
                match nm {
                    Some(n) => Some(n@),
                    None => self.using(),
                }
            ) {
                None => r == Err::<Account, CliError>(CliError::NoDefaultAccount),
                Some(n) => if self.accounts().contains_key(n) {
                    r matches Ok(a) && a@ == self.accounts()[n]
                } else {
                    r == Err::<Account, CliError>(CliError::NotFound)
                },
            },
    {
        let name = match nm {
            Some(n) => owned(n),
            None => match &self.using {
                Some(u) => u.clone(),
                None => return Err(CliError::NoDefaultAccount),
            },
        };
        match self.accounts.get(&name) {
            Some(a) => Ok(a.clone()),
            None => Err(CliError::NotFound),
        }
    }

    /// Selects the account named `name`.
    pub fn set_using(&mut self, name: &str) -> (r: Result<(), CliError>)
        requires
            old(self).well_formed(),
        ensures
            final(self).well_formed(),
            final(self).accounts() == old(self).accounts(),
            if old(self).accounts().contains_key(name@) {
                r is Ok && final(self).using() == Some(name@)
            } else {
                r == Err::<(), CliError>(CliError::NotFound) && final(self).using() == old(
                    self,
                ).using()
            },
    {
        let key = owned(name);
        if !self.accounts.contains_key(&key) {
            return Err(CliError::NotFound);
        }
        self.using = Some(key);
        assert(self.accounts() =~= old(self).accounts());
        assert(self.accounts().contains_key(name@));
        Ok(())
    }

    /// Deletes the account named `name`; it is no longer selected.
    pub fn remove(&mut self, name: &str) -> (r: Result<(), CliError>)
        requires
            old(self).well_formed(),
        ensures
            final(self).well_formed(),
            final(self).accounts() == old(self).accounts().remove(name@),
            r is Ok <==> old(self).accounts().contains_key(name@),
            r matches Err(e) ==> e == CliError::NotFound,
            final(self).using() == if old(self).using() == Some(name@) {
                None
            } else {
                old(self).using()
            },
    {
        let key = owned(name);
        let ghost before = self.accounts();
        let removed = self.accounts.remove(&key);
        let clear = match &self.using {
            Some(u) => *u == key,
            None => false,
        };
        if clear {
            self.using = None;
        }
        assert(self.accounts() =~= before.remove(name@));
        match removed {
            Some(_) => Ok(()),
            None => Err(CliError::NotFound),
        }
    }

    /// Every account with its name, each once.
    pub fn list(&self) -> (r: Vec<(&String, &Account)>)
        requires
            self.well_formed(),
        ensures
            forall|i: int|
                0 <= i < r@.len() ==> self.accounts().contains_key(#[trigger] r@[i].0@)
                    && self.accounts()[r@[i].0@] == r@[i].1@,
            forall|i: int, j: int| 0 <= i < j < r@.len() ==> #[trigger] r@[i].0@ != #[trigger] r@[j].0@,
            forall|k: Seq<char>| #[trigger]
                self.accounts().contains_key(k) ==> exists|i: int| 0 <= i < r@.len() && #[trigger] r@[i].0@ == k,
    {
        self.accounts.list()
    }
}

impl Default for Accounts {
    fn default() -> (r: Self)
        ensures
            r.well_formed(),
            r.accounts() == Map::<Seq<char>, AccountView>::empty(),
            r.using() is None,
    {
        Accounts::new()
    }
}

/// Deriving an address is a function of the private key alone: deriving it again gives the same
/// address.
pub proof fn lemma_address_deterministic(first: Seq<char>, second: Seq<char>)
    requires
        first == second,
    ensures
        address_for(first) == address_for(second),
{
}

/// Once an account is registered with a private key, that key is taken for every other name,
/// so registering it again under another name, or generating credentials from it, is refused
/// as a duplicate.
pub proof fn lemma_same_key_refused(
    before: Accounts,
    after: Accounts,
    first: Seq<char>,
    second: Seq<char>,
    credentials: Credentials,
)
    requires
        after.accounts() == before.accounts().insert(first, account_for(first, credentials)),
        first != second,
    ensures
        after.key_taken(credentials.private_key@, Some(second)),
        after.key_taken(credentials.private_key@, None),
{
    assert(after.accounts()[first].private_key == credentials.private_key@);
}

} // verus!
