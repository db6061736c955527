//! API keys: the credential check and the issuing of new keys.
//!
//! Keys live in a `securestore` vault, which keeps every secret encrypted in
//! memory. Verus cannot see inside the vault, so what it holds is named by
//! [`stored_secrets`], and the three calls that the library makes into it are
//! given contracts over that name. Fresh secrets come from `uuid`. The rest
//! of this module is proved from those contracts.
use crate::text::{lemma_split_joined, same_text, split_first, split_once};
use crate::{optional_text, outcome_text, Error};
use vstd::prelude::*;
use vstd::string::*;

verus! {

#[verifier::external_type_specification]
#[verifier::external_body]
pub struct ExVault(securestore::SecretsManager);

/// What a store holds, as a mathematical map: each keyword with its secret,
/// or with `None` where the entry can no longer be read.
pub type Secrets = Map<Seq<char>, Option<Seq<char>>>;

/// The entries of a `securestore` vault: every name under which it holds a
/// secret, with the text that the secret decrypts to, or with `None` where
/// the entry does not decrypt to text under the vault's keys.
pub uninterp spec fn stored_secrets(vault: securestore::SecretsManager) -> Map<
    Seq<char>,
    Option<Seq<char>>,
>;

/// What a lookup in a vault found.
enum Stored {
    /// The entry exists and this is its secret.
    Secret(String),
    /// The vault holds no entry under the name.
    Missing,
    /// The vault holds an entry under the name, but it cannot be read.
    Unreadable,
}

/// `securestore::SecretsManager::get`: decrypts the secret stored under
/// `name`. The vault reports a missing name with the error kind
/// `SecretNotFound`; every other error means that the entry is there and
/// could not be decrypted or is not text.
#[verifier::external_body]
fn vault_get(vault: &securestore::SecretsManager, name: &str) -> (found: Stored)
    ensures
        found matches Stored::Secret(secret) ==> stored_secrets(*vault).contains_key(name@)
            && stored_secrets(*vault)[name@] == Some(secret@),
        found is Missing ==> !stored_secrets(*vault).contains_key(name@),
        found is Unreadable ==> stored_secrets(*vault).contains_key(name@) && stored_secrets(
            *vault,
        )[name@] is None,
{
    match vault.get(name) {
        Ok(secret) => Stored::Secret(secret),
        Err(e) => match e.kind() {
            securestore::ErrorKind::SecretNotFound => Stored::Missing,
            _ => Stored::Unreadable,
        },
    }
}

/// `securestore::SecretsManager::set`: encrypts `value` under the vault's
/// keys and stores it under `name`, replacing an earlier entry of that name.
/// No other entry changes.
#[verifier::external_body]
fn vault_set(vault: &mut securestore::SecretsManager, name: &str, value: &str)
    ensures
        stored_secrets(*final(vault)) == stored_secrets(*old(vault)).insert(name@, Some(value@)),
{
    vault.set(name, value)
}

/// `securestore::SecretsManager::remove`: takes the entry under `name` out of
/// the vault, if there is one. No other entry changes.
#[verifier::external_body]
fn vault_remove(vault: &mut securestore::SecretsManager, name: &str)
    ensures
        stored_secrets(*final(vault)) == stored_secrets(*old(vault)).remove(name@),
{
    let _ = vault.remove(name);
}

/// The character between keyword and secret in a composite API key.
pub const SEPARATOR: char = '-';

/// The number of characters in a freshly issued secret.
pub const SECRET_LENGTH: usize = 32;

/// A digit of lower-case hexadecimal notation.
pub open spec fn is_lower_hex(c: char) -> bool {
    ('0' <= c && c <= '9') || ('a' <= c && c <= 'f')
}

/// The shape of a freshly issued secret: 32 lower-case hexadecimal digits.
pub open spec fn is_token(secret: Seq<char>) -> bool {
    &&& secret.len() == SECRET_LENGTH
    &&& forall|i: int| 0 <= i < secret.len() ==> is_lower_hex(#[trigger] secret[i])
}

/// `uuid::Uuid::new_v4`, written in the crate's `simple` form: a random
/// version 4 identifier as 32 lower-case hexadecimal digits without hyphens.
/// Two calls need not agree, so nothing more is said of the digits.
#[verifier::external_body]
fn fresh_token() -> (token: String)
    ensures
        is_token(token@),
{
    uuid::Uuid::new_v4().simple().to_string()
}

/// The key handed to a caller at sign-up: keyword, separator, secret.
pub open spec fn composite_key(keyword: Seq<char>, secret: Seq<char>) -> Seq<char> {
    keyword + seq![SEPARATOR] + secret
}

/// Whether a credential authorizes its bearer against the given secrets: it
/// must be present, split at its first separator into a keyword and a
/// secret, the keyword must be known, and the secret stored for it must be
/// the presented one, character for character.
pub open spec fn credential_valid(secrets: Secrets, credential: Option<Seq<char>>) -> bool {
    match credential {
        None => false,
        Some(text) => match split_first(text, SEPARATOR) {
            None => false,
            Some((keyword, presented)) => secrets.contains_key(keyword) && secrets[keyword]
                == Some(presented),
        },
    }
}

/// What a sign-up answers: the composite key, or `UsernameAlreadyExists`
/// where the keyword is taken.
pub open spec fn sign_up_result(secrets: Secrets, keyword: Seq<char>, secret: Seq<char>) -> Result<
    Seq<char>,
    Error,
> {
    if secrets.contains_key(keyword) {
        Err(Error::UsernameAlreadyExists)
    } else {
        Ok(composite_key(keyword, secret))
    }
}

/// What a store holds after a sign-up: the new record beside the old ones,
/// or the old ones alone where the keyword is taken.
pub open spec fn after_sign_up(secrets: Secrets, keyword: Seq<char>, secret: Seq<char>) -> Secrets {
    if secrets.contains_key(keyword) {
        secrets
    } else {
        secrets.insert(keyword, Some(secret))
    }
}

/// The store of API keys: keyword to secret.
pub struct SecretStore {
    vault: securestore::SecretsManager,
}

impl View for SecretStore {
    type V = Secrets;

    closed spec fn view(&self) -> Secrets {
        stored_secrets(self.vault)
    }
}

impl SecretStore {
    /// Takes a loaded vault into the library.
    pub fn new(vault: securestore::SecretsManager) -> (store: Self)
        ensures
            store@ == stored_secrets(vault),
    {
        SecretStore { vault }
    }

    /// The vault behind the store, for the caller that persists it.
    pub fn vault(&self) -> (vault: &securestore::SecretsManager)
        ensures
            stored_secrets(*vault) == self@,
    {
        &self.vault
    }

    /// The secret stored for `keyword`.
    ///
    /// Fails with `SecretNotFound` exactly when the store has no entry for
    /// the keyword, and with `Unknown` exactly when it has one that cannot be
    /// read.
    pub fn secret(&self, keyword: &str) -> (found: Result<String, Error>)
        ensures
            match found {
                Ok(secret) => self@.contains_key(keyword@) && self@[keyword@] == Some(secret@),
                Err(Error::SecretNotFound) => !self@.contains_key(keyword@),
                Err(Error::Unknown) => self@.contains_key(keyword@) && self@[keyword@] is None,
                Err(_) => false,
            },
    {
        match vault_get(&self.vault, keyword) {
            Stored::Secret(secret) => Ok(secret),
            Stored::Missing => Err(Error::SecretNotFound),
            Stored::Unreadable => Err(Error::Unknown),
        }
    }

    /// Whether the store has an entry for `keyword`, readable or not.
    pub fn knows(&self, keyword: &str) -> (known: bool)
        ensures
            known == self@.contains_key(keyword@),
    {
        match vault_get(&self.vault, keyword) {
            Stored::Missing => false,
            _ => true,
        }
    }

    /// Decides whether a credential authorizes its bearer. Never fails: a
    /// missing credential, one without a separator, an unknown keyword, an
    /// unreadable entry and a wrong secret all give `false`.
    pub fn is_key_valid(&self, api_key: Option<String>) -> (valid: bool)
        ensures
            valid == credential_valid(self@, optional_text(api_key)),
    {
        match api_key {
            Some(key) => {
                match split_once(key.as_str(), SEPARATOR) {
                    Some((keyword, presented)) => {
                        match vault_get(&self.vault, keyword) {
                            Stored::Secret(secret) => same_text(secret.as_str(), presented),
                            _ => false,
                        }
                    },
                    None => false,
                }
            },
            None => false,
        }
    }

    /// Records `secret` for `keyword` and returns the composite key, unless
    /// the keyword is taken: then nothing changes and the call fails with
    /// `UsernameAlreadyExists`.
    pub fn issue(&mut self, keyword: String, secret: &str) -> (issued: Result<String, Error>)
        ensures
            outcome_text(issued) == sign_up_result(old(self)@, keyword@, secret@),
            final(self)@ == after_sign_up(old(self)@, keyword@, secret@),
    {
        if self.knows(keyword.as_str()) {
            return Err(Error::UsernameAlreadyExists);
        }
        vault_set(&mut self.vault, keyword.as_str(), secret);
        let mut key = keyword;
        key.append("-");
        key.append(secret);
        proof {
            reveal_strlit("-");
            assert("-"@ =~= seq![SEPARATOR]);
        }
        Ok(key)
    }

    /// Closes a sign-up once the caller has tried to persist the store.
    ///
    /// Where persisting succeeded the issued key stands. Where it failed the
    /// keyword's entry is withdrawn, so that the store in memory does not run
    /// ahead of the persisted one, and the call fails with `Unknown`.
    pub fn settle(&mut self, keyword: &str, key: String, persisted: bool) -> (settled: Result<
        String,
        Error,
    >)
        ensures
            match settled {
                Ok(kept) => persisted && kept == key && final(self)@ == old(self)@,
                Err(e) => {
                    &&& !persisted
                    &&& e == Error::Unknown
                    &&& final(self)@ == old(self)@.remove(keyword@)
                },
            },
    {
        if persisted {
            Ok(key)
        } else {
            vault_remove(&mut self.vault, keyword);
            Err(Error::Unknown)
        }
    }
}

/// Issues an API key for `keyword`.
///
/// Where the keyword is taken nothing changes and the call fails with
/// `UsernameAlreadyExists`. Otherwise a fresh secret is drawn and recorded
/// for the keyword, and the composite key is returned.
pub fn sign_up(store: &mut SecretStore, keyword: String) -> (issued: Result<String, Error>)
    ensures
        exists|secret: Seq<char>|
            {
                &&& is_token(secret)
                &&& outcome_text(issued) == #[trigger] sign_up_result(old(store)@, keyword@, secret)
                &&& final(store)@ == after_sign_up(old(store)@, keyword@, secret)
            },
{
    if store.knows(keyword.as_str()) {
        proof {
            // No secret is drawn; any token bears witness.
            let token = Seq::new(SECRET_LENGTH as nat, |i: int| '0');
            assert(is_token(token));
            assert(sign_up_result(old(store)@, keyword@, token) is Err);
        }
        return Err(Error::UsernameAlreadyExists);
    }
    let secret = fresh_token();
    store.issue(keyword, secret.as_str())
}

/// A keyword can be signed up once: whatever the first sign-up answered, a
/// second one for the same keyword fails with `UsernameAlreadyExists` and
/// leaves every record, the keyword's own among them, as it was.
pub proof fn lemma_second_sign_up_fails(
    secrets: Secrets,
    keyword: Seq<char>,
    first: Seq<char>,
    second: Seq<char>,
)
    ensures
        sign_up_result(after_sign_up(secrets, keyword, first), keyword, second) == Err::<
            Seq<char>,
            Error,
        >(Error::UsernameAlreadyExists),
        after_sign_up(after_sign_up(secrets, keyword, first), keyword, second) == after_sign_up(
            secrets,
            keyword,
            first,
        ),
        sign_up_result(secrets, keyword, first) is Ok ==> after_sign_up(
            secrets,
            keyword,
            first,
        )[keyword] == Some(first),
{
}

/// Withdrawing the record of a sign-up that succeeded gives back the store
/// as it was before the sign-up.
pub proof fn lemma_withdrawn_sign_up_leaves_no_trace(
    secrets: Secrets,
    keyword: Seq<char>,
    secret: Seq<char>,
)
    requires
        sign_up_result(secrets, keyword, secret) is Ok,
    ensures
        after_sign_up(secrets, keyword, secret).remove(keyword) == secrets,
{
    assert(after_sign_up(secrets, keyword, secret).remove(keyword) =~= secrets);
}

/// The composite key of a successful sign-up authorizes its bearer, as long
/// as the keyword holds no separator of its own. (A credential is split at
/// its first separator, so a keyword with one would be cut short.)
pub proof fn lemma_issued_key_authorizes(secrets: Secrets, keyword: Seq<char>, secret: Seq<char>)
    requires
        sign_up_result(secrets, keyword, secret) is Ok,
        !keyword.contains(SEPARATOR),
    ensures
        credential_valid(
            after_sign_up(secrets, keyword, secret),
            Some(sign_up_result(secrets, keyword, secret)->Ok_0),
        ),
{
    lemma_split_joined(keyword, SEPARATOR, secret);
}

/// After a successful sign-up no other secret passes for the keyword: a
/// composite key whose secret differs from the issued one, be it in a single
/// character, is turned away.
pub proof fn lemma_altered_secret_is_rejected(
    secrets: Secrets,
    keyword: Seq<char>,
    secret: Seq<char>,
    presented: Seq<char>,
)
    requires
        sign_up_result(secrets, keyword, secret) is Ok,
        !keyword.contains(SEPARATOR),
        presented != secret,
    ensures
        !credential_valid(
            after_sign_up(secrets, keyword, secret),
            Some(composite_key(keyword, presented)),
        ),
{
    lemma_split_joined(keyword, SEPARATOR, presented);
}

/// In particular, the issued key with any single character of its secret
/// changed is turned away.
pub proof fn lemma_flipped_secret_is_rejected(
    secrets: Secrets,
    keyword: Seq<char>,
    secret: Seq<char>,
    at: int,
    changed: char,
)
    requires
        sign_up_result(secrets, keyword, secret) is Ok,
        !keyword.contains(SEPARATOR),
        0 <= at < secret.len(),
        changed != secret[at],
    ensures
        !credential_valid(
            after_sign_up(secrets, keyword, secret),
            Some(composite_key(keyword, secret.update(at, changed))),
        ),
{
    assert(secret.update(at, changed)[at] != secret[at]);
    lemma_altered_secret_is_rejected(secrets, keyword, secret, secret.update(at, changed));
}

/// A missing credential, one without a separator and one with an unknown
/// keyword are all turned away, whatever the store holds.
pub proof fn lemma_malformed_credentials_are_rejected(secrets: Secrets, text: Seq<char>)
    ensures
        !credential_valid(secrets, None),
        !text.contains(SEPARATOR) ==> !credential_valid(secrets, Some(text)),
        split_first(text, SEPARATOR) matches Some(parts) && !secrets.contains_key(parts.0)
            ==> !credential_valid(secrets, Some(text)),
{
    text.index_of_first_ensures(SEPARATOR);
}

} // verus!
