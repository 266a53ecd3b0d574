//! The operating system's credential store, as the `keyring` crate reaches it. Every call
//! that changes the store hands back a receipt of what it was handed; only this module
//! makes receipts.
use vstd::prelude::*;
use crate::credentials::{reported, KeychainFailure};

verus! {

#[verifier::external_type_specification]
#[verifier::external_body]
pub struct ExKeyringEntry(keyring::Entry);

#[verifier::external_type_specification]
#[verifier::external_body]
pub struct ExKeyringError(keyring::Error);

/// The service a credential-store entry was made for.
pub uninterp spec fn entry_service(entry: keyring::Entry) -> Seq<char>;

/// The user (the secret's name) a credential-store entry was made for.
pub uninterp spec fn entry_user(entry: keyring::Entry) -> Seq<char>;

/// Whether a `keyring::Error` is `NoEntry`: the store holds nothing for the entry.
pub uninterp spec fn is_missing_entry(error: keyring::Error) -> bool;

/// A call that changes the store: write `value` under an entry, or remove its secret.
pub enum StoreCall {
    Write { service: Seq<char>, user: Seq<char>, value: Seq<char> },
    Remove { service: Seq<char>, user: Seq<char> },
}

/// Evidence that a call was handed to the store: the call, and the error the store
/// answered with, if any.
pub struct StoreReceipt {
    call: Ghost<StoreCall>,
    error: Ghost<Option<keyring::Error>>,
}

impl StoreReceipt {
    pub closed spec fn call(self) -> StoreCall {
        self.call@
    }

    pub closed spec fn error(self) -> Option<keyring::Error> {
        self.error@
    }
}

/// `keyring::Entry::new`: an entry of the default credential store for `service` and
/// `user`. Whether the store can be opened depends on the platform; an entry it gives is
/// the one for `service` and `user`. (It panics only if the crate's internal lock was
/// poisoned.)
#[verifier::external_body]
pub(crate) fn keychain_entry(service: &str, user: &str) -> (r: Result<keyring::Entry, keyring::Error>)
    ensures
        r matches Ok(e) ==> entry_service(e) == service@ && entry_user(e) == user@,
{
    keyring::Entry::new(service, user)
}

/// Evidence that an entry was read: the entry (service and user), and the text the store
/// gave, if it gave one.
pub struct ReadReceipt {
    entry: Ghost<(Seq<char>, Seq<char>)>,
    text: Ghost<Option<Seq<char>>>,
}

impl ReadReceipt {
    pub closed spec fn entry(self) -> (Seq<char>, Seq<char>) {
        self.entry@
    }

    pub closed spec fn text(self) -> Option<Seq<char>> {
        self.text@
    }
}

/// `keyring::Entry::get_password`: the secret stored under `entry`, read from the
/// platform's store (what it holds is the store's); the receipt records the entry read and
/// the text given, if any.
#[verifier::external_body]
pub(crate) fn stored_password(entry: &keyring::Entry) -> (r: (Result<String, keyring::Error>, ReadReceipt))
    ensures
        r.1.entry() == (entry_service(*entry), entry_user(*entry)),
        r.0 matches Ok(p) ==> r.1.text() == Some(p@),
        r.0 is Err ==> r.1.text() is None,
{
    let result = entry.get_password();
    let read = Ghost((entry_service(*entry), entry_user(*entry)));
    let text = Ghost(match result { Ok(p) => Some(p@), Err(_) => None });
    (result, ReadReceipt { entry: read, text })
}

/// `keyring::Entry::set_password`: hands `value` to the store under `entry`; the receipt
/// records that call and the store's error, if any.
#[verifier::external_body]
pub(crate) fn store_password(entry: &keyring::Entry, value: &str) -> (r: (Result<(), keyring::Error>, StoreReceipt))
    ensures
        r.1.call() == (StoreCall::Write { service: entry_service(*entry), user: entry_user(*entry), value: value@ }),
        r.0 is Ok <==> r.1.error() is None,
        r.0 matches Err(e) ==> r.1.error() == Some(e),
{
    let result = entry.set_password(value);
    let call = Ghost(StoreCall::Write { service: entry_service(*entry), user: entry_user(*entry), value: value@ });
    let error = Ghost(match result { Ok(_) => None, Err(e) => Some(e) });
    (result, StoreReceipt { call, error })
}

/// `keyring::Entry::delete_credential`: asks the store to remove `entry`'s secret; the
/// receipt records that call and the store's error, if any.
#[verifier::external_body]
pub(crate) fn delete_stored(entry: &keyring::Entry) -> (r: (Result<(), keyring::Error>, StoreReceipt))
    ensures
        r.1.call() == (StoreCall::Remove { service: entry_service(*entry), user: entry_user(*entry) }),
        r.0 is Ok <==> r.1.error() is None,
        r.0 matches Err(e) ==> r.1.error() == Some(e),
{
    let result = entry.delete_credential();
    let call = Ghost(StoreCall::Remove { service: entry_service(*entry), user: entry_user(*entry) });
    let error = Ghost(match result { Ok(_) => None, Err(e) => Some(e) });
    (result, StoreReceipt { call, error })
}

/// A `keyring::Error` as a `KeychainFailure`: its `Display` text, and whether it is
/// `NoEntry`. In the crate's source every variant is shown with a non-empty text, and
/// only `NoEntry` with the text of `no_entry_text`.
#[verifier::external_body]
pub(crate) fn failure_of(error: &keyring::Error) -> (r: KeychainFailure)
    ensures
        reported(r),
        r.missing == is_missing_entry(*error),
{
    match error {
        keyring::Error::NoEntry => KeychainFailure { missing: true, detail: format!("{}", error) },
        _ => KeychainFailure { missing: false, detail: format!("{}", error) },
    }
}

} // verus!
