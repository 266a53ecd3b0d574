//! Secrets kept in the operating system's credential store, never in the settings file.
use vstd::prelude::*;
use vstd::string::*;
use crate::keychain::{delete_stored, entry_service, entry_user, failure_of, is_missing_entry, keychain_entry, store_password, stored_password, ReadReceipt, StoreCall, StoreReceipt};

verus! {

/// The service name the secrets are filed under.
pub const SERVICE: &'static str = "com.grafana-watch-dog.desktop";

/// The entry holding the Grafana service account token.
pub const GRAFANA_TOKEN: &'static str = "grafana-service-account-token";

/// The entry holding the AI provider's API key.
pub const AI_KEY: &'static str = "ai-provider-api-key";

/// A credential-store failure: whether it only says nothing is stored, and its text.
#[derive(Debug)]
pub struct KeychainFailure {
    pub missing: bool,
    pub detail: String,
}

/// The text `keyring::Error::NoEntry` is shown with.
pub open spec fn no_entry_text() -> Seq<char> {
    "No matching entry found in secure storage"@
}

/// A failure as the credential store reports it: its text is never empty, and it says
/// that nothing is stored exactly when the text is the one for a missing entry.
pub open spec fn reported(f: KeychainFailure) -> bool {
    &&& f.detail@.len() > 0
    &&& f.missing == (f.detail@ == no_entry_text())
}

fn classify(error: keyring::Error) -> (r: KeychainFailure)
    ensures
        reported(r),
        r.missing == is_missing_entry(error),
{
    failure_of(&error)
}

/// The message for a store that cannot be opened.
pub fn access_failure(detail: &str) -> (r: String)
    ensures
        r@ == "无法访问系统 Keychain："@ + detail@,
{
    String::from_str("无法访问系统 Keychain：").concat(detail)
}

/// A secret read: the stored text, or empty on any failure.
pub fn password_or_empty(read: Result<String, KeychainFailure>) -> (r: String)
    ensures
        read matches Ok(p) ==> r@ == p@,
        read is Err ==> r@ == Seq::<char>::empty(),
{
    match read {
        Ok(p) => p,
        Err(_) => String::new(),
    }
}

/// A deletion: done, or nothing was stored, both count as success.
pub fn deletion_outcome(removed: Result<(), KeychainFailure>) -> (r: Result<(), String>)
    ensures
        r is Ok <==> (removed is Ok || removed->Err_0.missing),
        r matches Err(e) ==> e@ == "无法删除系统凭据："@ + removed->Err_0.detail@,
{
    match removed {
        Ok(()) => Ok(()),
        Err(f) => {
            if f.missing {
                Ok(())
            } else {
                Err(String::from_str("无法删除系统凭据：").concat(f.detail.as_str()))
            }
        },
    }
}

/// A write: done, or failed with the store's reason.
pub fn write_outcome(written: Result<(), KeychainFailure>) -> (r: Result<(), String>)
    ensures
        r is Ok <==> written is Ok,
        r matches Err(e) ==> e@ == "无法写入系统 Keychain："@ + written->Err_0.detail@,
{
    match written {
        Ok(()) => Ok(()),
        Err(f) => Err(String::from_str("无法写入系统 Keychain：").concat(f.detail.as_str())),
    }
}

/// Text `t` is `prefix` followed by the credential store's (non-empty) reason.
pub open spec fn failure_with(prefix: Seq<char>, t: Seq<char>) -> bool {
    exists|detail: Seq<char>| #![trigger prefix + detail] detail.len() > 0 && t == prefix + detail
}

/// A failed removal: the store's reason, which is never that nothing was stored.
pub open spec fn deletion_failure(t: Seq<char>) -> bool {
    exists|detail: Seq<char>|
        #![trigger "无法删除系统凭据："@ + detail]
        detail.len() > 0 && detail != no_entry_text() && t == "无法删除系统凭据："@ + detail
}

/// How saving `value` can fail: the store cannot be opened; or, for an empty value, the
/// stored secret cannot be removed; or, for any other, `value` cannot be written.
pub open spec fn save_failure(value: Seq<char>, t: Seq<char>) -> bool {
    ||| failure_with("无法访问系统 Keychain："@, t)
    ||| value.len() == 0 && deletion_failure(t)
    ||| value.len() > 0 && failure_with("无法写入系统 Keychain："@, t)
}

fn entry(name: &str) -> (r: Result<keyring::Entry, String>)
    ensures
        r matches Ok(e) ==> entry_service(e) == SERVICE@ && entry_user(e) == name@,
        r matches Err(e) ==> failure_with("无法访问系统 Keychain："@, e@),
{
    match keychain_entry(SERVICE, name) {
        Ok(e) => Ok(e),
        Err(error) => {
            let failure = failure_of(&error);
            let text = access_failure(failure.detail.as_str());
            assert(text@ == "无法访问系统 Keychain："@ + failure.detail@);
            Err(text)
        },
    }
}

/// A secret as loaded from the credential store.
pub struct LoadedSecret {
    /// The stored secret; empty when there is none or it cannot be read.
    value: String,
    /// The read of the entry; `None` when the store could not be opened.
    read: Option<ReadReceipt>,
}

impl LoadedSecret {
    /// The read the secret came from; `None` when the store could not be opened.
    pub closed spec fn read(self) -> Option<ReadReceipt> {
        self.read
    }

    /// The secret's text.
    pub closed spec fn secret(self) -> Seq<char> {
        self.value@
    }

    /// The secret's text.
    pub fn text(&self) -> (r: String)
        ensures
            r@ == self.secret(),
    {
        self.value.clone()
    }
}

/// What a load of secret `name` gives: when the store could be opened, the secret is
/// what reading this application's entry for `name` gave, or empty when the read failed;
/// otherwise the secret is empty.
pub open spec fn loaded_from(r: LoadedSecret, name: Seq<char>) -> bool {
    match r.read() {
        Some(rc) => rc.entry() == (SERVICE@, name) && r.secret() == match rc.text() {
            Some(p) => p,
            None => Seq::<char>::empty(),
        },
        None => r.secret() == Seq::<char>::empty(),
    }
}

fn load(name: &str) -> (r: LoadedSecret)
    ensures
        loaded_from(r, name@),
{
    match entry(name) {
        Ok(e) => {
            let (answer, receipt) = stored_password(&e);
            let read = match answer {
                Ok(p) => Ok(p),
                Err(error) => Err(classify(error)),
            };
            LoadedSecret { value: password_or_empty(read), read: Some(receipt) }
        },
        Err(_) => LoadedSecret { value: String::new(), read: None },
    }
}

/// The stored Grafana service account token, read from its entry; empty when there is
/// none or the store cannot be read.
pub fn load_grafana_token() -> (r: LoadedSecret)
    ensures
        loaded_from(r, GRAFANA_TOKEN@),
{
    load(GRAFANA_TOKEN)
}

/// The stored AI provider API key, read from its entry; empty when there is none or the
/// store cannot be read.
pub fn load_ai_key() -> (r: LoadedSecret)
    ensures
        loaded_from(r, AI_KEY@),
{
    load(AI_KEY)
}

/// The call that saving `value` under `name` hands to the store: an empty value removes
/// the stored secret.
pub open spec fn call_for(name: Seq<char>, value: Seq<char>) -> StoreCall {
    if value.len() == 0 {
        StoreCall::Remove { service: SERVICE@, user: name }
    } else {
        StoreCall::Write { service: SERVICE@, user: name, value }
    }
}

/// A handed call is done: the store succeeded, or there was nothing to remove.
pub open spec fn settled(rc: StoreReceipt) -> bool {
    rc.error() is None || (rc.call() is Remove && is_missing_entry(rc.error()->0))
}

/// The message of a handed call that was not done.
pub open spec fn receipt_failure(rc: StoreReceipt, t: Seq<char>) -> bool {
    match rc.call() {
        StoreCall::Write { .. } => failure_with("无法写入系统 Keychain："@, t),
        StoreCall::Remove { .. } => deletion_failure(t),
    }
}

/// What saving one secret gives: when the store could be opened, the call handed to it
/// (the receipt), done exactly when the save succeeds, with the store's reason when not;
/// otherwise no call and the message that the store could not be opened.
pub open spec fn saved_one(call: StoreCall, r: (Result<(), String>, Option<StoreReceipt>)) -> bool {
    match r.1 {
        Some(rc) => rc.call() == call && (r.0 is Ok <==> settled(rc)) && (r.0 matches Err(e)
            ==> receipt_failure(rc, e@)),
        None => r.0 matches Err(e) && failure_with("无法访问系统 Keychain："@, e@),
    }
}

/// Stores `value` under `name`; an empty value removes the stored secret instead, and
/// finding nothing to remove counts as done.
fn save_one(name: &str, value: &str) -> (r: (Result<(), String>, Option<StoreReceipt>))
    ensures
        saved_one(call_for(name@, value@), r),
        r.0 matches Err(e) ==> save_failure(value@, e@),
{
    let e = match entry(name) {
        Ok(e) => e,
        Err(text) => {
            return (Err(text), None);
        },
    };
    if value.is_empty() {
        let (outcome, receipt) = delete_stored(&e);
        let removed = match outcome {
            Ok(()) => Ok(()),
            Err(error) => Err(classify(error)),
        };
        let r = deletion_outcome(removed);
        proof {
            if r is Err {
                let d = removed->Err_0.detail@;
                assert(r->Err_0@ == "无法删除系统凭据："@ + d);
            }
        }
        (r, Some(receipt))
    } else {
        let (outcome, receipt) = store_password(&e, value);
        let written = match outcome {
            Ok(()) => Ok(()),
            Err(error) => Err(classify(error)),
        };
        let r = write_outcome(written);
        proof {
            if r is Err {
                let d = written->Err_0.detail@;
                assert(r->Err_0@ == "无法写入系统 Keychain："@ + d);
            }
        }
        (r, Some(receipt))
    }
}

/// One step of a save: write a secret under an entry, or remove the entry's secret.
#[derive(Debug)]
pub enum SecretStep {
    Write { name: String, value: String },
    Remove { name: String },
}

/// The step that saves `value` under `name`: an empty value removes the stored secret.
pub open spec fn step_for(step: SecretStep, name: Seq<char>, value: Seq<char>) -> bool {
    if value.len() == 0 {
        step matches SecretStep::Remove { name: n } && n@ == name
    } else {
        step matches SecretStep::Write { name: n, value: v } && n@ == name && v@ == value
    }
}

/// The value a step leaves stored: the written one, or none.
pub open spec fn step_value(step: SecretStep) -> Seq<char> {
    match step {
        SecretStep::Write { value, .. } => value@,
        SecretStep::Remove { .. } => Seq::<char>::empty(),
    }
}

/// The entry a step is for.
pub open spec fn step_name(step: SecretStep) -> Seq<char> {
    match step {
        SecretStep::Write { name, .. } => name@,
        SecretStep::Remove { name } => name@,
    }
}

fn secret_step(name: &str, value: &str) -> (r: SecretStep)
    ensures
        step_for(r, name@, value@),
{
    if value.is_empty() {
        SecretStep::Remove { name: String::from_str(name) }
    } else {
        SecretStep::Write { name: String::from_str(name), value: String::from_str(value) }
    }
}

/// The steps of saving both secrets: the Grafana token's first, then the AI key's.
pub fn save_plan(grafana_token: &str, ai_key: &str) -> (r: Vec<SecretStep>)
    ensures
        r@.len() == 2,
        step_for(r@[0], GRAFANA_TOKEN@, grafana_token@),
        step_for(r@[1], AI_KEY@, ai_key@),
{
    let mut plan: Vec<SecretStep> = Vec::new();
    plan.push(secret_step(GRAFANA_TOKEN, grafana_token));
    plan.push(secret_step(AI_KEY, ai_key));
    plan
}

fn apply_step(step: &SecretStep) -> (r: (Result<(), String>, Option<StoreReceipt>))
    ensures
        saved_one(call_for(step_name(*step), step_value(*step)), r),
{
    match step {
        SecretStep::Write { name, value } => save_one(name.as_str(), value.as_str()),
        SecretStep::Remove { name } => {
            proof {
                reveal_strlit("");
            }
            save_one(name.as_str(), "")
        },
    }
}

pub open spec fn receipt_calls(v: Seq<StoreReceipt>) -> Seq<StoreCall> {
    v.map_values(|rc: StoreReceipt| rc.call())
}

/// The calls saving the Grafana token and the AI key hands to the store, in order.
pub open spec fn save_calls(grafana_token: Seq<char>, ai_key: Seq<char>) -> Seq<StoreCall> {
    seq![call_for(GRAFANA_TOKEN@, grafana_token), call_for(AI_KEY@, ai_key)]
}

/// What a save of the calls `calls` amounts to, given its result and the receipts of the
/// calls handed: the handed calls are the first of `calls`, in order, and all but the last
/// were done; it succeeds exactly when every call was handed and done; it fails with the
/// reason of the last handed call when that one was not done, or else with the message
/// that the store could not be opened for the next call.
pub open spec fn saved(calls: Seq<StoreCall>, result: Result<(), String>, receipts: Seq<StoreReceipt>) -> bool {
    &&& receipts.len() <= calls.len()
    &&& receipt_calls(receipts) == calls.take(receipts.len() as int)
    &&& forall|i: int| 0 <= i < receipts.len() - 1 ==> #[trigger] settled(receipts[i])
    &&& result is Ok ==> receipts.len() == calls.len() && (receipts.len() == 0 || settled(receipts.last()))
    &&& result matches Err(e) ==> ((receipts.len() > 0 && !settled(receipts.last()) && receipt_failure(
        receipts.last(),
        e@,
    )) || (receipts.len() < calls.len() && (receipts.len() == 0 || settled(receipts.last()))
        && failure_with("无法访问系统 Keychain："@, e@)))
}

/// Stores both secrets by running `save_plan` in order: the Grafana token's entry first,
/// then the AI key's; an empty value removes the stored secret, and finding nothing to
/// remove counts as done. The first failure is reported and stops the save. Gives the
/// result and the receipts of the calls handed to the store.
pub fn save(grafana_token: &str, ai_key: &str) -> (r: (Result<(), String>, Vec<StoreReceipt>))
    ensures
        saved(save_calls(grafana_token@, ai_key@), r.0, r.1@),
        r.0 matches Err(e) ==> save_failure(grafana_token@, e@) || save_failure(ai_key@, e@),
{
    let plan = save_plan(grafana_token, ai_key);
    let ghost calls = save_calls(grafana_token@, ai_key@);
    let mut receipts: Vec<StoreReceipt> = Vec::new();
    let mut i: usize = 0;
    while i < plan.len()
        invariant
            i <= plan@.len(),
            plan@.len() == 2,
            step_for(plan@[0], GRAFANA_TOKEN@, grafana_token@),
            step_for(plan@[1], AI_KEY@, ai_key@),
            calls == save_calls(grafana_token@, ai_key@),
            receipts@.len() == i,
            receipt_calls(receipts@) == calls.take(i as int),
            forall|j: int| 0 <= j < i ==> #[trigger] settled(receipts@[j]),
        decreases plan.len() - i,
    {
        assert(call_for(step_name(plan@[i as int]), step_value(plan@[i as int])) == calls[i as int]);
        let (result, receipt) = apply_step(&plan[i]);
        let ghost before = receipts@;
        match receipt {
            Some(rc) => {
                receipts.push(rc);
                assert(receipt_calls(receipts@) =~= receipt_calls(before).push(calls[i as int]));
                assert(calls.take(i + 1) =~= calls.take(i as int).push(calls[i as int]));
            },
            None => {},
        }
        match result {
            Ok(()) => {},
            Err(e) => {
                assert(step_value(plan@[i as int]) == grafana_token@ || step_value(plan@[i as int])
                    == ai_key@);
                assert(save_failure(step_value(plan@[i as int]), e@)) by {
                    if receipts@.len() > i {
                        let rc = receipts@.last();
                        assert(rc.call() == call_for(step_name(plan@[i as int]), step_value(plan@[i as int])));
                    }
                }
                return (Err(e), receipts);
            },
        }
        i = i + 1;
    }
    assert(calls.take(2) =~= calls);
    (Ok(()), receipts)
}

} // verus!
