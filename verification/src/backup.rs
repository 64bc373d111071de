//! The backup client's view of the remote key-value store: one fixed
//! logical key, a save that either lands or fails, and a load whose
//! "not found" answer is an expected outcome, not an error.

use vstd::prelude::*;

use crate::broker::{is_success, reply_model, HttpReply, ReplyModel};
use crate::codec::string_field_spec;
use crate::str_bytes;
use crate::txt;

verus! {

/// The fixed logical key this deployment saves its state blob under.
pub fn state_key() -> (r: Vec<u8>)
    ensures
        r@ == txt("wasmtime_game_state"@),
{
    str_bytes("wasmtime_game_state")
}

/// What a load from the backup store came to.
pub enum BackupLoadResult {
    /// A 2xx reply whose envelope carried the serialized state.
    Blob(Vec<u8>),
    /// A 404-class reply (404 or 405): no state saved yet, an
    /// expected outcome.
    NotFound,
    /// Transport failure, another non-2xx status, or a 2xx reply
    /// without the expected field.
    Error,
}

/// Mathematical image of a load result.
pub enum BackupLoadModel {
    Blob(Seq<u8>),
    NotFound,
    Error,
}

impl View for BackupLoadResult {
    type V = BackupLoadModel;

    open spec fn view(&self) -> BackupLoadModel {
        match self {
            BackupLoadResult::Blob(b) => BackupLoadModel::Blob(b@),
            BackupLoadResult::NotFound => BackupLoadModel::NotFound,
            BackupLoadResult::Error => BackupLoadModel::Error,
        }
    }
}

/// How a load reply is read: a 404-class status (404 or 405) means the
/// resource is absent; any other non-2xx, a transport failure or a
/// missing `state_data` field is an error; a 2xx reply yields the
/// `state_data` string.
pub open spec fn backup_load_spec(reply: Option<ReplyModel>) -> BackupLoadModel {
    match reply {
        None => BackupLoadModel::Error,
        Some(rep) => if rep.status == 404 || rep.status == 405 {
            BackupLoadModel::NotFound
        } else if !is_success(rep.status) {
            BackupLoadModel::Error
        } else {
            match string_field_spec(rep.body, "state_data"@) {
                Some(b) => BackupLoadModel::Blob(b),
                None => BackupLoadModel::Error,
            }
        },
    }
}

/// Classifies a backup-load reply.
pub fn classify_backup_load(reply: Option<HttpReply>) -> (r: BackupLoadResult)
    ensures
        r@ == backup_load_spec(reply_model(reply)),
{
    let rep = match reply {
        None => {
            return BackupLoadResult::Error;
        },
        Some(rep) => rep,
    };
    if rep.status == 404 || rep.status == 405 {
        return BackupLoadResult::NotFound;
    }
    if !(200 <= rep.status && rep.status < 300) {
        return BackupLoadResult::Error;
    }
    match crate::codec::extract_string_field(&rep.body, "state_data") {
        Some(b) => BackupLoadResult::Blob(b),
        None => BackupLoadResult::Error,
    }
}

/// A save landed exactly when the reply is a 2xx status.
pub open spec fn backup_save_ok_spec(reply: Option<ReplyModel>) -> bool {
    match reply {
        Some(rep) => is_success(rep.status),
        None => false,
    }
}

/// Classifies a backup-save reply.
pub fn backup_save_ok(reply: &Option<HttpReply>) -> (r: bool)
    ensures
        r == backup_save_ok_spec(reply_model(*reply)),
{
    match reply {
        Some(rep) => 200 <= rep.status && rep.status < 300,
        None => false,
    }
}

} // verus!
