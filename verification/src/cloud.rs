//! Cloud backup: the lifetime of access tokens, the sign-in status and the
//! listing of what the drive holds.

use vstd::prelude::*;

use crate::clock::{current_timestamp, timestamp_text, timestamp_text_of};
use crate::text::{integer_of, parse_i64};

verus! {

/// Seconds before its expiry from which a token counts as expired.
pub const EXPIRY_MARGIN: i64 = 60;

/// The tokens kept between sessions.
#[derive(Clone, Debug)]
pub struct StoredTokens {
    pub access_token: String,
    pub refresh_token: String,
    /// Unix timestamp, in seconds, at which the access token expires.
    pub expires_at: i64,
    pub user_email: Option<String>,
}

/// What the token endpoint answers.
#[derive(Debug)]
pub struct TokenResponse {
    pub access_token: String,
    pub refresh_token: Option<String>,
    /// Lifetime of the access token in seconds.
    pub expires_in: i64,
}

/// Whether the user is signed in to the drive.
#[derive(Clone, Debug)]
pub struct AuthStatus {
    pub is_authenticated: bool,
    pub user_email: Option<String>,
    /// Expiry of the access token as an RFC 3339 date and time.
    pub expires_at: Option<String>,
}

/// A file as the drive lists it.
#[derive(Debug)]
pub struct DriveFile {
    pub id: String,
    pub name: String,
    pub created_time: Option<String>,
    /// Size in bytes, in decimal.
    pub size: Option<String>,
    pub mime_type: Option<String>,
}

/// One page of a drive listing.
#[derive(Debug)]
pub struct DriveFileList {
    pub files: Vec<DriveFile>,
}

/// A database backup on the drive.
#[derive(Clone, Debug)]
pub struct CloudBackup {
    pub id: String,
    pub name: String,
    pub created_at: String,
    pub size_bytes: i64,
}

/// A photo on the drive.
#[derive(Clone, Debug)]
pub struct CloudPhoto {
    pub id: String,
    pub name: String,
    pub folder: String,
    pub size_bytes: i64,
    pub created_at: Option<String>,
}

/// Whether a token that expires at `expires_at` counts as expired at `now`:
/// it does from [`EXPIRY_MARGIN`] seconds before its expiry.
pub open spec fn expiry_reached(expires_at: i64, now: i64) -> bool {
    now >= expires_at - EXPIRY_MARGIN
}

/// The expiry of a token issued at `now` with a lifetime of `expires_in`
/// seconds, held within the range of a timestamp.
pub open spec fn expiry_of(now: i64, expires_in: i64) -> i64 {
    if now + expires_in > i64::MAX {
        i64::MAX
    } else if now + expires_in < i64::MIN {
        i64::MIN
    } else {
        (now + expires_in) as i64
    }
}

/// Whether `tokens` count as expired at the Unix time `now`.
pub fn token_expired_at(tokens: &StoredTokens, now: i64) -> (expired: bool)
    ensures
        expired == expiry_reached(tokens.expires_at, now),
{
    if tokens.expires_at < i64::MIN + EXPIRY_MARGIN {
        true
    } else {
        now >= tokens.expires_at - EXPIRY_MARGIN
    }
}

/// Whether `tokens` count as expired by the system clock.
pub fn is_token_expired(tokens: &StoredTokens) -> (expired: bool)
    ensures
        exists|now: i64| now >= 0 && expired == #[trigger] expiry_reached(tokens.expires_at, now),
        tokens.expires_at <= EXPIRY_MARGIN ==> expired,
{
    let now = current_timestamp();
    let expired = token_expired_at(tokens, now);
    assert(expired == expiry_reached(tokens.expires_at, now));
    expired
}

/// Computes when a token issued at `now` expires.
pub fn expiry(now: i64, expires_in: i64) -> (expires_at: i64)
    ensures
        expires_at == expiry_of(now, expires_in),
{
    let sum: i128 = now as i128 + expires_in as i128;
    if sum > i64::MAX as i128 {
        i64::MAX
    } else if sum < i64::MIN as i128 {
        i64::MIN
    } else {
        sum as i64
    }
}

/// The tokens to keep after a refresh at `now`: the new access token with
/// its expiry, the refresh token and the e-mail address as before.
pub fn refreshed_tokens(
    tokens: StoredTokens,
    response: TokenResponse,
    now: i64,
) -> (renewed: StoredTokens)
    ensures
        renewed.access_token == response.access_token,
        renewed.refresh_token == tokens.refresh_token,
        renewed.expires_at == expiry_of(now, response.expires_in),
        renewed.user_email == tokens.user_email,
{
    StoredTokens {
        access_token: response.access_token,
        refresh_token: tokens.refresh_token,
        expires_at: expiry(now, response.expires_in),
        user_email: tokens.user_email,
    }
}

/// The tokens to keep after signing in at `now`; `None` where the endpoint
/// sent no refresh token.
pub fn issued_tokens(
    response: TokenResponse,
    user_email: Option<String>,
    now: i64,
) -> (issued: Option<StoredTokens>)
    ensures
        issued is Some <==> response.refresh_token is Some,
        issued matches Some(tokens) ==> {
            &&& tokens.access_token == response.access_token
            &&& Some(tokens.refresh_token) == response.refresh_token
            &&& tokens.expires_at == expiry_of(now, response.expires_in)
            &&& tokens.user_email == user_email
        },
{
    match response.refresh_token {
        Some(refresh_token) => Some(
            StoredTokens {
                access_token: response.access_token,
                refresh_token,
                expires_at: expiry(now, response.expires_in),
                user_email,
            },
        ),
        None => None,
    }
}

/// The sign-in status that usable tokens, or their absence, amount to.
pub fn auth_status_of(tokens: Option<StoredTokens>) -> (status: AuthStatus)
    ensures
        status.is_authenticated == tokens is Some,
        match tokens {
            Some(held) => {
                &&& status.user_email == held.user_email
                &&& status.expires_at matches Some(text)
                &&& text@ == timestamp_text_of(held.expires_at)
            },
            None => status.user_email is None && status.expires_at is None,
        },
{
    match tokens {
        Some(held) => AuthStatus {
            is_authenticated: true,
            user_email: held.user_email,
            expires_at: Some(timestamp_text(held.expires_at)),
        },
        None => AuthStatus { is_authenticated: false, user_email: None, expires_at: None },
    }
}

/// The size that a listing's size field stands for: the number it spells,
/// and zero where it is absent or spells none.
pub open spec fn size_of(size: Option<String>) -> i64 {
    match size {
        Some(text) => match integer_of(text@) {
            Some(bytes) => bytes,
            None => 0,
        },
        None => 0,
    }
}

/// Reads the size field of a listing.
pub fn size_in_bytes(size: &Option<String>) -> (bytes: i64)
    ensures
        bytes == size_of(*size),
{
    match size {
        Some(text) => match parse_i64(text.as_str()) {
            Some(bytes) => bytes,
            None => 0,
        },
        None => 0,
    }
}

/// Whether `backup` describes the listed file `file`.
pub open spec fn describes_backup(backup: CloudBackup, file: DriveFile) -> bool {
    &&& backup.id == file.id
    &&& backup.name == file.name
    &&& backup.created_at@ == match file.created_time {
        Some(time) => time@,
        None => Seq::<char>::empty(),
    }
    &&& backup.size_bytes == size_of(file.size)
}

/// Whether `photo` describes the listed file `file` found in `folder`.
pub open spec fn describes_photo(photo: CloudPhoto, file: DriveFile, folder: Seq<char>) -> bool {
    &&& photo.id == file.id
    &&& photo.name == file.name
    &&& photo.folder@ == folder
    &&& photo.size_bytes == size_of(file.size)
    &&& photo.created_at == file.created_time
}

/// The backup that a listed file describes.
pub fn cloud_backup_of(file: DriveFile) -> (backup: CloudBackup)
    ensures
        describes_backup(backup, file),
{
    let size_bytes = size_in_bytes(&file.size);
    CloudBackup {
        id: file.id,
        name: file.name,
        created_at: match file.created_time {
            Some(time) => time,
            None => String::new(),
        },
        size_bytes,
    }
}

/// The photo that a file listed in `folder` describes.
pub fn cloud_photo_of(file: DriveFile, folder: &str) -> (photo: CloudPhoto)
    ensures
        describes_photo(photo, file, folder@),
{
    let size_bytes = size_in_bytes(&file.size);
    CloudPhoto {
        id: file.id,
        name: file.name,
        folder: folder.to_owned(),
        size_bytes,
        created_at: file.created_time,
    }
}

/// The backups that a listing describes, in the order of the listing.
pub fn cloud_backups_of(list: DriveFileList) -> (backups: Vec<CloudBackup>)
    ensures
        backups@.len() == list.files@.len(),
        forall|i: int|
            0 <= i < backups@.len() ==> describes_backup(#[trigger] backups@[i], list.files@[i]),
{
    let mut files = list.files;
    let ghost listed = files@;
    let mut reversed: Vec<CloudBackup> = Vec::new();
    while files.len() > 0
        invariant
            files@.len() + reversed@.len() == listed.len(),
            forall|i: int| 0 <= i < files@.len() ==> files@[i] == listed[i],
            forall|k: int|
                0 <= k < reversed@.len() ==> describes_backup(
                    #[trigger] reversed@[k],
                    listed[listed.len() - 1 - k],
                ),
        decreases files@.len(),
    {
        match files.pop() {
            Some(file) => {
                let backup = cloud_backup_of(file);
                reversed.push(backup);
            },
            None => {},
        }
    }
    let mut backups: Vec<CloudBackup> = Vec::new();
    while reversed.len() > 0
        invariant
            backups@.len() + reversed@.len() == listed.len(),
            forall|k: int|
                0 <= k < reversed@.len() ==> describes_backup(
                    #[trigger] reversed@[k],
                    listed[listed.len() - 1 - k],
                ),
            forall|i: int| 0 <= i < backups@.len() ==> describes_backup(#[trigger] backups@[i], listed[i]),
        decreases reversed@.len(),
    {
        match reversed.pop() {
            Some(backup) => {
                backups.push(backup);
            },
            None => {},
        }
    }
    backups
}

} // verus!
