//! The errors the application reports.

use vstd::prelude::*;
use vstd::string::StringExecFns;

use crate::store::RecordError;

verus! {

/// An error of the application, by the part that failed, with its message.
#[derive(Debug)]
pub enum AppError {
    Database(String),
    NotFound(String),
    Validation(String),
    FileSystem(String),
    ImageProcessing(String),
    GoogleDrive(String),
    Migration(String),
}

/// The tag under which an error is reported to the front end.
pub open spec fn kind_of(error: AppError) -> Seq<char> {
    match error {
        AppError::Database(_) => "database"@,
        AppError::NotFound(_) => "not_found"@,
        AppError::Validation(_) => "validation"@,
        AppError::FileSystem(_) => "file_system"@,
        AppError::ImageProcessing(_) => "image_processing"@,
        AppError::GoogleDrive(_) => "google_drive"@,
        AppError::Migration(_) => "migration"@,
    }
}

/// The message an error carries.
pub open spec fn message_of(error: AppError) -> Seq<char> {
    match error {
        AppError::Database(message) => message@,
        AppError::NotFound(message) => message@,
        AppError::Validation(message) => message@,
        AppError::FileSystem(message) => message@,
        AppError::ImageProcessing(message) => message@,
        AppError::GoogleDrive(message) => message@,
        AppError::Migration(message) => message@,
    }
}

impl AppError {
    /// The tag under which the error is reported to the front end.
    pub fn kind(&self) -> (tag: &'static str)
        ensures
            tag@ == kind_of(*self),
    {
        match self {
            AppError::Database(_) => "database",
            AppError::NotFound(_) => "not_found",
            AppError::Validation(_) => "validation",
            AppError::FileSystem(_) => "file_system",
            AppError::ImageProcessing(_) => "image_processing",
            AppError::GoogleDrive(_) => "google_drive",
            AppError::Migration(_) => "migration",
        }
    }

    /// The message the error carries.
    pub fn message(&self) -> (message: &str)
        ensures
            message@ == message_of(*self),
    {
        match self {
            AppError::Database(message) => message.as_str(),
            AppError::NotFound(message) => message.as_str(),
            AppError::Validation(message) => message.as_str(),
            AppError::FileSystem(message) => message.as_str(),
            AppError::ImageProcessing(message) => message.as_str(),
            AppError::GoogleDrive(message) => message.as_str(),
            AppError::Migration(message) => message.as_str(),
        }
    }
}

/// Reports a refusal of the result store as an application error: an
/// unresolved reference as `NotFound`, anything else as `Database`.
pub fn report(error: RecordError) -> (reported: AppError)
    ensures
        match error {
            RecordError::ReferenceNotFound => reported is NotFound && message_of(reported)
                == "athlete or discipline not on file"@,
            RecordError::StoreError => reported is Database && message_of(reported)
                == "the result store refused the request"@,
        },
{
    match error {
        RecordError::ReferenceNotFound => AppError::NotFound(
            String::from_str("athlete or discipline not on file"),
        ),
        RecordError::StoreError => AppError::Database(
            String::from_str("the result store refused the request"),
        ),
    }
}

} // verus!
