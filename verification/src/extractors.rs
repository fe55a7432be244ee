use vstd::prelude::*;
use crate::error::AppError;

verus! {

/// An audio file uploaded in a multipart form.
#[derive(Debug, Clone)]
pub struct AudioUpload {
    pub file_name: String,
    pub content_type: String,
    pub data: Vec<u8>,
}

pub open spec fn internal_error(e: AppError, m: Seq<char>) -> bool {
    e matches AppError::InternalServerError(x) && x@ == m
}

impl AudioUpload {
    /// Only the form field named `file` carries the upload.
    pub fn is_upload_field(name: Option<&str>) -> (b: bool)
        ensures
            b == (name matches Some(n) && n@ == "file"@),
    {
        match name {
            Some(n) => crate::text::str_equal(n, "file"),
            None => false,
        }
    }

    /// The upload from the `file` field: unnamed files are called `upload.audio`, and
    /// files without a content type are `application/octet-stream`.
    pub fn from_field(file_name: Option<String>, content_type: Option<String>, data: Vec<u8>) -> (u:
        AudioUpload)
        ensures
            u.file_name@ == (match file_name {
                Some(f) => f@,
                None => "upload.audio"@,
            }),
            u.content_type@ == (match content_type {
                Some(c) => c@,
                None => "application/octet-stream"@,
            }),
            u.data == data,
    {
        AudioUpload {
            file_name: match file_name {
                Some(f) => f,
                None => String::from_str("upload.audio"),
            },
            content_type: match content_type {
                Some(c) => c,
                None => String::from_str("application/octet-stream"),
            },
            data,
        }
    }

    /// The error when the request body cannot be read as a multipart form.
    pub fn unreadable_form() -> (e: AppError)
        ensures
            internal_error(e, "Failed to read upload stream"@),
    {
        AppError::InternalServerError(String::from_str("Failed to read upload stream"))
    }

    /// The error when the next part of the form cannot be read.
    pub fn unreadable_part() -> (e: AppError)
        ensures
            internal_error(e, "Failed to read stream chunk"@),
    {
        AppError::InternalServerError(String::from_str("Failed to read stream chunk"))
    }

    /// The error when the bytes of the file cannot be read.
    pub fn unreadable_bytes() -> (e: AppError)
        ensures
            internal_error(e, "Failed to extract bytes"@),
    {
        AppError::InternalServerError(String::from_str("Failed to extract bytes"))
    }

    /// The error when the form has no `file` field.
    pub fn missing_file_field() -> (e: AppError)
        ensures
            internal_error(e, "No 'file' field found in form"@),
    {
        AppError::InternalServerError(String::from_str("No 'file' field found in form"))
    }
}

} // verus!
