//! Typed failures: the renderer's own error kinds and the service-level
//! error type they are lifted into, with the fixed mapping of each kind
//! to a machine-readable tag and an HTTP status code.

use vstd::prelude::*;

verus! {

/// A terminal failure of one render call.
#[derive(Debug)]
pub enum RendererError {
    /// A source or template file could not be read.
    FileReadError { path: String },
    /// A file could not be written; unused by the render path itself.
    FileWriteError { path: String },
    /// The grammar rejected the input or the parser returned nothing.
    MarkdownParseError,
    /// The parser could not be bound to the Markdown grammar.
    LanguageError,
    /// Reserved for template failures.
    TemplateError(String),
    /// The requested path would escape the content root.
    InvalidPathError(String),
    /// Reserved for a strict mode that requires certain metadata.
    MissingMetadataError(String),
}

/// A service-level error.
#[derive(Debug)]
pub enum ApiError {
    InternalError(String),
    NotFound(String),
    BadRequest(String),
    Unauthorized(String),
    Forbidden(String),
    ValidationError(String),
    RendererError(RendererError),
}

impl From<RendererError> for ApiError {
    fn from(e: RendererError) -> (r: ApiError) {
        ApiError::RendererError(e)
    }
}

impl vstd::std_specs::convert::FromSpecImpl<RendererError> for ApiError {
    open spec fn obeys_from_spec() -> bool {
        true
    }

    open spec fn from_spec(e: RendererError) -> ApiError {
        ApiError::RendererError(e)
    }
}

/// The machine-readable tag of each error kind.
pub open spec fn spec_error_type(e: ApiError) -> Seq<char> {
    match e {
        ApiError::InternalError(_) => "INTERNAL_ERROR"@,
        ApiError::NotFound(_) => "NOT_FOUND"@,
        ApiError::BadRequest(_) => "BAD_REQUEST"@,
        ApiError::Unauthorized(_) => "UNAUTHORIZED"@,
        ApiError::Forbidden(_) => "FORBIDDEN"@,
        ApiError::ValidationError(_) => "VALIDATION_ERROR"@,
        ApiError::RendererError(err) => match err {
            RendererError::FileReadError { .. } => "FILE_READ_ERROR"@,
            RendererError::FileWriteError { .. } => "FILE_WRITE_ERROR"@,
            RendererError::MarkdownParseError => "MARKDOWN_PARSE_ERROR"@,
            RendererError::LanguageError => "LANGUAGE_ERROR"@,
            RendererError::TemplateError(_) => "TEMPLATE_ERROR"@,
            RendererError::InvalidPathError(_) => "INVALID_PATH_ERROR"@,
            RendererError::MissingMetadataError(_) => "MISSING_METADATA_ERROR"@,
        },
    }
}

/// The HTTP status code each error kind maps to: missing files and bad
/// paths are not-found, malformed input is a bad request, the rest are
/// internal failures.
pub open spec fn spec_status_code(e: ApiError) -> u16 {
    match e {
        ApiError::InternalError(_) => 500,
        ApiError::NotFound(_) => 404,
        ApiError::BadRequest(_) => 400,
        ApiError::Unauthorized(_) => 401,
        ApiError::Forbidden(_) => 403,
        ApiError::ValidationError(_) => 422,
        ApiError::RendererError(err) => match err {
            RendererError::FileReadError { .. } => 404,
            RendererError::FileWriteError { .. } => 500,
            RendererError::MarkdownParseError => 400,
            RendererError::LanguageError => 500,
            RendererError::TemplateError(_) => 500,
            RendererError::InvalidPathError(_) => 404,
            RendererError::MissingMetadataError(_) => 400,
        },
    }
}

impl ApiError {
    pub fn error_type(&self) -> (r: String)
        ensures
            r@ == spec_error_type(*self),
    {
        let tag = match self {
            ApiError::InternalError(_) => "INTERNAL_ERROR",
            ApiError::NotFound(_) => "NOT_FOUND",
            ApiError::BadRequest(_) => "BAD_REQUEST",
            ApiError::Unauthorized(_) => "UNAUTHORIZED",
            ApiError::Forbidden(_) => "FORBIDDEN",
            ApiError::ValidationError(_) => "VALIDATION_ERROR",
            ApiError::RendererError(err) => match err {
                RendererError::FileReadError { .. } => "FILE_READ_ERROR",
                RendererError::FileWriteError { .. } => "FILE_WRITE_ERROR",
                RendererError::MarkdownParseError => "MARKDOWN_PARSE_ERROR",
                RendererError::LanguageError => "LANGUAGE_ERROR",
                RendererError::TemplateError(_) => "TEMPLATE_ERROR",
                RendererError::InvalidPathError(_) => "INVALID_PATH_ERROR",
                RendererError::MissingMetadataError(_) => "MISSING_METADATA_ERROR",
            },
        };
        String::from_str(tag)
    }

    pub fn status_code(&self) -> (r: u16)
        ensures
            r == spec_status_code(*self),
    {
        match self {
            ApiError::InternalError(_) => 500,
            ApiError::NotFound(_) => 404,
            ApiError::BadRequest(_) => 400,
            ApiError::Unauthorized(_) => 401,
            ApiError::Forbidden(_) => 403,
            ApiError::ValidationError(_) => 422,
            ApiError::RendererError(err) => match err {
                RendererError::FileReadError { .. } => 404,
                RendererError::FileWriteError { .. } => 500,
                RendererError::MarkdownParseError => 400,
                RendererError::LanguageError => 500,
                RendererError::TemplateError(_) => 500,
                RendererError::InvalidPathError(_) => 404,
                RendererError::MissingMetadataError(_) => 400,
            },
        }
    }

    pub fn internal_error(message: &str) -> (r: ApiError)
        ensures
            r matches ApiError::InternalError(m) && m@ == message@,
    {
        ApiError::InternalError(String::from_str(message))
    }

    pub fn not_found(message: &str) -> (r: ApiError)
        ensures
            r matches ApiError::NotFound(m) && m@ == message@,
    {
        ApiError::NotFound(String::from_str(message))
    }

    pub fn bad_request(message: &str) -> (r: ApiError)
        ensures
            r matches ApiError::BadRequest(m) && m@ == message@,
    {
        ApiError::BadRequest(String::from_str(message))
    }

    pub fn unauthorized(message: &str) -> (r: ApiError)
        ensures
            r matches ApiError::Unauthorized(m) && m@ == message@,
    {
        ApiError::Unauthorized(String::from_str(message))
    }

    pub fn forbidden(message: &str) -> (r: ApiError)
        ensures
            r matches ApiError::Forbidden(m) && m@ == message@,
    {
        ApiError::Forbidden(String::from_str(message))
    }

    pub fn validation_error(message: &str) -> (r: ApiError)
        ensures
            r matches ApiError::ValidationError(m) && m@ == message@,
    {
        ApiError::ValidationError(String::from_str(message))
    }
}

} // verus!
