//! The error type of artifact validation and generation.
use vstd::prelude::*;
use crate::text::concat;

verus! {

/// Everything that can go wrong while validating and generating artifacts.
///
/// Paths are carried as text; the causes of I/O failures as the message of
/// the underlying error.
#[derive(Debug, Clone)]
pub enum ForgeError {
    UnsupportedArtifact { input: String, suggestion: String },
    InvalidName { name: String, reason: String },
    FileAlreadyExists { path: String },
    DirectoryCreation { path: String, source: String },
    FileWrite { path: String, source: String },
    TemplateRender { name: String, reason: String },
    TemplateNotFound { name: String },
    ConfigParse(String),
}

pub type ForgeResult<T> = Result<T, ForgeError>;

impl ForgeError {
    /// The text shown to the user for this error.
    pub open spec fn message_spec(&self) -> Seq<char> {
        match self {
            ForgeError::UnsupportedArtifact { input, suggestion } =>
                "Artifact type '"@ + input@ + "' is not supported\n "@ + suggestion@,
            ForgeError::InvalidName { name, reason } =>
                "Invalid artifact name '"@ + name@ + "': "@ + reason@,
            ForgeError::FileAlreadyExists { path } =>
                "File already exists at '"@ + path@ + "'\n Hint: use --force to overwrite"@,
            ForgeError::DirectoryCreation { path, source } =>
                "Failed to create directory '"@ + path@ + "': "@ + source@,
            ForgeError::FileWrite { path, source } =>
                "Failed to read '"@ + path@ + "': "@ + source@,
            ForgeError::TemplateRender { name, reason } =>
                "Template '"@ + name@ + "' failed to render: "@ + reason@,
            ForgeError::TemplateNotFound { name } =>
                "Template '"@ + name@ + "' not found"@,
            ForgeError::ConfigParse(msg) => "Config error: "@ + msg@,
        }
    }

    /// The text shown to the user for this error.
    pub fn message(&self) -> (res: String)
        ensures
            res@ == self.message_spec(),
    {
        match self {
            ForgeError::UnsupportedArtifact { input, suggestion } => {
                let s = concat("Artifact type '", input.as_str());
                let s = concat(s.as_str(), "' is not supported\n ");
                concat(s.as_str(), suggestion.as_str())
            },
            ForgeError::InvalidName { name, reason } => {
                let s = concat("Invalid artifact name '", name.as_str());
                let s = concat(s.as_str(), "': ");
                concat(s.as_str(), reason.as_str())
            },
            ForgeError::FileAlreadyExists { path } => {
                let s = concat("File already exists at '", path.as_str());
                concat(s.as_str(), "'\n Hint: use --force to overwrite")
            },
            ForgeError::DirectoryCreation { path, source } => {
                let s = concat("Failed to create directory '", path.as_str());
                let s = concat(s.as_str(), "': ");
                concat(s.as_str(), source.as_str())
            },
            ForgeError::FileWrite { path, source } => {
                let s = concat("Failed to read '", path.as_str());
                let s = concat(s.as_str(), "': ");
                concat(s.as_str(), source.as_str())
            },
            ForgeError::TemplateRender { name, reason } => {
                let s = concat("Template '", name.as_str());
                let s = concat(s.as_str(), "' failed to render: ");
                concat(s.as_str(), reason.as_str())
            },
            ForgeError::TemplateNotFound { name } => {
                let s = concat("Template '", name.as_str());
                concat(s.as_str(), "' not found")
            },
            ForgeError::ConfigParse(msg) => concat("Config error: ", msg.as_str()),
        }
    }
}

} // verus!
