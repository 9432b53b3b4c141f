//! Centralized error handling for the build pipeline.
//!
//! Paths and underlying causes are carried as plain strings; `message`
//! renders the user-facing description of each failure.

use vstd::prelude::*;
use vstd::string::*;

verus! {

/// Application-wide error type.
#[derive(Debug)]
pub enum Error {
    /// A file could not be read; carries the path and the cause.
    FileRead { path: String, message: String },
    /// A file could not be written; carries the path and the cause.
    FileWrite { path: String, message: String },
    /// A directory could not be created; carries the path and the cause.
    CreateDir { path: String, message: String },
    /// A directory could not be listed; carries the path and the cause.
    ReadDir { path: String, message: String },
    /// A required file is absent.
    NotFound(String),
    /// The current working directory could not be determined.
    CurrentDir(String),
    /// The deck manifest file is absent.
    DecksNotFound,
    /// The deck manifest is structurally invalid.
    DecksParseError(String),
    /// The named deck is not declared in the manifest.
    DeckNotFound(String),
    /// The named deck resolved to an empty slide collection.
    NoSlides(String),
    /// The locale's translation file is absent.
    TranslationNotFound(String),
    /// A translation document could not be parsed.
    YamlParse { path: String, message: String },
    /// A template is not registered in the environment.
    TemplateNotFound(String),
    /// A template failed to render.
    TemplateRender { template: String, message: String },
    /// Project initialization requires an empty directory.
    DirNotEmpty,
    /// The target directory for a new project already exists.
    DirExists(String),
    /// The thumbnail directory is absent.
    ThumbnailsNotFound,
    /// The thumbnail directory holds no images.
    NoThumbnails,
    /// The PDF document could not be assembled.
    PdfGeneration(String),
    /// The PDF document could not be encrypted.
    PdfEncryption(String),
    /// The browser collaborator failed.
    Browser(String),
    /// The archive is not a valid presentation archive.
    InvalidPptx(String),
    /// The archive could not be read.
    ZipError(String),
    /// The filesystem watcher could not be initialized.
    WatcherInit(String),
    /// A path could not be watched; carries the path and the cause.
    WatchPath { path: String, message: String },
}

impl Error {
    /// The user-facing description of this error.
    pub open spec fn spec_message(&self) -> Seq<char> {
        match self {
            Error::FileRead { path, message } => "Could not read file '"@ + path@ + "': "@
                + message@,
            Error::FileWrite { path, message } => "Could not write file '"@ + path@ + "': "@
                + message@,
            Error::CreateDir { path, message } => "Could not create directory '"@ + path@ + "': "@
                + message@,
            Error::ReadDir { path, message } => "Could not read directory '"@ + path@ + "': "@
                + message@,
            Error::NotFound(path) => "File not found: "@ + path@,
            Error::CurrentDir(message) => "Could not get current directory: "@ + message@,
            Error::DecksNotFound => "decks.yaml not found"@,
            Error::DecksParseError(message) => "Error parsing decks.yaml: "@ + message@,
            Error::DeckNotFound(name) => "Deck '"@ + name@ + "' not found in decks.yaml"@,
            Error::NoSlides(name) => "No slides found for deck '"@ + name@ + "'"@,
            Error::TranslationNotFound(path) => "Translation file not found: "@ + path@,
            Error::YamlParse { path, message } => "YAML parse error in '"@ + path@ + "': "@
                + message@,
            Error::TemplateNotFound(name) => "Template '"@ + name@ + "' not found"@,
            Error::TemplateRender { template, message } => "Error rendering template '"@
                + template@ + "': "@ + message@,
            Error::DirNotEmpty => "Directory is not empty. 'slides init' requires an empty directory."@,
            Error::DirExists(path) => "Directory '"@ + path@ + "' already exists"@,
            Error::ThumbnailsNotFound => "Thumbnails not found. Run 'slides build' first."@,
            Error::NoThumbnails => "No thumbnails found in output/thumbnails/"@,
            Error::PdfGeneration(message) => "PDF generation error: "@ + message@,
            Error::PdfEncryption(message) => "PDF encryption error: "@ + message@,
            Error::Browser(message) => "Browser error: "@ + message@,
            Error::InvalidPptx(message) => "Invalid PPTX file: "@ + message@,
            Error::ZipError(message) => "ZIP error: "@ + message@,
            Error::WatcherInit(message) => "Could not initialize file watcher: "@ + message@,
            Error::WatchPath { path, message } => "Could not watch path '"@ + path@ + "': "@
                + message@,
        }
    }

    /// Render the user-facing description.
    pub fn message(&self) -> (r: String)
        ensures
            r@ == self.spec_message(),
    {
        match self {
            Error::FileRead { path, message } => Self::wrapped(
                "Could not read file '",
                path,
                "': ",
                message,
            ),
            Error::FileWrite { path, message } => Self::wrapped(
                "Could not write file '",
                path,
                "': ",
                message,
            ),
            Error::CreateDir { path, message } => Self::wrapped(
                "Could not create directory '",
                path,
                "': ",
                message,
            ),
            Error::ReadDir { path, message } => Self::wrapped(
                "Could not read directory '",
                path,
                "': ",
                message,
            ),
            Error::NotFound(path) => Self::prefixed("File not found: ", path),
            Error::CurrentDir(message) => Self::prefixed(
                "Could not get current directory: ",
                message,
            ),
            Error::DecksNotFound => ("decks.yaml not found").to_owned(),
            Error::DecksParseError(message) => Self::prefixed(
                "Error parsing decks.yaml: ",
                message,
            ),
            Error::DeckNotFound(name) => Self::surrounded(
                "Deck '",
                name,
                "' not found in decks.yaml",
            ),
            Error::NoSlides(name) => Self::surrounded("No slides found for deck '", name, "'"),
            Error::TranslationNotFound(path) => Self::prefixed(
                "Translation file not found: ",
                path,
            ),
            Error::YamlParse { path, message } => Self::wrapped(
                "YAML parse error in '",
                path,
                "': ",
                message,
            ),
            Error::TemplateNotFound(name) => Self::surrounded("Template '", name, "' not found"),
            Error::TemplateRender { template, message } => Self::wrapped(
                "Error rendering template '",
                template,
                "': ",
                message,
            ),
            Error::DirNotEmpty => (
            "Directory is not empty. 'slides init' requires an empty directory.").to_owned(),
            Error::DirExists(path) => Self::surrounded("Directory '", path, "' already exists"),
            Error::ThumbnailsNotFound => ("Thumbnails not found. Run 'slides build' first.").to_owned(),
            Error::NoThumbnails => ("No thumbnails found in output/thumbnails/").to_owned(),
            Error::PdfGeneration(message) => Self::prefixed("PDF generation error: ", message),
            Error::PdfEncryption(message) => Self::prefixed("PDF encryption error: ", message),
            Error::Browser(message) => Self::prefixed("Browser error: ", message),
            Error::InvalidPptx(message) => Self::prefixed("Invalid PPTX file: ", message),
            Error::ZipError(message) => Self::prefixed("ZIP error: ", message),
            Error::WatcherInit(message) => Self::prefixed(
                "Could not initialize file watcher: ",
                message,
            ),
            Error::WatchPath { path, message } => Self::wrapped(
                "Could not watch path '",
                path,
                "': ",
                message,
            ),
        }
    }

    /// `prefix` followed by `rest`.
    fn prefixed(prefix: &str, rest: &String) -> (r: String)
        ensures
            r@ == prefix@ + rest@,
    {
        let mut m = prefix.to_owned();
        m.append(rest.as_str());
        m
    }

    /// `first`, then `mid`, then `last`.
    fn surrounded(first: &str, mid: &String, last: &str) -> (r: String)
        ensures
            r@ == first@ + mid@ + last@,
    {
        let mut m = first.to_owned();
        m.append(mid.as_str());
        m.append(last);
        m
    }

    /// `p1`, `mid1`, `p2`, `mid2` in order.
    fn wrapped(p1: &str, mid1: &String, p2: &str, mid2: &String) -> (r: String)
        ensures
            r@ == p1@ + mid1@ + p2@ + mid2@,
    {
        let mut m = p1.to_owned();
        m.append(mid1.as_str());
        m.append(p2);
        m.append(mid2.as_str());
        m
    }
}

} // verus!
