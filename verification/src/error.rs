use vstd::prelude::*;

verus! {

/// The failures the library and its collaborators report. Variants that
/// carry the text of an outside failure hold it as a plain message.
#[derive(Debug)]
pub enum CodingGameError {
    /// A request or response body could not be serialized or deserialized.
    SerializeError(String),
    /// The remote puzzle session protocol failed; the message is carried verbatim.
    ReqwestError(String),
    /// A local read or write failed; the message is carried verbatim.
    IOError(String),
    /// The templating engine refused a template or a rendering.
    TeraError(String),
    /// The directory a new project would be generated into already exists.
    PuzzleAlreadyExists(String),
    /// A referenced template name has no backing asset.
    AssetError(String),
    /// Fetched or asset bytes were not valid text.
    Utf8Error(String),
    /// The directory holds no project configuration file.
    NotACodingGamePuzzle(String),
    /// The project configuration file could not be read back.
    TomlDeserializationError(String),
}

} // verus!
