//! What a file dialog is opened for.

use vstd::prelude::*;
use vstd::string::*;

verus! {

/// The purpose of a file dialog.
#[derive(Debug, Clone, Copy, PartialEq, Eq, Structural)]
pub enum DialogPurpose {
    OpenWorkspace,
    SaveWorkspace,
    ImportLibs,
    SavePython,
}

/// How a purpose picks files.
#[derive(Debug, Clone, Copy, PartialEq, Eq, Structural)]
pub enum PickMode {
    /// One file that exists.
    PickFile,
    /// Several files that exist.
    PickMultiple,
    /// One file to write.
    SaveFile,
}

impl DialogPurpose {
    /// How the dialog picks files.
    pub fn pick_mode(&self) -> (r: PickMode)
        ensures
            r == match *self {
                DialogPurpose::OpenWorkspace => PickMode::PickFile,
                DialogPurpose::SaveWorkspace => PickMode::SaveFile,
                DialogPurpose::ImportLibs => PickMode::PickMultiple,
                DialogPurpose::SavePython => PickMode::SaveFile,
            },
    {
        match self {
            DialogPurpose::OpenWorkspace => PickMode::PickFile,
            DialogPurpose::SaveWorkspace => PickMode::SaveFile,
            DialogPurpose::ImportLibs => PickMode::PickMultiple,
            DialogPurpose::SavePython => PickMode::SaveFile,
        }
    }

    /// The title of the dialog.
    pub fn title(&self) -> (r: String)
        ensures
            r@ == match *self {
                DialogPurpose::OpenWorkspace => "Open a Workspace"@,
                DialogPurpose::SaveWorkspace => "Save to a Workspace"@,
                DialogPurpose::ImportLibs => "Import a Library"@,
                DialogPurpose::SavePython => "Save to a Python File"@,
            },
    {
        match self {
            DialogPurpose::OpenWorkspace => String::from_str("Open a Workspace"),
            DialogPurpose::SaveWorkspace => String::from_str("Save to a Workspace"),
            DialogPurpose::ImportLibs => String::from_str("Import a Library"),
            DialogPurpose::SavePython => String::from_str("Save to a Python File"),
        }
    }

    /// The extension that a file is saved with where none is chosen; none
    /// for a dialog that saves nothing.
    pub fn default_save_extension(&self) -> (r: Option<String>)
        ensures
            match *self {
                DialogPurpose::SaveWorkspace => r is Some && r->Some_0@ == "no3"@,
                DialogPurpose::SavePython => r is Some && r->Some_0@ == "py"@,
                _ => r is None,
            },
    {
        match self {
            DialogPurpose::SaveWorkspace => Some(String::from_str("no3")),
            DialogPurpose::SavePython => Some(String::from_str("py")),
            _ => None,
        }
    }
}

/// Whether a file with the extension `extension` holds a compressed
/// workspace.
pub fn is_compressed_extension(extension: &str) -> (r: bool)
    ensures
        r == (extension@ == "no3zstd"@),
{
    crate::text::same_text(extension, "no3zstd")
}

} // verus!
