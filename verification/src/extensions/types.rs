use vstd::prelude::*;

verus! {

/// What an extension may do.
#[derive(Clone, Copy, Debug)]
pub struct ExtensionPermissions {
    pub read_input_file: bool,
    pub write_temp_files: bool,
    pub network: bool,
}

/// The manifest an extension declares itself with.
#[derive(Clone, Debug)]
pub struct ExtensionManifest {
    pub id: String,
    pub name: String,
    pub version: String,
    pub kind: String,
    pub runtime: String,
    pub supported_extensions: Vec<String>,
    pub supported_mime_types: Vec<String>,
    pub permissions: ExtensionPermissions,
}

/// An extension as the host lists it.
#[derive(Clone, Debug)]
pub struct ExtensionInfo {
    pub id: String,
    pub name: String,
    pub version: String,
    pub kind: String,
    pub runtime: String,
    pub supported_extensions: Vec<String>,
    pub permissions: ExtensionPermissions,
    pub enabled: bool,
    pub builtin: bool,
}

} // verus!
