use vstd::prelude::*;
use vstd::string::*;

use crate::documents::types::str_eq;
use crate::error::AshkorixError;
use crate::extensions::types::{ExtensionManifest, ExtensionPermissions};
use crate::text::{chars_of, contains, contains_chars};

verus! {

/// The error a manifest is refused with, if any: a missing id, a kind other than `importer`,
/// or the network permission.
pub open spec fn manifest_problem(m: ExtensionManifest) -> Option<Seq<char>> {
    if m.id@.len() == 0 {
        Some("missing id"@)
    } else if m.kind@ != "importer"@ {
        Some("unsupported kind: "@ + m.kind@)
    } else if m.permissions.network {
        Some("network permission not allowed in local-only mode"@)
    } else {
        None
    }
}

/// Accepts an importer manifest with an id and without network access; refuses any other
/// with an extension error saying why.
pub fn validate_manifest(manifest: &ExtensionManifest) -> (r: Result<(), AshkorixError>)
    ensures
        match manifest_problem(*manifest) {
            None => r is Ok,
            Some(msg) => r matches Err(AshkorixError::Extension(m)) && m@ == msg,
        },
{
    let id = chars_of(manifest.id.as_str());
    if id.len() == 0 {
        return Err(AshkorixError::Extension(String::from_str("missing id")));
    }
    if !str_eq(manifest.kind.as_str(), "importer") {
        let mut m = String::from_str("unsupported kind: ");
        m.append(manifest.kind.as_str());
        return Err(AshkorixError::Extension(m));
    }
    if manifest.permissions.network {
        return Err(
            AshkorixError::Extension(
                String::from_str("network permission not allowed in local-only mode"),
            ),
        );
    }
    Ok(())
}

/// Refuses manifest text that grants the network permission literally
/// (`network = true`).
pub fn validate_no_network_in_raw(content: &str) -> (r: Result<(), AshkorixError>)
    ensures
        contains(content@, "network = true"@) ==> (r matches Err(AshkorixError::Extension(m)) && m@
            == "network permission not allowed"@),
        !contains(content@, "network = true"@) ==> r is Ok,
{
    let c = chars_of(content);
    let p = chars_of("network = true");
    if contains_chars(c.as_slice(), p.as_slice()) {
        return Err(AshkorixError::Extension(String::from_str("network permission not allowed")));
    }
    Ok(())
}

/// The manifest of a built-in importer: version `0.1.0`, kind `importer`, runtime `builtin`,
/// the given extensions, no MIME types, and permission to read its input file only.
pub fn default_builtin_manifest(id: &str, name: &str, extensions: &[String]) -> (r: ExtensionManifest)
    ensures
        r.id@ == id@,
        r.name@ == name@,
        r.version@ == "0.1.0"@,
        r.kind@ == "importer"@,
        r.runtime@ == "builtin"@,
        r.supported_extensions@.map_values(|s: String| s@) == extensions@.map_values(|s: String| s@),
        r.supported_mime_types@.len() == 0,
        r.permissions.read_input_file,
        !r.permissions.write_temp_files,
        !r.permissions.network,
{
    let mut exts: Vec<String> = Vec::new();
    let mut i: usize = 0;
    while i < extensions.len()
        invariant
            i <= extensions@.len(),
            exts@.map_values(|s: String| s@) == extensions@.map_values(|s: String| s@).take(i as int),
        decreases extensions@.len() - i,
    {
        let ghost before = exts@.map_values(|s: String| s@);
        exts.push(extensions[i].clone());
        assert(exts@.map_values(|s: String| s@) =~= before.push(extensions@[i as int]@));
        assert(extensions@.map_values(|s: String| s@).take(i as int + 1) =~= extensions@.map_values(
            |s: String| s@,
        ).take(i as int).push(extensions@[i as int]@));
        i += 1;
    }
    assert(extensions@.map_values(|s: String| s@).take(extensions@.len() as int) =~= extensions@.map_values(
        |s: String| s@,
    ));
    ExtensionManifest {
        id: String::from_str(id),
        name: String::from_str(name),
        version: String::from_str("0.1.0"),
        kind: String::from_str("importer"),
        runtime: String::from_str("builtin"),
        supported_extensions: exts,
        supported_mime_types: Vec::new(),
        permissions: ExtensionPermissions { read_input_file: true, write_temp_files: false, network: false },
    }
}

} // verus!
