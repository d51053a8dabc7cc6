use vstd::prelude::*;
use vstd::string::*;

use crate::documents::importers::ImporterInfo;
use crate::error::AshkorixError;
use crate::extensions::manifest::default_builtin_manifest;
use crate::extensions::types::{ExtensionInfo, ExtensionManifest};
use crate::text::{chars_eq, chars_of};

verus! {

/// Manages the importer extensions: which are known, which are switched off, and a log of
/// what happened.
pub struct AshkorixExtensionHost {
    pub extensions_dir: String,
    manifests: Vec<ExtensionInfo>,
    disabled: Vec<String>,
    audit_log: Vec<String>,
}

/// The host's operations that callers use.
pub trait ExtensionHost {
    /// The known extensions, each marked enabled unless it was switched off.
    fn list_extensions(&self) -> Vec<ExtensionInfo>;

    /// Whether the importer with the id is switched on.
    fn is_importer_enabled(&self, importer_id: &str) -> bool;

    /// Switches the extension with the id on or off.
    fn set_enabled(&mut self, id: &str, enabled: bool) -> Result<(), AshkorixError>;
}

/// The ids of the switched-off extensions.
pub open spec fn ids_view(v: Seq<String>) -> Seq<Seq<char>> {
    v.map_values(|s: String| s@)
}

impl AshkorixExtensionHost {
    /// The ids switched off.
    pub closed spec fn disabled_ids(&self) -> Set<Seq<char>> {
        ids_view(self.disabled@).to_set()
    }

    /// The extensions directory.
    pub closed spec fn dir(&self) -> Seq<char> {
        self.extensions_dir@
    }

    /// The known extensions.
    pub closed spec fn known(&self) -> Seq<ExtensionInfo> {
        self.manifests@
    }

    /// The log lines.
    pub closed spec fn log(&self) -> Seq<Seq<char>> {
        ids_view(self.audit_log@)
    }

    /// Each switched-off id is held once.
    pub closed spec fn well_formed(&self) -> bool {
        ids_view(self.disabled@).no_duplicates()
    }

    /// A host for the extensions directory, with nothing known, switched off or logged.
    pub fn new(extensions_dir: String) -> (r: AshkorixExtensionHost)
        ensures
            r.well_formed(),
            r.dir() == extensions_dir@,
            r.known().len() == 0,
            r.disabled_ids() == Set::<Seq<char>>::empty(),
            r.log().len() == 0,
    {
        let r = AshkorixExtensionHost {
            extensions_dir,
            manifests: Vec::new(),
            disabled: Vec::new(),
            audit_log: Vec::new(),
        };
        assert(ids_view(r.disabled@) =~= Seq::<Seq<char>>::empty());
        assert(ids_view(r.disabled@).to_set() =~= Set::<Seq<char>>::empty());
        assert(ids_view(r.audit_log@) =~= Seq::<Seq<char>>::empty());
        r
    }

    /// The log of what the host did.
    pub fn audit_log(&self) -> (r: &Vec<String>)
        ensures
            ids_view(r@) == self.log(),
    {
        &self.audit_log
    }

    /// Where the id is among the switched-off ids.
    fn disabled_index(&self, id: &str) -> (r: Option<usize>)
        ensures
            match r {
                Some(i) => i < self.disabled@.len() && self.disabled@[i as int]@ == id@,
                None => !self.disabled_ids().contains(id@),
            },
    {
        let target = chars_of(id);
        let ghost dv = ids_view(self.disabled@);
        let mut i: usize = 0;
        while i < self.disabled.len()
            invariant
                i <= self.disabled@.len(),
                dv == ids_view(self.disabled@),
                target@ == id@,
                forall|j: int| 0 <= j < i ==> dv[j] != id@,
            decreases self.disabled@.len() - i,
        {
            let c = chars_of(self.disabled[i].as_str());
            assert(dv[i as int] == self.disabled@[i as int]@);
            if chars_eq(c.as_slice(), target.as_slice()) {
                return Some(i);
            }
            i += 1;
        }
        assert(!dv.contains(id@));
        None
    }

    /// Forgets every known extension (before they are discovered anew).
    pub fn clear_manifests(&mut self)
        ensures
            final(self).known().len() == 0,
            final(self).disabled_ids() == old(self).disabled_ids(),
            final(self).log() == old(self).log(),
            final(self).well_formed() == old(self).well_formed(),
    {
        self.manifests.clear();
    }

    /// Registers the built-in importers as enabled built-in extensions, in order.
    pub fn register_builtin_extensions(&mut self, importers: &[ImporterInfo])
        ensures
            final(self).known().len() == old(self).known().len() + importers@.len(),
            forall|i: int|
                0 <= i < importers@.len() ==> {
                    let e = #[trigger] final(self).known()[old(self).known().len() + i];
                    &&& e.id@ == importers@[i].id@
                    &&& e.name@ == importers@[i].name@
                    &&& e.version@ == "0.1.0"@
                    &&& e.kind@ == "importer"@
                    &&& e.runtime@ == "builtin"@
                    &&& e.supported_extensions@.map_values(|x: String| x@) == importers@[i].extensions@.map_values(|x: String| x@)
                    &&& e.permissions.read_input_file
                    &&& !e.permissions.write_temp_files
                    &&& e.enabled
                    &&& e.builtin
                    &&& !e.permissions.network
                },
            forall|i: int| 0 <= i < old(self).known().len() ==> final(self).known()[i] == old(self).known()[i],
            final(self).disabled_ids() == old(self).disabled_ids(),
            final(self).log() == old(self).log(),
            final(self).well_formed() == old(self).well_formed(),
    {
        let ghost start = self.manifests@;
        let mut i: usize = 0;
        while i < importers.len()
            invariant
                i <= importers@.len(),
                self.manifests@.len() == start.len() + i,
                forall|j: int| 0 <= j < start.len() ==> self.manifests@[j] == start[j],
                forall|j: int|
                    0 <= j < i ==> {
                        let e = #[trigger] self.manifests@[start.len() + j];
                        &&& e.id@ == importers@[j].id@
                        &&& e.name@ == importers@[j].name@
                        &&& e.version@ == "0.1.0"@
                        &&& e.kind@ == "importer"@
                        &&& e.runtime@ == "builtin"@
                        &&& e.supported_extensions@.map_values(|x: String| x@) == importers@[j].extensions@.map_values(|x: String| x@)
                        &&& e.permissions.read_input_file
                        &&& !e.permissions.write_temp_files
                        &&& e.enabled
                        &&& e.builtin
                        &&& !e.permissions.network
                    },
                self.disabled@ == old(self).disabled@,
                self.audit_log@ == old(self).audit_log@,
            decreases importers@.len() - i,
        {
            let info = &importers[i];
            let m = default_builtin_manifest(info.id.as_str(), info.name.as_str(), info.extensions.as_slice());
            self.manifests.push(
                ExtensionInfo {
                    id: m.id,
                    name: m.name,
                    version: m.version,
                    kind: m.kind,
                    runtime: m.runtime,
                    supported_extensions: m.supported_extensions,
                    permissions: m.permissions,
                    enabled: true,
                    builtin: true,
                },
            );
            i += 1;
        }
    }

    /// Records an extension found on disk: logs `discovered extension: {id} v{version}` and
    /// adds it as enabled and not built in.
    pub fn add_discovered(&mut self, manifest: ExtensionManifest)
        ensures
            final(self).known().len() == old(self).known().len() + 1,
            forall|i: int| 0 <= i < old(self).known().len() ==> final(self).known()[i] == old(self).known()[i],
            final(self).known().last().id@ == manifest.id@,
            final(self).known().last().name@ == manifest.name@,
            final(self).known().last().version@ == manifest.version@,
            final(self).known().last().kind@ == manifest.kind@,
            final(self).known().last().runtime@ == manifest.runtime@,
            final(self).known().last().supported_extensions == manifest.supported_extensions,
            final(self).known().last().permissions == manifest.permissions,
            final(self).known().last().enabled,
            !final(self).known().last().builtin,
            final(self).log() == old(self).log().push(
                "discovered extension: "@ + manifest.id@ + " v"@ + manifest.version@,
            ),
            final(self).disabled_ids() == old(self).disabled_ids(),
            final(self).well_formed() == old(self).well_formed(),
    {
        let mut line = String::from_str("discovered extension: ");
        line.append(manifest.id.as_str());
        line.append(" v");
        line.append(manifest.version.as_str());
        let ghost before = ids_view(self.audit_log@);
        self.audit_log.push(line);
        assert(ids_view(self.audit_log@) =~= before.push(
            "discovered extension: "@ + manifest.id@ + " v"@ + manifest.version@,
        ));
        self.manifests.push(
            ExtensionInfo {
                enabled: true,
                builtin: false,
                id: manifest.id,
                name: manifest.name,
                version: manifest.version,
                kind: manifest.kind,
                runtime: manifest.runtime,
                supported_extensions: manifest.supported_extensions,
                permissions: manifest.permissions,
            },
        );
    }

    /// Records that the extension directory at the path was validated.
    pub fn record_validated(&mut self, path_display: &str)
        ensures
            final(self).log() == old(self).log().push("validated extension at "@ + path_display@),
            final(self).known() == old(self).known(),
            final(self).disabled_ids() == old(self).disabled_ids(),
            final(self).well_formed() == old(self).well_formed(),
    {
        let mut line = String::from_str("validated extension at ");
        line.append(path_display);
        let ghost before = ids_view(self.audit_log@);
        self.audit_log.push(line);
        assert(ids_view(self.audit_log@) =~= before.push("validated extension at "@ + path_display@));
    }
}

impl ExtensionHost for AshkorixExtensionHost {
    fn list_extensions(&self) -> (r: Vec<ExtensionInfo>)
        ensures
            r@.len() == self.known().len(),
            forall|i: int|
                0 <= i < r@.len() ==> {
                    let (a, b) = (#[trigger] r@[i], self.known()[i]);
                    &&& a.id@ == b.id@
                    &&& a.name@ == b.name@
                    &&& a.version@ == b.version@
                    &&& a.kind@ == b.kind@
                    &&& a.runtime@ == b.runtime@
                    &&& a.supported_extensions@.map_values(|x: String| x@) == b.supported_extensions@.map_values(|x: String| x@)
                    &&& a.permissions == b.permissions
                    &&& a.builtin == b.builtin
                    &&& a.enabled == !self.disabled_ids().contains(b.id@)
                },
    {
        let mut out: Vec<ExtensionInfo> = Vec::new();
        let mut i: usize = 0;
        while i < self.manifests.len()
            invariant
                i <= self.manifests@.len(),
                out@.len() == i,
                forall|k: int|
                    0 <= k < i ==> {
                        let (a, b) = (#[trigger] out@[k], self.manifests@[k]);
                        &&& a.id@ == b.id@
                        &&& a.name@ == b.name@
                        &&& a.version@ == b.version@
                        &&& a.kind@ == b.kind@
                        &&& a.runtime@ == b.runtime@
                        &&& a.supported_extensions@.map_values(|x: String| x@) == b.supported_extensions@.map_values(|x: String| x@)
                        &&& a.permissions == b.permissions
                        &&& a.builtin == b.builtin
                        &&& a.enabled == !self.disabled_ids().contains(b.id@)
                    },
            decreases self.manifests@.len() - i,
        {
            let e = &self.manifests[i];
            let off = match self.disabled_index(e.id.as_str()) {
                Some(j) => {
                    assert(ids_view(self.disabled@)[j as int] == e.id@);
                    true
                },
                None => false,
            };
            out.push(
                ExtensionInfo {
                    id: e.id.clone(),
                    name: e.name.clone(),
                    version: e.version.clone(),
                    kind: e.kind.clone(),
                    runtime: e.runtime.clone(),
                    supported_extensions: e.supported_extensions.clone(),
                    permissions: e.permissions,
                    enabled: !off,
                    builtin: e.builtin,
                },
            );
            i += 1;
        }
        out
    }

    fn is_importer_enabled(&self, importer_id: &str) -> (r: bool)
        ensures
            r == !self.disabled_ids().contains(importer_id@),
    {
        match self.disabled_index(importer_id) {
            Some(j) => {
                assert(ids_view(self.disabled@)[j as int] == importer_id@);
                false
            },
            None => true,
        }
    }

    fn set_enabled(&mut self, id: &str, enabled: bool) -> (r: Result<(), AshkorixError>)
        ensures
            r is Ok,
            final(self).disabled_ids() == (if enabled {
                old(self).disabled_ids().remove(id@)
            } else {
                old(self).disabled_ids().insert(id@)
            }),
            final(self).log() == old(self).log().push(
                (if enabled {
                    "enabled extension: "@
                } else {
                    "disabled extension: "@
                }) + id@,
            ),
            final(self).known() == old(self).known(),
            old(self).well_formed() ==> final(self).well_formed(),
    {
        let ghost d0 = ids_view(self.disabled@);
        if !enabled {
            match self.disabled_index(id) {
                Some(j) => {
                    assert(d0[j as int] == id@);
                    assert(d0.to_set().insert(id@) =~= d0.to_set());
                },
                None => {
                    self.disabled.push(String::from_str(id));
                    assert(ids_view(self.disabled@) =~= d0.push(id@));
                    proof {
                        d0.lemma_push_to_set_commute(id@);
                    }
                    proof {
                        if d0.no_duplicates() {
                            assert(ids_view(self.disabled@).no_duplicates());
                        }
                    }
                },
            }
            let mut line = String::from_str("disabled extension: ");
            line.append(id);
            let ghost before = ids_view(self.audit_log@);
            self.audit_log.push(line);
            assert(ids_view(self.audit_log@) =~= before.push("disabled extension: "@ + id@));
        } else {
            let mut i: usize = 0;
            let ghost mut kept: Seq<Seq<char>> = Seq::empty();
            let mut rest: Vec<String> = Vec::new();
            while i < self.disabled.len()
                invariant
                    i <= self.disabled@.len(),
                    d0 == ids_view(self.disabled@),
                    ids_view(rest@) == d0.take(i as int).filter(|x: Seq<char>| x != id@),
                    forall|k: int| 0 <= k < rest@.len() ==> exists|j: int| 0 <= j < i && #[trigger] d0[j] == #[trigger] ids_view(rest@)[k],
                    d0.no_duplicates() ==> ids_view(rest@).no_duplicates(),
                decreases self.disabled@.len() - i,
            {
                let c = chars_of(self.disabled[i].as_str());
                let t = chars_of(id);
                let ghost before = ids_view(rest@);
                proof {
                    reveal(Seq::filter);
                    let tk = d0.take(i as int + 1);
                    assert(tk.drop_last() == d0.take(i as int));
                    assert(tk.last() == d0[i as int]);
                    assert(d0[i as int] == self.disabled@[i as int]@);
                }
                if !chars_eq(c.as_slice(), t.as_slice()) {
                    rest.push(self.disabled[i].clone());
                    assert(ids_view(rest@) =~= before.push(d0[i as int]));
                    proof {
                        assert forall|k: int| 0 <= k < rest@.len() implies exists|j: int| 0 <= j < i + 1 && #[trigger] d0[j] == #[trigger] ids_view(rest@)[k] by {
                            if k == rest@.len() - 1 {
                                assert(d0[i as int] == ids_view(rest@)[k]);
                            } else {
                                assert(ids_view(rest@)[k] == before[k]);
                                let j = choose|j: int| 0 <= j < i && #[trigger] d0[j] == before[k];
                                assert(d0[j] == ids_view(rest@)[k]);
                            }
                        }
                        if d0.no_duplicates() {
                            assert forall|a: int, b: int| 0 <= a < b < ids_view(rest@).len() implies ids_view(rest@)[a] != ids_view(rest@)[b] by {
                                if b == ids_view(rest@).len() - 1 {
                                    let j = choose|j: int| 0 <= j < i && #[trigger] d0[j] == before[a];
                                    assert(d0[j] != d0[i as int]);
                                } else {
                                    assert(before[a] != before[b]);
                                }
                            }
                        }
                    }
                }
                i += 1;
            }
            assert(d0.take(d0.len() as int) == d0);
            let ghost nv = ids_view(rest@);
            proof {
                d0.filter_lemma(|x: Seq<char>| x != id@);
                assert forall|x: Seq<char>| nv.to_set().contains(x) <==> d0.to_set().remove(id@).contains(x) by {
                    if nv.contains(x) {
                        let k = choose|k: int| 0 <= k < nv.len() && nv[k] == x;
                        assert(d0.contains(nv[k]));
                    }
                    if d0.contains(x) && x != id@ {
                        assert(nv.contains(x));
                    }
                }
                assert(nv.to_set() =~= d0.to_set().remove(id@));
            }
            self.disabled = rest;
            let mut line = String::from_str("enabled extension: ");
            line.append(id);
            let ghost before = ids_view(self.audit_log@);
            self.audit_log.push(line);
            assert(ids_view(self.audit_log@) =~= before.push("enabled extension: "@ + id@));
        }
        Ok(())
    }
}

} // verus!
