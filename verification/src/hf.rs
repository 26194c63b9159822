use vstd::prelude::*;
use vstd::string::StrSliceExecFns;
use vstd::string::StringExecFns;
use crate::config::{HFConfig, spec_voice_url};
use crate::errors::VoiceError;
use crate::json::str_lt;
use crate::manifest::{catalog_matches, is_manifest_json, catalog_from_json};
use crate::strutil::{
    spec_ends_with, spec_basename, spec_local_key, has_key, ends_with, basename, local_key,
    contains_str,
};
use crate::json::spec_parse_json;

verus! {

/// The locale a voice speaks: language code, region, and the names of both
/// in the language itself and in English.
#[derive(Debug, Clone, PartialEq, Eq)]
pub struct Language {
    pub code: String,
    pub region: String,
    pub name_native: String,
    pub name_english: String,
    pub country_english: String,
}

/// One file belonging to a voice in the manifest: its size in bytes. The
/// relative path is the key it is filed under.
#[derive(Debug, Clone, PartialEq, Eq)]
pub struct File {
    pub size_bytes: u64,
}

/// One voice of the catalog: its display name, stable key, locale, quality
/// tier, whether its files are present locally, and its file mapping from
/// relative path to file metadata (paths unique).
#[derive(Debug, Clone, PartialEq, Eq)]
pub struct Voice {
    pub name: String,
    pub key: String,
    pub language: Language,
    pub quality: String,
    pub downloaded: bool,
    pub files: Vec<(String, File)>,
}

/// The mathematical value of a `Language`: its five fields as character
/// sequences.
pub struct LanguageView {
    pub code: Seq<char>,
    pub region: Seq<char>,
    pub name_native: Seq<char>,
    pub name_english: Seq<char>,
    pub country_english: Seq<char>,
}

impl View for Language {
    type V = LanguageView;

    open spec fn view(&self) -> LanguageView {
        LanguageView {
            code: self.code@,
            region: self.region@,
            name_native: self.name_native@,
            name_english: self.name_english@,
            country_english: self.country_english@,
        }
    }
}

/// The mathematical value of a `Voice`: its fields as character sequences,
/// the file mapping as a sequence of path and size pairs.
pub struct VoiceView {
    pub name: Seq<char>,
    pub key: Seq<char>,
    pub language: LanguageView,
    pub quality: Seq<char>,
    pub downloaded: bool,
    pub files: Seq<(Seq<char>, u64)>,
}

impl View for Voice {
    type V = VoiceView;

    open spec fn view(&self) -> VoiceView {
        VoiceView {
            name: self.name@,
            key: self.key@,
            language: self.language@,
            quality: self.quality@,
            downloaded: self.downloaded,
            files: self.files@.map_values(|p: (String, File)| (p.0@, p.1.size_bytes)),
        }
    }
}

/// The voice keys that a list of local filenames stands for, one per file.
pub open spec fn local_keys(fs: Seq<String>) -> Seq<Seq<char>> {
    fs.map_values(|f: String| spec_local_key(f@))
}

/// `a` and `b` agree on every field but the `downloaded` flag.
pub open spec fn same_voice_except_downloaded(a: Voice, b: Voice) -> bool {
    &&& a.name == b.name
    &&& a.key == b.key
    &&& a.language == b.language
    &&& a.quality == b.quality
    &&& a.files == b.files
}

/// The relative path of the first file entry whose path ends in the model
/// extension `.onnx`, if the mapping has one.
pub open spec fn spec_model_path(fs: Seq<(String, File)>) -> Option<Seq<char>>
    decreases fs.len(),
{
    if fs.len() == 0 {
        None
    } else if spec_ends_with(fs[0].0@, ".onnx"@) {
        Some(fs[0].0@)
    } else {
        spec_model_path(fs.skip(1))
    }
}

/// A file mapping has no model path exactly when no entry's path ends in
/// the model extension; when it has one, that path is an entry's and ends in
/// the extension. Planning a download and planning a removal therefore both
/// fail, with `MalformedPath` and without planning any transfer, on exactly
/// the mappings without a model entry.
pub proof fn lemma_model_path_none(fs: Seq<(String, File)>)
    ensures
        spec_model_path(fs) is None <==> (forall|i: int|
            0 <= i < fs.len() ==> !spec_ends_with((#[trigger] fs[i]).0@, ".onnx"@)),
        spec_model_path(fs) matches Some(p) ==> spec_ends_with(p, ".onnx"@) && exists|i: int|
            0 <= i < fs.len() && (#[trigger] fs[i]).0@ == p,
    decreases fs.len(),
{
    if fs.len() > 0 && !spec_ends_with(fs[0].0@, ".onnx"@) {
        lemma_model_path_none(fs.skip(1));
        assert(forall|i: int| 0 <= i < fs.skip(1).len() ==> #[trigger] fs.skip(1)[i] == fs[i + 1]);
        if spec_model_path(fs) is None {
            assert forall|i: int| 0 <= i < fs.len() implies !spec_ends_with(
                (#[trigger] fs[i]).0@,
                ".onnx"@,
            ) by {
                if i > 0 {
                    assert(fs.skip(1)[i - 1] == fs[i]);
                }
            }
        }
        if spec_model_path(fs) is Some {
            let p = spec_model_path(fs)->Some_0;
            let i = choose|i: int| 0 <= i < fs.skip(1).len() && fs.skip(1)[i].0@ == p;
            assert(fs[i + 1].0@ == p);
        }
    }
}

/// One step of a transfer plan, for the storage and transport boundary to
/// carry out in order: fetch a URL, write the bytes fetched last to a local
/// path, or remove a local path.
#[derive(Debug, Clone, PartialEq, Eq)]
pub enum TransferAction {
    Fetch { url: String },
    Write { path: String },
    Remove { path: String },
}

/// The catalog and transfer operations. Fetching, writing and removing are
/// the boundary's work; these functions take the boundary's outcomes and
/// produce plans and reconciled state.
pub struct VoiceManager {}

impl VoiceManager {
    /// Builds the reconciled catalog from the outcome of fetching the remote
    /// manifest text and the outcome of listing the filenames in the
    /// download directory.
    ///
    /// The catalog is the manifest's voices in manifest (key-sorted) order,
    /// each `downloaded` flag set exactly when the voice's key is among the
    /// keys derived from the local filenames. A fetch failure surfaces as
    /// `Network`, malformed or ill-shaped manifest text as `Decode`, a
    /// scan failure as `Filesystem`; any failure yields no catalog at all.
    pub fn list_all_avaliable_voices(
        manifest_fetch: Result<String, String>,
        local_files: Result<Vec<String>, String>,
    ) -> (r: Result<Vec<(String, Voice)>, VoiceError>)
        ensures
            manifest_fetch matches Err(m) ==> (r matches Err(VoiceError::Network(m2)) && m2 == m),
            manifest_fetch matches Ok(text) ==> {
                let parsed = spec_parse_json(text@);
                &&& (parsed is None ==> r is Err && r->Err_0 is Decode)
                &&& (parsed is Some && !is_manifest_json(parsed->Some_0) ==> r is Err
                    && r->Err_0 is Decode)
                &&& ((parsed is Some && is_manifest_json(parsed->Some_0)
                    && local_files is Err) ==> (r matches Err(VoiceError::Filesystem(m2)) && m2
                    == local_files->Err_0))
                &&& (r is Ok <==> parsed is Some && is_manifest_json(parsed->Some_0)
                    && local_files is Ok)
                &&& (r is Ok ==> {
                    let c = r->Ok_0@;
                    &&& catalog_matches(c, parsed->Some_0)
                    &&& forall|i: int|
                        0 <= i < c.len() ==> c[i].1.downloaded == local_keys(
                            local_files->Ok_0@,
                        ).contains(c[i].0@)
                    &&& forall|i: int, k: int| 0 <= i < k < c.len() ==> str_lt(c[i].0@, c[k].0@)
                })
            },
    {
        let text = match manifest_fetch {
            Ok(t) => t,
            Err(m) => {
                return Err(VoiceError::Network(m));
            },
        };
        let parsed = match crate::json::parse_manifest_text(text.as_str()) {
            Ok(j) => j,
            Err(e) => {
                return Err(e);
            },
        };
        let catalog = match catalog_from_json(&parsed) {
            Ok(c) => c,
            Err(e) => {
                return Err(e);
            },
        };
        let names = match local_files {
            Ok(v) => v,
            Err(m) => {
                return Err(VoiceError::Filesystem(m));
            },
        };
        let keys = Self::list_downloaded_voices(&names);
        let ghost catalog0 = catalog@;
        let marked = mark_downloaded(catalog, &keys);
        proof {
            assert forall|i: int| 0 <= i < marked@.len() implies marked@[i].1.downloaded
                == local_keys(names@).contains(marked@[i].0@) by {
                let k = catalog0[i].0@;
                if has_key(keys@, k) {
                    let t = choose|t: int| 0 <= t < keys@.len() && keys@[t]@ == k;
                    assert(local_keys(names@).contains(keys@[t]@));
                }
                if local_keys(names@).contains(k) {
                    let u = choose|u: int|
                        0 <= u < local_keys(names@).len() && local_keys(names@)[u] == k;
                    assert(local_keys(names@)[u] == spec_local_key(names@[u]@));
                    assert(has_key(keys@, spec_local_key(names@[u]@)));
                }
            }
        }
        Ok(marked)
    }

    /// Derives the set of locally present voice keys from the filenames in
    /// the download directory: each filename's part before its first dot,
    /// without duplicates.
    pub fn list_downloaded_voices(file_names: &Vec<String>) -> (r: Vec<String>)
        ensures
            forall|t: int| 0 <= t < r@.len() ==> local_keys(file_names@).contains(r@[t]@),
            forall|u: int|
                0 <= u < file_names@.len() ==> has_key(r@, spec_local_key(file_names@[u]@)),
            forall|t: int, u: int| 0 <= t < u < r@.len() ==> r@[t]@ != r@[u]@,
    {
        let mut out: Vec<String> = Vec::new();
        let mut i: usize = 0;
        while i < file_names.len()
            invariant
                i <= file_names@.len(),
                forall|t: int|
                    0 <= t < out@.len() ==> local_keys(file_names@).contains(#[trigger] out@[t]@),
                forall|u: int|
                    0 <= u < i ==> has_key(out@, spec_local_key(#[trigger] file_names@[u]@)),
                forall|t: int, u: int| 0 <= t < u < out@.len() ==> out@[t]@ != out@[u]@,
            decreases file_names@.len() - i,
        {
            let key = local_key(file_names[i].as_str());
            proof {
                assert(local_keys(file_names@)[i as int] == spec_local_key(file_names@[i as int]@));
            }
            if !contains_str(&out, key.as_str()) {
                let ghost old_out = out@;
                out.push(key);
                proof {
                    assert(forall|t: int|
                        0 <= t < old_out.len() ==> out@[t]@ == #[trigger] old_out[t]@);
                    assert(out@[old_out.len() as int]@ == spec_local_key(
                        file_names@[i as int]@,
                    ));
                    assert forall|u: int|
                        0 <= u < i + 1 implies has_key(
                        out@,
                        spec_local_key(#[trigger] file_names@[u]@),
                    ) by {
                        if u < i {
                            let w = choose|w: int|
                                0 <= w < old_out.len() && old_out[w]@ == spec_local_key(
                                    file_names@[u]@,
                                );
                            assert(out@[w]@ == spec_local_key(file_names@[u]@));
                        } else {
                            assert(out@[old_out.len() as int]@ == spec_local_key(
                                file_names@[u]@,
                            ));
                        }
                    }
                }
            }
            i += 1;
        }
        out
    }

    /// Plans the download of one voice: the model file and its sibling
    /// configuration file, fetched from the repository and written under the
    /// download directory, both under the model path's basename.
    ///
    /// Fails with `MalformedPath`, planning no transfer at all, exactly when
    /// the file mapping holds no path ending in the model extension.
    pub fn download_voice(voice_files: &Vec<(String, File)>, cfg: &HFConfig, download_dir: &str)
        -> (r: Result<Vec<TransferAction>, VoiceError>)
        ensures
            r is Ok <==> spec_model_path(voice_files@) is Some,
            r is Err ==> r->Err_0 is MalformedPath,
            r is Ok ==> ({
                let p = spec_model_path(voice_files@)->Some_0;
                let u = spec_voice_url(*cfg, p);
                let d = download_dir@ + "/"@ + spec_basename(p);
                &&& r->Ok_0@.len() == 4
                &&& r->Ok_0@[0] matches TransferAction::Fetch { url } && url@ == u
                &&& r->Ok_0@[1] matches TransferAction::Write { path } && path@ == d
                &&& r->Ok_0@[2] matches TransferAction::Fetch { url } && url@ == u + ".json"@
                &&& r->Ok_0@[3] matches TransferAction::Write { path } && path@ == d
            }),
    {
        let p = match find_model_path(voice_files) {
            Some(p) => p,
            None => {
                return Err(VoiceError::MalformedPath);
            },
        };
        let url = cfg.get_voice_url(&p);
        let mut config_url = url.clone();
        config_url.append(".json");
        let base = basename(p.as_str());
        let mut dest = p_dir_join(download_dir, base.as_str());
        let dest2 = dest.clone();
        let mut acts: Vec<TransferAction> = Vec::new();
        acts.push(TransferAction::Fetch { url });
        acts.push(TransferAction::Write { path: dest });
        acts.push(TransferAction::Fetch { url: config_url });
        acts.push(TransferAction::Write { path: dest2 });
        Ok(acts)
    }

    /// Plans the removal of one voice: the single local file under the
    /// model path's basename in the download directory (the configuration
    /// file shares that name by construction of the download plan).
    ///
    /// Fails with `MalformedPath`, planning no removal, exactly when the
    /// file mapping holds no path ending in the model extension.
    pub fn delete_voice(voice_files: &Vec<(String, File)>, download_dir: &str) -> (r: Result<
        TransferAction,
        VoiceError,
    >)
        ensures
            r is Ok <==> spec_model_path(voice_files@) is Some,
            r is Err ==> r->Err_0 is MalformedPath,
            r is Ok ==> (r->Ok_0 matches TransferAction::Remove { path } && path@ == download_dir@
                + "/"@ + spec_basename(spec_model_path(voice_files@)->Some_0)),
    {
        let p = match find_model_path(voice_files) {
            Some(p) => p,
            None => {
                return Err(VoiceError::MalformedPath);
            },
        };
        let base = basename(p.as_str());
        let path = p_dir_join(download_dir, base.as_str());
        Ok(TransferAction::Remove { path })
    }
}

/// The error a failed transfer step surfaces as: a failed fetch is a
/// `Network` failure, a failed write or removal a `Filesystem` one; the
/// boundary's detail message is carried through unchanged.
pub fn transfer_failure(action: &TransferAction, detail: String) -> (r: VoiceError)
    ensures
        action is Fetch ==> (r matches VoiceError::Network(m) && m == detail),
        !(action is Fetch) ==> (r matches VoiceError::Filesystem(m) && m == detail),
{
    match action {
        TransferAction::Fetch { .. } => VoiceError::Network(detail),
        TransferAction::Write { .. } => VoiceError::Filesystem(detail),
        TransferAction::Remove { .. } => VoiceError::Filesystem(detail),
    }
}

/// Joins the download directory and a filename with a single separator.
fn p_dir_join(dir: &str, name: &str) -> (r: String)
    ensures
        r@ == dir@ + "/"@ + name@,
{
    let mut s = dir.to_owned();
    s.append("/");
    s.append(name);
    s
}

/// The first file entry whose path ends in the model extension, cloned out
/// of the mapping.
fn find_model_path(files: &Vec<(String, File)>) -> (r: Option<String>)
    ensures
        r is Some <==> spec_model_path(files@) is Some,
        r is Some ==> r->Some_0@ == spec_model_path(files@)->Some_0,
{
    let mut i: usize = 0;
    proof {
        assert(files@.skip(0) =~= files@);
    }
    while i < files.len()
        invariant
            i <= files@.len(),
            spec_model_path(files@) == spec_model_path(files@.skip(i as int)),
        decreases files@.len() - i,
    {
        proof {
            assert(files@.skip(i as int)[0] == files@[i as int]);
        }
        if ends_with(files[i].0.as_str(), ".onnx") {
            return Some(files[i].0.clone());
        }
        proof {
            assert(files@.skip(i as int).skip(1) =~= files@.skip(i + 1));
        }
        i += 1;
    }
    None
}

/// Sets each voice's `downloaded` flag to whether its catalog key is among
/// the given local keys; everything else is kept as it stands.
fn mark_downloaded(catalog: Vec<(String, Voice)>, keys: &Vec<String>) -> (r: Vec<(String, Voice)>)
    ensures
        r@.len() == catalog@.len(),
        forall|i: int|
            0 <= i < catalog@.len() ==> {
                &&& (#[trigger] r@[i]).0 == catalog@[i].0
                &&& same_voice_except_downloaded(r@[i].1, catalog@[i].1)
                &&& r@[i].1.downloaded == has_key(keys@, catalog@[i].0@)
            },
{
    let ghost orig = catalog@;
    let mut inp = catalog;
    let mut out: Vec<(String, Voice)> = Vec::new();
    while inp.len() > 0
        invariant
            out@.len() + inp@.len() == orig.len(),
            forall|i: int| 0 <= i < inp@.len() ==> #[trigger] inp@[i] == orig[out@.len() + i],
            forall|i: int|
                0 <= i < out@.len() ==> {
                    &&& (#[trigger] out@[i]).0 == orig[i].0
                    &&& same_voice_except_downloaded(out@[i].1, orig[i].1)
                    &&& out@[i].1.downloaded == has_key(keys@, orig[i].0@)
                },
        decreases inp@.len(),
    {
        let kv = inp.remove(0);
        let k = kv.0;
        let mut v = kv.1;
        let d = contains_str(keys, k.as_str());
        v.downloaded = d;
        out.push((k, v));
    }
    out
}

} // verus!
