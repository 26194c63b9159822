use vstd::prelude::*;
use vstd::string::StringExecFns;
use crate::errors::VoiceError;
use crate::hf::{File, Language, Voice, VoiceView};
use crate::json::{JsonValue, lookup, get_field, lemma_lookup_at};
use crate::strutil::{spec_parse_u64, parse_u64, u64_to_string, lemma_parse_u64_string};

verus! {

// ---------------------------------------------------------------------------
// The manifest wire format, as predicates over the JSON model
// ---------------------------------------------------------------------------

/// The value under key `k` of an object, `None` for any other value.
pub open spec fn field(j: JsonValue, k: Seq<char>) -> Option<JsonValue> {
    match j {
        JsonValue::Obj(es) => lookup(es@, k),
        _ => None,
    }
}

/// The string under key `k` among entries, `None` when absent or not a
/// string.
pub open spec fn str_entry(es: Seq<(String, JsonValue)>, k: Seq<char>) -> Option<Seq<char>> {
    match lookup(es, k) {
        Some(JsonValue::Str(s)) => Some(s@),
        _ => None,
    }
}

/// The string under key `k` of an object.
pub open spec fn str_field(j: JsonValue, k: Seq<char>) -> Option<Seq<char>> {
    match j {
        JsonValue::Obj(es) => str_entry(es@, k),
        _ => None,
    }
}

/// The size a file record carries: its `size_bytes` number, as a `u64`.
pub open spec fn size_field(j: JsonValue) -> Option<u64> {
    match field(j, "size_bytes"@) {
        Some(JsonValue::Num(t)) => spec_parse_u64(t@),
        _ => None,
    }
}

/// `j` has the shape of a language record: an object with the five string
/// fields.
pub open spec fn is_language_json(j: JsonValue) -> bool {
    &&& str_field(j, "code"@) is Some
    &&& str_field(j, "region"@) is Some
    &&& str_field(j, "name_native"@) is Some
    &&& str_field(j, "name_english"@) is Some
    &&& str_field(j, "country_english"@) is Some
}

/// `l` carries exactly the strings of the language record `j`.
pub open spec fn language_matches(l: Language, j: JsonValue) -> bool {
    &&& Some(l.code@) == str_field(j, "code"@)
    &&& Some(l.region@) == str_field(j, "region"@)
    &&& Some(l.name_native@) == str_field(j, "name_native"@)
    &&& Some(l.name_english@) == str_field(j, "name_english"@)
    &&& Some(l.country_english@) == str_field(j, "country_english"@)
}

/// `j` has the shape of a file mapping: an object whose every value carries
/// a well-formed size.
pub open spec fn is_files_json(j: JsonValue) -> bool {
    match j {
        JsonValue::Obj(es) => forall|i: int|
            0 <= i < es@.len() ==> size_field(#[trigger] es@[i].1) is Some,
        _ => false,
    }
}

/// `fs` carries exactly the paths and sizes of the file mapping `j`, in its
/// order.
pub open spec fn files_match(fs: Seq<(String, File)>, j: JsonValue) -> bool {
    match j {
        JsonValue::Obj(es) => {
            &&& fs.len() == es@.len()
            &&& forall|i: int|
                0 <= i < es@.len() ==> (#[trigger] fs[i]).0@ == es@[i].0@ && Some(
                    fs[i].1.size_bytes,
                ) == size_field(es@[i].1)
        },
        _ => false,
    }
}

/// `j` has the shape of a voice record: the three string fields, a language
/// record and a file mapping. Any other field (`downloaded` among them) is
/// ignored.
pub open spec fn is_voice_json(j: JsonValue) -> bool {
    &&& str_field(j, "name"@) is Some
    &&& str_field(j, "key"@) is Some
    &&& str_field(j, "quality"@) is Some
    &&& field(j, "language"@) is Some
    &&& is_language_json(field(j, "language"@)->Some_0)
    &&& field(j, "files"@) is Some
    &&& is_files_json(field(j, "files"@)->Some_0)
}

/// `v` carries exactly the data of the voice record `j`; the `downloaded`
/// flag is no part of it.
pub open spec fn voice_matches_json(v: Voice, j: JsonValue) -> bool {
    &&& Some(v.name@) == str_field(j, "name"@)
    &&& Some(v.key@) == str_field(j, "key"@)
    &&& Some(v.quality@) == str_field(j, "quality"@)
    &&& field(j, "language"@) is Some
    &&& language_matches(v.language, field(j, "language"@)->Some_0)
    &&& field(j, "files"@) is Some
    &&& files_match(v.files@, field(j, "files"@)->Some_0)
}

/// `j` has the shape of a whole manifest: an object mapping voice keys to
/// voice records.
pub open spec fn is_manifest_json(j: JsonValue) -> bool {
    match j {
        JsonValue::Obj(es) => forall|i: int|
            0 <= i < es@.len() ==> is_voice_json(#[trigger] es@[i].1),
        _ => false,
    }
}

/// `c` carries exactly the keys and voices of the manifest `j`, in its
/// order.
pub open spec fn catalog_matches(c: Seq<(String, Voice)>, j: JsonValue) -> bool {
    match j {
        JsonValue::Obj(es) => {
            &&& c.len() == es@.len()
            &&& forall|i: int|
                0 <= i < es@.len() ==> (#[trigger] c[i]).0@ == es@[i].0@ && voice_matches_json(
                    c[i].1,
                    es@[i].1,
                )
        },
        _ => false,
    }
}

/// A voice that carries a record's data witnesses that the record is well
/// shaped.
pub proof fn lemma_matches_implies_is_voice(v: Voice, j: JsonValue)
    requires
        voice_matches_json(v, j),
    ensures
        is_voice_json(j),
{
    let fj = field(j, "files"@)->Some_0;
    match fj {
        JsonValue::Obj(es) => {
            assert forall|i: int| 0 <= i < es@.len() implies size_field(
                #[trigger] es@[i].1,
            ) is Some by {
                assert(Some(v.files@[i].1.size_bytes) == size_field(es@[i].1));
            }
        },
        _ => {
            assert(false);
        },
    }
}

// ---------------------------------------------------------------------------
// Decoding
// ---------------------------------------------------------------------------

fn decode_err(m: &str) -> (r: VoiceError)
    ensures
        r is Decode,
{
    VoiceError::Decode(m.to_owned())
}

/// The string under key `k`, cloned out of the entries.
fn get_str(es: &Vec<(String, JsonValue)>, k: &str) -> (r: Option<String>)
    ensures
        r is Some <==> str_entry(es@, k@) is Some,
        r is Some ==> r->Some_0@ == str_entry(es@, k@)->Some_0,
{
    match get_field(es, k) {
        Some(v) => match v {
            JsonValue::Str(s) => Some(s.clone()),
            _ => None,
        },
        None => None,
    }
}

/// The size a file record carries, if it is well formed.
fn size_of_entry(fj: &JsonValue) -> (r: Option<u64>)
    ensures
        r == size_field(*fj),
{
    match fj {
        JsonValue::Obj(fes) => match get_field(fes, "size_bytes") {
            Some(v) => match v {
                JsonValue::Num(t) => parse_u64(t.as_str()),
                _ => None,
            },
            None => None,
        },
        _ => None,
    }
}

/// Decodes a language record, failing with `Decode` exactly when `j` does
/// not have that shape.
pub fn language_from_json(j: &JsonValue) -> (r: Result<Language, VoiceError>)
    ensures
        r is Ok <==> is_language_json(*j),
        r is Ok ==> language_matches(r->Ok_0, *j),
        r is Err ==> r->Err_0 is Decode,
{
    let es = match j {
        JsonValue::Obj(es) => es,
        _ => {
            return Err(decode_err("language is not an object"));
        },
    };
    let code = match get_str(es, "code") {
        Some(s) => s,
        None => {
            return Err(decode_err("language has no code"));
        },
    };
    let region = match get_str(es, "region") {
        Some(s) => s,
        None => {
            return Err(decode_err("language has no region"));
        },
    };
    let name_native = match get_str(es, "name_native") {
        Some(s) => s,
        None => {
            return Err(decode_err("language has no name_native"));
        },
    };
    let name_english = match get_str(es, "name_english") {
        Some(s) => s,
        None => {
            return Err(decode_err("language has no name_english"));
        },
    };
    let country_english = match get_str(es, "country_english") {
        Some(s) => s,
        None => {
            return Err(decode_err("language has no country_english"));
        },
    };
    Ok(Language { code, region, name_native, name_english, country_english })
}

/// Decodes a file mapping, failing with `Decode` exactly when `j` does not
/// have that shape.
pub fn files_from_json(j: &JsonValue) -> (r: Result<Vec<(String, File)>, VoiceError>)
    ensures
        r is Ok <==> is_files_json(*j),
        r is Ok ==> files_match(r->Ok_0@, *j),
        r is Err ==> r->Err_0 is Decode,
{
    let es = match j {
        JsonValue::Obj(es) => es,
        _ => {
            return Err(decode_err("files is not an object"));
        },
    };
    let mut out: Vec<(String, File)> = Vec::new();
    let mut i: usize = 0;
    while i < es.len()
        invariant
            *j == JsonValue::Obj(*es),
            i <= es@.len(),
            out@.len() == i,
            forall|t: int|
                0 <= t < i ==> (#[trigger] out@[t]).0@ == es@[t].0@ && Some(out@[t].1.size_bytes)
                    == size_field(es@[t].1),
        decreases es@.len() - i,
    {
        let entry = &es[i];
        let size = match size_of_entry(&entry.1) {
            Some(s) => s,
            None => {
                proof {
                    assert(size_field(es@[i as int].1) is None);
                }
                return Err(decode_err("a file entry has no well-formed size_bytes"));
            },
        };
        out.push((entry.0.clone(), File { size_bytes: size }));
        i += 1;
    }
    proof {
        assert forall|t: int| 0 <= t < es@.len() implies size_field(#[trigger] es@[t].1) is Some by {
            assert(Some(out@[t].1.size_bytes) == size_field(es@[t].1));
        }
    }
    Ok(out)
}

/// Decodes a voice record with `downloaded` false, failing with `Decode`
/// exactly when `j` does not have that shape.
pub fn voice_from_json(j: &JsonValue) -> (r: Result<Voice, VoiceError>)
    ensures
        r is Ok <==> is_voice_json(*j),
        r is Ok ==> voice_matches_json(r->Ok_0, *j) && r->Ok_0.downloaded == false,
        r is Err ==> r->Err_0 is Decode,
{
    let es = match j {
        JsonValue::Obj(es) => es,
        _ => {
            return Err(decode_err("voice is not an object"));
        },
    };
    let name = match get_str(es, "name") {
        Some(s) => s,
        None => {
            return Err(decode_err("voice has no name"));
        },
    };
    let key = match get_str(es, "key") {
        Some(s) => s,
        None => {
            return Err(decode_err("voice has no key"));
        },
    };
    let quality = match get_str(es, "quality") {
        Some(s) => s,
        None => {
            return Err(decode_err("voice has no quality"));
        },
    };
    let lj = match get_field(es, "language") {
        Some(v) => v,
        None => {
            return Err(decode_err("voice has no language"));
        },
    };
    let language = match language_from_json(lj) {
        Ok(l) => l,
        Err(e) => {
            return Err(e);
        },
    };
    let fj = match get_field(es, "files") {
        Some(v) => v,
        None => {
            return Err(decode_err("voice has no files"));
        },
    };
    let files = match files_from_json(fj) {
        Ok(f) => f,
        Err(e) => {
            return Err(e);
        },
    };
    Ok(Voice { name, key, language, quality, downloaded: false, files })
}

/// Decodes a whole manifest into the fresh catalog, every voice not yet
/// downloaded, failing with `Decode` exactly when `j` does not have the
/// manifest shape.
pub fn catalog_from_json(j: &JsonValue) -> (r: Result<Vec<(String, Voice)>, VoiceError>)
    ensures
        r is Ok <==> is_manifest_json(*j),
        r is Ok ==> catalog_matches(r->Ok_0@, *j),
        r is Ok ==> forall|i: int|
            0 <= i < r->Ok_0@.len() ==> (#[trigger] r->Ok_0@[i]).1.downloaded == false,
        r is Err ==> r->Err_0 is Decode,
{
    let es = match j {
        JsonValue::Obj(es) => es,
        _ => {
            return Err(decode_err("the manifest is not an object"));
        },
    };
    let mut out: Vec<(String, Voice)> = Vec::new();
    let mut i: usize = 0;
    while i < es.len()
        invariant
            *j == JsonValue::Obj(*es),
            i <= es@.len(),
            out@.len() == i,
            forall|t: int|
                0 <= t < i ==> (#[trigger] out@[t]).0@ == es@[t].0@ && voice_matches_json(
                    out@[t].1,
                    es@[t].1,
                ) && out@[t].1.downloaded == false,
        decreases es@.len() - i,
    {
        let entry = &es[i];
        let voice = match voice_from_json(&entry.1) {
            Ok(v) => v,
            Err(e) => {
                proof {
                    assert(!is_voice_json(es@[i as int].1));
                    assert(!is_manifest_json(*j)) by {
                        if is_manifest_json(*j) {
                            let es2 = (*j)->Obj_0;
                            assert(es2 == *es);
                            assert(is_voice_json(es2@[i as int].1));
                        }
                    }
                }
                return Err(e);
            },
        };
        out.push((entry.0.clone(), voice));
        i += 1;
    }
    proof {
        assert forall|t: int| 0 <= t < es@.len() implies is_voice_json(#[trigger] es@[t].1) by {
            lemma_matches_implies_is_voice(out@[t].1, es@[t].1);
        }
    }
    Ok(out)
}

// ---------------------------------------------------------------------------
// Encoding
// ---------------------------------------------------------------------------

/// Encodes a language into its manifest record.
pub fn language_to_json(l: &Language) -> (r: JsonValue)
    ensures
        is_language_json(r),
        language_matches(*l, r),
{
    let mut es: Vec<(String, JsonValue)> = Vec::new();
    es.push(("code".to_owned(), JsonValue::Str(l.code.clone())));
    es.push(("region".to_owned(), JsonValue::Str(l.region.clone())));
    es.push(("name_native".to_owned(), JsonValue::Str(l.name_native.clone())));
    es.push(("name_english".to_owned(), JsonValue::Str(l.name_english.clone())));
    es.push(("country_english".to_owned(), JsonValue::Str(l.country_english.clone())));
    proof {
        reveal_strlit("code");
        reveal_strlit("region");
        reveal_strlit("name_native");
        reveal_strlit("name_english");
        reveal_strlit("country_english");
        assert(es@.len() == 5);
        assert(es@[0].0@ == "code"@);
        assert(es@[1].0@ == "region"@);
        assert(es@[2].0@ == "name_native"@);
        assert(es@[3].0@ == "name_english"@);
        assert(es@[4].0@ == "country_english"@);
        lemma_lookup_at(es@, 0);
        lemma_lookup_at(es@, 1);
        lemma_lookup_at(es@, 2);
        lemma_lookup_at(es@, 3);
        lemma_lookup_at(es@, 4);
    }
    JsonValue::Obj(es)
}

/// Encodes one file record.
fn file_to_json(f: &File) -> (r: JsonValue)
    ensures
        size_field(r) == Some(f.size_bytes),
{
    let mut es: Vec<(String, JsonValue)> = Vec::new();
    es.push(("size_bytes".to_owned(), JsonValue::Num(u64_to_string(f.size_bytes))));
    proof {
        lemma_lookup_at(es@, 0);
        lemma_parse_u64_string(f.size_bytes);
    }
    JsonValue::Obj(es)
}

/// Encodes a voice into its manifest record, the `downloaded` flag included
/// (readers ignore it).
pub fn voice_to_json(v: &Voice) -> (r: JsonValue)
    ensures
        is_voice_json(r),
        voice_matches_json(*v, r),
{
    let mut fes: Vec<(String, JsonValue)> = Vec::new();
    let mut i: usize = 0;
    while i < v.files.len()
        invariant
            i <= v.files@.len(),
            fes@.len() == i,
            forall|t: int|
                0 <= t < i ==> (#[trigger] fes@[t]).0 == v.files@[t].0 && size_field(fes@[t].1)
                    == Some(v.files@[t].1.size_bytes),
        decreases v.files@.len() - i,
    {
        let entry = &v.files[i];
        fes.push((entry.0.clone(), file_to_json(&entry.1)));
        i += 1;
    }
    let files = JsonValue::Obj(fes);
    let language = language_to_json(&v.language);
    let mut es: Vec<(String, JsonValue)> = Vec::new();
    es.push(("name".to_owned(), JsonValue::Str(v.name.clone())));
    es.push(("key".to_owned(), JsonValue::Str(v.key.clone())));
    es.push(("language".to_owned(), language));
    es.push(("quality".to_owned(), JsonValue::Str(v.quality.clone())));
    es.push(("downloaded".to_owned(), JsonValue::Bool(v.downloaded)));
    es.push(("files".to_owned(), files));
    proof {
        reveal_strlit("name");
        reveal_strlit("key");
        reveal_strlit("language");
        reveal_strlit("quality");
        reveal_strlit("downloaded");
        reveal_strlit("files");
        assert(es@.len() == 6);
        assert(es@[0].0@ == "name"@);
        assert(es@[1].0@ == "key"@);
        assert(es@[2].0@ == "language"@);
        assert(es@[3].0@ == "quality"@);
        assert(es@[4].0@ == "downloaded"@);
        assert(es@[5].0@ == "files"@);
        lemma_lookup_at(es@, 0);
        lemma_lookup_at(es@, 1);
        lemma_lookup_at(es@, 2);
        lemma_lookup_at(es@, 3);
        lemma_lookup_at(es@, 5);
    }
    JsonValue::Obj(es)
}

// ---------------------------------------------------------------------------
// The round trip
// ---------------------------------------------------------------------------

/// `a` and `b` are the same voice value up to the `downloaded` flag.
pub open spec fn view_eq_except_downloaded(a: VoiceView, b: VoiceView) -> bool {
    &&& a.name == b.name
    &&& a.key == b.key
    &&& a.language == b.language
    &&& a.quality == b.quality
    &&& a.files =~= b.files
}

/// A voice encoded into the manifest format and decoded back is the same
/// voice, but for the `downloaded` flag, which readers always recompute:
/// two voices that carry the data of one record are one value up to that
/// flag.
pub proof fn lemma_voice_round_trip(v: Voice, w: Voice, j: JsonValue)
    requires
        voice_matches_json(v, j),
        voice_matches_json(w, j),
    ensures
        view_eq_except_downloaded(v@, w@),
{
    let fj = field(j, "files"@)->Some_0;
    match fj {
        JsonValue::Obj(es) => {
            assert forall|i: int| 0 <= i < v@.files.len() implies v@.files[i] == w@.files[i] by {
                assert(v.files@[i].0@ == es@[i].0@);
                assert(w.files@[i].0@ == es@[i].0@);
                assert(Some(v.files@[i].1.size_bytes) == size_field(es@[i].1));
                assert(Some(w.files@[i].1.size_bytes) == size_field(es@[i].1));
            }
            assert(v@.files =~= w@.files);
        },
        _ => {
            assert(false);
        },
    }
}

} // verus!
