use vstd::prelude::*;
use vstd::string::StringExecFns;

verus! {

/// Static configuration for the remote voice repository: the base URL of the
/// repository, the version segment used for the manifest, and the manifest
/// file name.
pub struct HFConfig {
    pub base_url: String,
    pub version: String,
    pub voices_json: String,
}

/// The URL of the remote manifest:
/// `{base_url}/resolve/{version}{voices_json}`.
pub open spec fn spec_voices_url(c: HFConfig) -> Seq<char> {
    c.base_url@ + "/resolve/"@ + c.version@ + c.voices_json@
}

/// The URL of one voice file: `{base_url}/resolve/main/{path}`.
pub open spec fn spec_voice_url(c: HFConfig, path: Seq<char>) -> Seq<char> {
    c.base_url@ + "/resolve/main/"@ + path
}

impl HFConfig {
    pub fn new() -> (r: Self)
        ensures
            r.base_url@ == "https://huggingface.co/rhasspy/piper-voices"@,
            r.version@ == "v1.0.0/"@,
            r.voices_json@ == "voices.json"@,
    {
        Self {
            base_url: "https://huggingface.co/rhasspy/piper-voices".to_owned(),
            version: "v1.0.0/".to_owned(),
            voices_json: "voices.json".to_owned(),
        }
    }

    pub fn get_voices_url(&self) -> (r: String)
        ensures
            r@ == spec_voices_url(*self),
    {
        let mut url = self.base_url.clone();
        url.append("/resolve/");
        url.append(self.version.as_str());
        url.append(self.voices_json.as_str());
        url
    }

    pub fn get_voice_url(&self, path: &String) -> (r: String)
        ensures
            r@ == spec_voice_url(*self, path@),
    {
        let mut url = self.base_url.clone();
        url.append("/resolve/main/");
        url.append(path.as_str());
        url
    }
}

} // verus!
