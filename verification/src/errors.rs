use vstd::prelude::*;
use vstd::string::StringExecFns;

verus! {

/// The failure kinds of the catalog and transfer operations.
///
/// `Network` is a transport or status failure while fetching the manifest or
/// a voice file; `Decode` means the manifest text is not JSON of the expected
/// shape; `Filesystem` is a failure listing, writing or removing local files;
/// `MalformedPath` means a voice's file mapping holds no entry whose path ends
/// in the model extension.
#[derive(Debug)]
pub enum VoiceError {
    Network(String),
    Decode(String),
    Filesystem(String),
    MalformedPath,
}

/// The label that `describe` puts before the detail message of each kind.
pub open spec fn spec_kind_label(e: VoiceError) -> Seq<char> {
    match e {
        VoiceError::Network(_) => "network error: "@,
        VoiceError::Decode(_) => "decode error: "@,
        VoiceError::Filesystem(_) => "filesystem error: "@,
        VoiceError::MalformedPath => "malformed path: "@,
    }
}

/// The detail message carried by the error, if any.
pub open spec fn spec_detail(e: VoiceError) -> Seq<char> {
    match e {
        VoiceError::Network(m) => m@,
        VoiceError::Decode(m) => m@,
        VoiceError::Filesystem(m) => m@,
        VoiceError::MalformedPath => "no model file entry in the voice's file mapping"@,
    }
}

impl VoiceError {
    /// One line of text for the boundary to show: the kind's label followed
    /// by the underlying detail.
    pub fn describe(&self) -> (r: String)
        ensures
            r@ == spec_kind_label(*self) + spec_detail(*self),
    {
        match self {
            VoiceError::Network(m) => {
                let mut s = "network error: ".to_owned();
                s.append(m.as_str());
                s
            },
            VoiceError::Decode(m) => {
                let mut s = "decode error: ".to_owned();
                s.append(m.as_str());
                s
            },
            VoiceError::Filesystem(m) => {
                let mut s = "filesystem error: ".to_owned();
                s.append(m.as_str());
                s
            },
            VoiceError::MalformedPath => {
                let mut s = "malformed path: ".to_owned();
                s.append("no model file entry in the voice's file mapping");
                s
            },
        }
    }
}

} // verus!
