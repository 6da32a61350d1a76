//! What can go wrong at the audio edge.

use crate::text::{concat2, concat3, hex, hex8_text};
use vstd::prelude::*;

verus! {

#[derive(Debug, Clone)]
pub enum AudioError {
    DeviceNotFound(String),
    VbCableMissing,
    AmbiguousDevice(String),
    UnsupportedFormat(String),
    Wasapi { context: &'static str, source: String },
    ThreadDied,
    Other(String),
}

/// The text of an error.
pub open spec fn error_text(e: AudioError) -> Seq<char> {
    match e {
        AudioError::DeviceNotFound(what) => "device not found: "@ + what@,
        AudioError::VbCableMissing =>
            "VB-Cable input device is not installed (looked for friendly name containing 'CABLE Input')"@,
        AudioError::AmbiguousDevice(what) => what@,
        AudioError::UnsupportedFormat(what) => "unsupported audio format: "@ + what@,
        AudioError::Wasapi { context, source } => "WASAPI call failed: "@ + context@ + ": "@
            + source@,
        AudioError::ThreadDied => "audio thread panicked or exited unexpectedly"@,
        AudioError::Other(what) => what@,
    }
}

impl AudioError {
    /// A failed system call: which one, the `HRESULT`, and the system's own words.
    pub fn wasapi(context: &'static str, hresult: u32, words: &str) -> (r: Self)
        ensures
            r matches AudioError::Wasapi { context: c, source } && c@ == context@ && source@
                == "HRESULT 0x"@ + hex(hresult as nat, 8) + ": "@ + words@,
    {
        let mut source: String = concat3("HRESULT 0x", hex8_text(hresult).as_str(), ": ");
        source.append(words);
        AudioError::Wasapi { context, source }
    }

    /// What the user reads.
    pub fn message(&self) -> (r: String)
        ensures
            r@ == error_text(*self),
    {
        match self {
            AudioError::DeviceNotFound(what) => concat2("device not found: ", what.as_str()),
            AudioError::VbCableMissing =>
                "VB-Cable input device is not installed (looked for friendly name containing 'CABLE Input')".to_owned(),
            AudioError::AmbiguousDevice(what) => what.clone(),
            AudioError::UnsupportedFormat(what) => concat2(
                "unsupported audio format: ",
                what.as_str(),
            ),
            AudioError::Wasapi { context, source } => {
                let mut r: String = concat3("WASAPI call failed: ", *context, ": ");
                r.append(source.as_str());
                r
            },
            AudioError::ThreadDied => "audio thread panicked or exited unexpectedly".to_owned(),
            AudioError::Other(what) => what.clone(),
        }
    }
}

/// What the user reads of an error is what is known of it, behind the words for its kind.
pub proof fn law_error_texts_hold_what_is_known(what: String, context: &'static str)
    ensures
        error_text(AudioError::DeviceNotFound(what)) == "device not found: "@ + what@,
        error_text(AudioError::UnsupportedFormat(what)) == "unsupported audio format: "@ + what@,
        error_text(AudioError::AmbiguousDevice(what)) == what@,
        error_text(AudioError::Other(what)) == what@,
        error_text(AudioError::Wasapi { context, source: what }) == "WASAPI call failed: "@
            + context@ + ": "@ + what@,
        error_text(AudioError::VbCableMissing)
            == "VB-Cable input device is not installed (looked for friendly name containing 'CABLE Input')"@,
        error_text(AudioError::ThreadDied) == "audio thread panicked or exited unexpectedly"@,
{
}

} // verus!
