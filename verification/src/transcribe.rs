use vstd::prelude::*;
use crate::feed::opt_view;

verus! {

/// The MIME type that `infer::get` recognizes from a file's leading bytes, if any.
pub uninterp spec fn sniffed_mime(bytes: Seq<u8>) -> Option<Seq<char>>;

/// Calls `infer::get` and takes the MIME type of what it recognizes; the result is
/// named by `sniffed_mime`.
#[verifier::external_body]
fn infer_mime(bytes: &[u8]) -> (r: Option<String>)
    ensures
        opt_view(r) == sniffed_mime(bytes@),
{
    infer::get(bytes).map(|kind| kind.mime_type().to_string())
}

/// Content type sent with an audio file: the recognized MIME type, else
/// `application/octet-stream`.
pub fn content_type_for(bytes: &[u8]) -> (r: String)
    ensures
        r@ == (match sniffed_mime(bytes@) {
            Some(m) => m,
            None => "application/octet-stream"@,
        }),
{
    match infer_mime(bytes) {
        Some(m) => m,
        None => String::from_str("application/octet-stream"),
    }
}

/// The speech-to-text service's address and the requests made to it.
#[derive(Debug, Clone)]
pub struct TranscribeCore {
    pub base_url: String,
}

impl TranscribeCore {
    pub fn new(base_url: String) -> (c: TranscribeCore)
        ensures
            c.base_url == base_url,
    {
        TranscribeCore { base_url }
    }

    /// Where the health check asks for the available models.
    pub fn models_endpoint(&self) -> (r: String)
        ensures
            r@ == self.base_url@ + "/models"@,
    {
        let mut r = self.base_url.clone();
        r.append("/models");
        r
    }

    /// Where audio is sent to be transcribed.
    pub fn transcriptions_endpoint(&self) -> (r: String)
        ensures
            r@ == self.base_url@ + "/audio/transcriptions"@,
    {
        let mut r = self.base_url.clone();
        r.append("/audio/transcriptions");
        r
    }

    /// The text fields sent with the audio: the model and the response format.
    pub fn transcription_fields() -> (r: Vec<(String, String)>)
        ensures
            r@.len() == 2,
            r@[0].0@ == "model"@ && r@[0].1@ == "base"@,
            r@[1].0@ == "response_format"@ && r@[1].1@ == "verbose_json"@,
    {
        let mut r: Vec<(String, String)> = Vec::new();
        r.push((String::from_str("model"), String::from_str("base")));
        r.push((String::from_str("response_format"), String::from_str("verbose_json")));
        r
    }
}

} // verus!
