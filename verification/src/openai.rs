//! The OpenAI-compatible HTTP API: error bodies, response types, and the decisions the
//! handlers make before and after synthesis.
use vstd::prelude::*;
use crate::chars::{char_vec, spec_lower_seq, spec_trim, to_ascii_lower, trimmed_string, push_char};
use crate::paths::{file_name, spec_file_name, spec_file_stem, stem_from_filename};
use crate::text::{chars_eq, spec_split_sentences, split_sentences, strings_view};
use crate::voice_registry::{spec_first_with_id, spec_has_id, VoiceEntry, VoiceRegistry};

verus! {

/// HTTP status of a malformed request.
pub const STATUS_BAD_REQUEST: u16 = 400;
/// HTTP status of an unsupported feature.
pub const STATUS_NOT_IMPLEMENTED: u16 = 501;
/// HTTP status of a failure on the server's side.
pub const STATUS_SERVER_ERROR: u16 = 500;

/// An error answered in the OpenAI error shape
/// `{"error": {"message", "type", "param", "code"}}` with an HTTP status.
#[derive(Debug)]
pub struct ApiError {
    pub status: u16,
    pub message: String,
    pub error_type: String,
    pub param: Option<String>,
    pub code: Option<String>,
}

/// The contents of an `ApiError`.
pub ghost struct ApiErrorView {
    pub status: u16,
    pub message: Seq<char>,
    pub error_type: Seq<char>,
    pub param: Option<Seq<char>>,
    pub code: Option<Seq<char>>,
}

/// The view of an optional string.
pub open spec fn opt_view(o: Option<String>) -> Option<Seq<char>> {
    match o {
        Some(s) => Some(s@),
        None => None,
    }
}

impl View for ApiError {
    type V = ApiErrorView;

    open spec fn view(&self) -> ApiErrorView {
        ApiErrorView {
            status: self.status,
            message: self.message@,
            error_type: self.error_type@,
            param: opt_view(self.param),
            code: opt_view(self.code),
        }
    }
}

/// The error for a malformed request, with the given message.
pub open spec fn spec_bad_request(message: Seq<char>, param: Option<Seq<char>>) -> ApiErrorView {
    ApiErrorView {
        status: STATUS_BAD_REQUEST,
        message,
        error_type: "invalid_request_error"@,
        param,
        code: None,
    }
}

impl ApiError {
    /// A 400 error of type "invalid_request_error".
    pub fn bad_request(message: String) -> (r: Self)
        ensures
            r@ == spec_bad_request(message@, None),
    {
        ApiError {
            status: STATUS_BAD_REQUEST,
            message,
            error_type: String::from_str("invalid_request_error"),
            param: None,
            code: None,
        }
    }

    /// A 501 error of type "not_implemented".
    pub fn not_implemented(message: String) -> (r: Self)
        ensures
            r@ == (ApiErrorView {
                status: STATUS_NOT_IMPLEMENTED,
                message: message@,
                error_type: "not_implemented"@,
                param: None,
                code: None,
            }),
    {
        ApiError {
            status: STATUS_NOT_IMPLEMENTED,
            message,
            error_type: String::from_str("not_implemented"),
            param: None,
            code: None,
        }
    }

    /// A 500 error of type "server_error".
    pub fn server_error(message: String) -> (r: Self)
        ensures
            r@ == (ApiErrorView {
                status: STATUS_SERVER_ERROR,
                message: message@,
                error_type: "server_error"@,
                param: None,
                code: None,
            }),
    {
        ApiError {
            status: STATUS_SERVER_ERROR,
            message,
            error_type: String::from_str("server_error"),
            param: None,
            code: None,
        }
    }

    /// The same error naming the request field at fault.
    pub fn with_param(self, param: String) -> (r: Self)
        ensures
            r@ == (ApiErrorView { param: Some(param@), ..self@ }),
    {
        let mut e = self;
        e.param = Some(param);
        e
    }
}

/// One entry of the voice list in the SillyTavern-compatible format.
#[derive(Debug)]
pub struct ChatterboxVoice {
    pub label: String,
    pub value: String,
}

/// The voice list in the SillyTavern-compatible format.
#[derive(Debug)]
pub struct ChatterboxVoicesResponse {
    pub voices: Vec<ChatterboxVoice>,
}

/// The answer to `GET /v1/models`.
#[derive(Debug)]
pub struct ModelsResponse {
    pub object: String,
    pub data: Vec<ModelEntry>,
}

/// One model of `GET /v1/models`.
#[derive(Debug)]
pub struct ModelEntry {
    pub id: String,
    pub object: String,
}

/// The single model this server offers.
pub fn models_response() -> (r: ModelsResponse)
    ensures
        r.object@ == "list"@,
        r.data@.len() == 1,
        r.data@[0].id@ == "voxcpm"@,
        r.data@[0].object@ == "model"@,
{
    let mut data: Vec<ModelEntry> = Vec::new();
    data.push(ModelEntry { id: String::from_str("voxcpm"), object: String::from_str("model") });
    ModelsResponse { object: String::from_str("list"), data }
}

/// The SillyTavern voice list: a "Random" entry, then each voice with its id as
/// both label and value.
pub fn chatterbox_voices(registry: &VoiceRegistry) -> (r: ChatterboxVoicesResponse)
    ensures
        r.voices@.len() == registry.voices@.len() + 1,
        r.voices@[0].label@ == "Random"@,
        r.voices@[0].value@ == "random"@,
        forall|i: int| 0 <= i < registry.voices@.len() ==> {
            &&& (#[trigger] r.voices@[i + 1]).label@ == registry.voices@[i].voice_id@
            &&& r.voices@[i + 1].value@ == registry.voices@[i].voice_id@
        },
{
    let mut voices: Vec<ChatterboxVoice> = Vec::new();
    voices.push(ChatterboxVoice { label: String::from_str("Random"), value: String::from_str("random") });
    let mut i: usize = 0;
    while i < registry.voices.len()
        invariant
            i <= registry.voices@.len(),
            voices@.len() == i + 1,
            voices@[0].label@ == "Random"@,
            voices@[0].value@ == "random"@,
            forall|j: int| 0 <= j < i ==> {
                &&& (#[trigger] voices@[j + 1]).label@ == registry.voices@[j].voice_id@
                &&& voices@[j + 1].value@ == registry.voices@[j].voice_id@
            },
        decreases registry.voices@.len() - i,
    {
        let v = &registry.voices[i];
        voices.push(ChatterboxVoice { label: v.voice_id.clone(), value: v.voice_id.clone() });
        i += 1;
    }
    ChatterboxVoicesResponse { voices }
}

/// Lower-cased string.
fn lower_string(s: &str) -> (r: String)
    ensures
        r@ == spec_lower_seq(s@),
{
    let v = char_vec(s);
    let mut r = String::new();
    let mut i: usize = 0;
    while i < v.len()
        invariant
            v@ == s@,
            i <= v@.len(),
            r@ == spec_lower_seq(v@.subrange(0, i as int)),
        decreases v@.len() - i,
    {
        push_char(&mut r, to_ascii_lower(v[i]));
        i += 1;
        assert(r@ =~= spec_lower_seq(v@.subrange(0, i as int)));
    }
    assert(v@.subrange(0, v@.len() as int) =~= v@);
    r
}

/// The lower-cased file name a voice is matched by: of its final path component, or of
/// the whole string when there is none.
pub open spec fn spec_wav_key(s: Seq<char>) -> Seq<char> {
    match spec_file_name(s) {
        Some(n) => spec_lower_seq(n),
        None => spec_lower_seq(s),
    }
}

fn wav_key(s: &str) -> (r: String)
    ensures
        r@ == spec_wav_key(s@),
{
    match file_name(s) {
        Some(n) => lower_string(n.as_str()),
        None => lower_string(s),
    }
}

/// `voices[i]` is the first voice whose recording has the file name `key`.
pub open spec fn spec_first_with_wav_key(voices: Seq<VoiceEntry>, key: Seq<char>, i: int) -> bool {
    &&& 0 <= i < voices.len()
    &&& spec_wav_key(voices[i].wav_path@) == key
    &&& forall|j: int| 0 <= j < i ==> spec_wav_key((#[trigger] voices[j]).wav_path@) != key
}

/// The first voice whose recording's file name matches the requested name, ignoring
/// ASCII case (so "Alice.WAV" finds "voices/alice.wav").
pub fn find_voice_by_wav_name(registry: &VoiceRegistry, voice: &str) -> (r: Option<VoiceEntry>)
    ensures
        r is None <==> forall|j: int| 0 <= j < registry.voices@.len() ==>
            spec_wav_key((#[trigger] registry.voices@[j]).wav_path@) != spec_wav_key(voice@),
        r matches Some(e) ==> exists|i: int|
            spec_first_with_wav_key(registry.voices@, spec_wav_key(voice@), i) && e == registry.voices@[i],
{
    let requested = wav_key(voice);
    let mut i: usize = 0;
    while i < registry.voices.len()
        invariant
            requested@ == spec_wav_key(voice@),
            i <= registry.voices@.len(),
            forall|j: int| 0 <= j < i ==> spec_wav_key((#[trigger] registry.voices@[j]).wav_path@) != spec_wav_key(voice@),
        decreases registry.voices@.len() - i,
    {
        let name = wav_key(registry.voices[i].wav_path.as_str());
        if name == requested {
            return Some(registry.voices[i].clone());
        }
        i += 1;
    }
    None
}


/// The voice a request names: its `voice` field trimmed, unless missing or blank.
pub open spec fn spec_requested_voice(voice: Option<Seq<char>>) -> Option<Seq<char>> {
    match voice {
        Some(v) => if spec_trim(v).len() > 0 { Some(spec_trim(v)) } else { None },
        None => None,
    }
}

/// Whether some voice's recording has the file name that `key` names.
pub open spec fn spec_has_wav_key(voices: Seq<VoiceEntry>, key: Seq<char>) -> bool {
    exists|i: int| 0 <= i < voices.len() && spec_wav_key((#[trigger] voices[i]).wav_path@) == spec_wav_key(key)
}

/// The error answered when no voice can be chosen, if any: no voice registered, or a
/// named voice that is neither a registered id nor a recording's file name.
pub open spec fn spec_select_error(voices: Seq<VoiceEntry>, voice: Option<Seq<char>>) -> Option<ApiErrorView> {
    if voices.len() == 0 {
        Some(spec_bad_request("no voices available"@, None))
    } else {
        match spec_requested_voice(voice) {
            None => None,
            Some(r) => if r == "random"@ || spec_has_id(voices, r) || spec_has_wav_key(voices, r) {
                None
            } else {
                Some(spec_bad_request("unknown voice_id"@, Some("voice"@)))
            },
        }
    }
}

/// Whether `e` is a voice that may be chosen for the request: the default (first) voice
/// when none is named; any voice for "random"; otherwise the first voice with that id,
/// or else the first whose recording has that file name.
pub open spec fn spec_selected(voices: Seq<VoiceEntry>, voice: Option<Seq<char>>, e: VoiceEntry) -> bool {
    match spec_requested_voice(voice) {
        None => voices.len() > 0 && e == voices[0],
        Some(r) => if r == "random"@ {
            exists|i: int| 0 <= i < voices.len() && e == voices[i]
        } else if spec_has_id(voices, r) {
            exists|i: int| spec_first_with_id(voices, r, i) && e == voices[i]
        } else {
            exists|i: int| spec_first_with_wav_key(voices, spec_wav_key(r), i) && e == voices[i]
        },
    }
}

/// The view of an optional string slice.
pub open spec fn opt_str_view(o: Option<&str>) -> Option<Seq<char>> {
    match o {
        Some(s) => Some(s@),
        None => None,
    }
}

/// Chooses the voice for a speech request (see `spec_selected` and `spec_select_error`).
pub fn select_voice(registry: &VoiceRegistry, voice: Option<&str>) -> (r: Result<VoiceEntry, ApiError>)
    ensures
        r is Err <==> spec_select_error(registry.voices@, opt_str_view(voice)) is Some,
        r matches Err(e) ==> spec_select_error(registry.voices@, opt_str_view(voice)) == Some(e@),
        r matches Ok(e) ==> spec_selected(registry.voices@, opt_str_view(voice), e),
{
    if registry.voices.len() == 0 {
        return Err(ApiError::bad_request(String::from_str("no voices available")));
    }
    let requested: Option<String> = match voice {
        Some(v) => {
            let cv = char_vec(v);
            let n = cv.len();
            assert(cv@.subrange(0, n as int) =~= cv@);
            let t = trimmed_string(cv.as_slice(), n);
            if t.as_str().is_empty() { None } else { Some(t) }
        }
        None => None,
    };
    match requested {
        None => {
            match registry.default_voice() {
                Some(e) => Ok(e),
                None => Err(ApiError::bad_request(String::from_str("no default voice configured"))),
            }
        }
        Some(id) => {
            let idv = char_vec(id.as_str());
            let k = idv.len();
            if chars_eq(idv.as_slice(), 0, k, "random") {
                assert(idv@.subrange(0, k as int) =~= idv@);
                match registry.random_voice() {
                    Some(e) => Ok(e),
                    None => Err(ApiError::bad_request(String::from_str("no voices available"))),
                }
            } else {
                assert(idv@.subrange(0, k as int) =~= idv@);
                match registry.get_voice(id.as_str()) {
                    Some(e) => Ok(e),
                    None => match find_voice_by_wav_name(registry, id.as_str()) {
                        Some(e) => Ok(e),
                        None => Err(ApiError::bad_request(String::from_str("unknown voice_id"))
                            .with_param(String::from_str("voice"))),
                    },
                }
            }
        }
    }
}

/// The audio encodings a speech response can have.
#[derive(Debug, Clone, Copy, PartialEq, Eq, Structural)]
pub enum AudioFormat {
    /// A WAV file of 16-bit mono samples.
    Wav,
    /// Raw 16-bit little-endian mono samples.
    Pcm,
}

/// What a speech request asks for, once checked.
#[derive(Debug)]
pub struct SpeechPlan {
    pub voice: VoiceEntry,
    pub format: AudioFormat,
    pub stream: bool,
    /// The texts synthesised one after another.
    pub chunks: Vec<String>,
}

/// The requested response format, lower-cased, "wav" when absent.
pub open spec fn spec_format_name(response_format: Option<Seq<char>>) -> Seq<char> {
    match response_format {
        Some(f) => spec_lower_seq(f),
        None => "wav"@,
    }
}

/// The error a speech request is answered with, if any, checked in this order: blank
/// input; a format other than "wav" or "pcm"; no voice to choose; streaming a format
/// other than WAV.
pub open spec fn spec_speech_error(
    voices: Seq<VoiceEntry>,
    input: Seq<char>,
    response_format: Option<Seq<char>>,
    stream: Option<bool>,
    voice: Option<Seq<char>>,
) -> Option<ApiErrorView> {
    let fmt = spec_format_name(response_format);
    if spec_trim(input).len() == 0 {
        Some(spec_bad_request("input is required"@, Some("input"@)))
    } else if fmt != "wav"@ && fmt != "pcm"@ {
        Some(spec_bad_request("unsupported response_format"@, Some("response_format"@)))
    } else if spec_select_error(voices, voice) is Some {
        spec_select_error(voices, voice)
    } else if stream == Some(true) && fmt != "wav"@ {
        Some(spec_bad_request("streaming requires wav"@, Some("response_format"@)))
    } else {
        None
    }
}

fn format_name(response_format: Option<&str>) -> (r: String)
    ensures
        r@ == spec_format_name(opt_str_view(response_format)),
{
    match response_format {
        Some(f) => lower_string(f),
        None => String::from_str("wav"),
    }
}

/// Checks a speech request and decides how it is served: which voice, which format,
/// streamed or not, and the texts to synthesise (the sentences of the input, or the
/// whole input when chunking is disabled). Errors as `spec_speech_error` lists them.
pub fn plan_speech(
    registry: &VoiceRegistry,
    input: &str,
    response_format: Option<&str>,
    stream: Option<bool>,
    voice: Option<&str>,
    disable_chunking: bool,
) -> (r: Result<SpeechPlan, ApiError>)
    ensures
        r is Err <==> spec_speech_error(registry.voices@, input@, opt_str_view(response_format), stream, opt_str_view(voice)) is Some,
        r matches Err(e) ==> spec_speech_error(registry.voices@, input@, opt_str_view(response_format), stream, opt_str_view(voice)) == Some(e@),
        r matches Ok(p) ==> {
            &&& spec_selected(registry.voices@, opt_str_view(voice), p.voice)
            &&& p.stream == (stream == Some(true))
            &&& (p.format == AudioFormat::Wav <==> spec_format_name(opt_str_view(response_format)) == "wav"@)
            &&& (p.format == AudioFormat::Pcm <==> spec_format_name(opt_str_view(response_format)) == "pcm"@)
            &&& strings_view(p.chunks@) == if disable_chunking { seq![input@] } else { spec_split_sentences(input@) }
        },
{
    let stream_flag = match stream { Some(b) => b, None => false };
    let iv = char_vec(input);
    let n = iv.len();
    assert(iv@.subrange(0, n as int) =~= iv@);
    let trimmed = trimmed_string(iv.as_slice(), n);
    if trimmed.as_str().is_empty() {
        return Err(ApiError::bad_request(String::from_str("input is required")).with_param(String::from_str("input")));
    }
    let fmt = format_name(response_format);
    let fv = char_vec(fmt.as_str());
    let m = fv.len();
    assert(fv@.subrange(0, m as int) =~= fv@);
    let is_wav = chars_eq(fv.as_slice(), 0, m, "wav");
    let is_pcm = chars_eq(fv.as_slice(), 0, m, "pcm");
    if !is_wav && !is_pcm {
        return Err(ApiError::bad_request(String::from_str("unsupported response_format"))
            .with_param(String::from_str("response_format")));
    }
    let chosen = select_voice(registry, voice);
    let chosen = match chosen {
        Ok(e) => e,
        Err(e) => return Err(e),
    };
    let chunks = if disable_chunking {
        let mut c: Vec<String> = Vec::new();
        c.push(String::from_str(input));
        assert(strings_view(c@) =~= seq![input@]);
        c
    } else {
        split_sentences(input)
    };
    if stream_flag && !is_wav {
        return Err(ApiError::bad_request(String::from_str("streaming requires wav"))
            .with_param(String::from_str("response_format")));
    }
    proof {
        reveal_strlit("wav");
        reveal_strlit("pcm");
        assert("wav"@[0] != "pcm"@[0]);
        assert("wav"@ != "pcm"@);
        assert(fmt@ == fv@);
    }
    let format = if is_wav { AudioFormat::Wav } else { AudioFormat::Pcm };
    Ok(SpeechPlan { voice: chosen, format, stream: stream_flag, chunks })
}

/// The transcript and label of a voice upload, once checked.
#[derive(Debug)]
pub struct UploadFields {
    pub transcript: String,
    pub label: String,
}

/// The error a voice upload is answered with, if any: no file, then a missing or blank
/// transcript.
pub open spec fn spec_upload_error(has_file: bool, transcript: Option<Seq<char>>) -> Option<ApiErrorView> {
    if !has_file {
        Some(spec_bad_request("missing file"@, Some("file"@)))
    } else if !(transcript matches Some(t) && spec_trim(t).len() > 0) {
        Some(spec_bad_request("missing transcript"@, Some("transcript"@)))
    } else {
        None
    }
}

/// The label of an uploaded voice: the given label when not blank, else the uploaded
/// file's stem, else "voice"; then trimmed.
pub open spec fn spec_upload_label(label: Option<Seq<char>>, filename: Option<Seq<char>>) -> Seq<char> {
    let chosen = if label matches Some(l) && spec_trim(l).len() > 0 {
        label->0
    } else if filename matches Some(f) && spec_file_stem(f) is Some {
        spec_file_stem(filename->0)->0
    } else {
        "voice"@
    };
    spec_trim(chosen)
}

/// Checks the form fields of a voice upload (see `spec_upload_error`) and picks its
/// label (see `spec_upload_label`); the transcript is kept as sent.
pub fn check_voice_upload(
    has_file: bool,
    transcript: Option<String>,
    label: Option<String>,
    filename: Option<String>,
) -> (r: Result<UploadFields, ApiError>)
    ensures
        r is Err <==> spec_upload_error(has_file, opt_view(transcript)) is Some,
        r matches Err(e) ==> spec_upload_error(has_file, opt_view(transcript)) == Some(e@),
        r matches Ok(f) ==> {
            &&& opt_view(transcript) == Some(f.transcript@)
            &&& f.label@ == spec_upload_label(opt_view(label), opt_view(filename))
        },
{
    if !has_file {
        return Err(ApiError::bad_request(String::from_str("missing file")).with_param(String::from_str("file")));
    }
    let transcript = match transcript {
        Some(t) => {
            if is_blank(t.as_str()) {
                return Err(ApiError::bad_request(String::from_str("missing transcript"))
                    .with_param(String::from_str("transcript")));
            }
            t
        }
        None => {
            return Err(ApiError::bad_request(String::from_str("missing transcript"))
                .with_param(String::from_str("transcript")));
        }
    };
    let given = match label {
        Some(l) => if is_blank(l.as_str()) { None } else { Some(l) },
        None => None,
    };
    let chosen = match given {
        Some(l) => l,
        None => {
            let stem = match filename {
                Some(f) => stem_from_filename(f.as_str()),
                None => None,
            };
            match stem {
                Some(s) => s,
                None => String::from_str("voice"),
            }
        }
    };
    let cv = char_vec(chosen.as_str());
    let n = cv.len();
    assert(cv@.subrange(0, n as int) =~= cv@);
    let label = trimmed_string(cv.as_slice(), n);
    Ok(UploadFields { transcript, label })
}

fn is_blank(s: &str) -> (r: bool)
    ensures
        r == (spec_trim(s@).len() == 0),
{
    let cv = char_vec(s);
    let n = cv.len();
    assert(cv@.subrange(0, n as int) =~= cv@);
    let t = trimmed_string(cv.as_slice(), n);
    t.as_str().is_empty()
}


/// A label that is not blank names the voice, trimmed, whatever file came with it;
/// only without one does the file's stem (trimmed) or else "voice" stand in.
pub proof fn lemma_upload_label_choice(label: Option<Seq<char>>, filename: Option<Seq<char>>)
    ensures
        label is Some && spec_trim(label->0).len() > 0 ==> spec_upload_label(label, filename) == spec_trim(label->0),
        !(label is Some && spec_trim(label->0).len() > 0) ==> spec_upload_label(label, filename) == (
            if filename is Some && spec_file_stem(filename->0) is Some {
                spec_trim(spec_file_stem(filename->0)->0)
            } else {
                spec_trim("voice"@)
            }),
        !(label is Some && spec_trim(label->0).len() > 0) ==> spec_upload_label(label, filename) == spec_upload_label(None, filename),
{
}

} // verus!
