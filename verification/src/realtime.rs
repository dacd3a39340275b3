//! The Realtime sessions of the two capture channels: which requests and
//! audio routes are accepted, what is sent to the provider, and what its
//! events become for the renderer.
use vstd::prelude::*;
use base64::Engine;
use crate::audio::{Platform, capture_output_match, system_capture_output_match};
use crate::json::{Json, JsonNumber, get_member, object_get};
use crate::text::{
    ByteClass, all_bytes_in, byte_len, bytes_in_class, concat_str, contains_control, has_control,
    is_whitespace, is_whitespace_char, split_seq, split_str, str_byte_len, str_eq, str_trim,
    string_push, to_ascii_lowercase, ascii_lower, trim_seq, views,
};

verus! {

pub const TRANSCRIPTION_ENDPOINT: &'static str = "wss://api.openai.com/v1/realtime";
pub const TRANSLATION_ENDPOINT: &'static str =
    "wss://api.openai.com/v1/realtime/translations?model=gpt-realtime-translate";
pub const TRANSCRIPTION_MODEL: &'static str = "gpt-live-transcribe";
pub const REALTIME_EVENT: &'static str = "realtime:event";
pub const MAX_WEBSOCKET_MESSAGE_BYTES: usize = 4 * 1024 * 1024;
pub const MAX_AUDIO_SAMPLES_PER_CHUNK: usize = 48_000;
pub const MAX_OUTPUT_AUDIO_BYTES: usize = 2 * 1024 * 1024;
pub const MAX_TRANSCRIPT_DELTA_BYTES: usize = 64 * 1024;
pub const MAX_TRANSCRIPT_BYTES: usize = 256 * 1024;
pub const MAX_DEVICE_ID_BYTES: usize = 2 * 1024;
pub const MAX_PROVIDER_MESSAGE_BYTES: usize = 320;

pub const DEVICE_ID_MESSAGE: &'static str = "Audio device identifier is invalid";
pub const LANGUAGE_REQUIRED_MESSAGE: &'static str = "Translation target language is required";
pub const LANGUAGE_MESSAGE: &'static str = "Unsupported realtime translation language";
pub const SAME_DEVICE_MESSAGE: &'static str =
    "System audio input and translated output must use different devices to prevent an audio loop";
pub const MICROPHONE_OUTPUT_MESSAGE: &'static str =
    "The microphone translation output is routed into active system-audio capture";
pub const SELECTED_OUTPUT_MESSAGE: &'static str =
    "The selected translation output is routed into active system-audio capture";

#[derive(Clone, Copy, Debug, PartialEq, Eq, Structural)]
pub enum RealtimeChannel {
    Microphone,
    System,
}

#[derive(Clone, Copy, Debug, PartialEq, Eq, Structural)]
pub enum RealtimeMode {
    Transcribe,
    Translate,
}

/// A request of the renderer to start a channel.
#[derive(Clone, Debug)]
pub struct RealtimeStartRequest {
    pub channel: RealtimeChannel,
    pub mode: RealtimeMode,
    pub playback_enabled: bool,
    pub input_device_id: Option<String>,
    pub output_device_id: Option<String>,
    pub target_language: Option<String>,
}

/// A start request once checked.
#[derive(Clone, Debug)]
pub struct NormalizedRequest {
    pub channel: RealtimeChannel,
    pub mode: RealtimeMode,
    pub playback_enabled: bool,
    pub input_device_id: Option<String>,
    pub output_device_id: Option<String>,
    pub target_language: Option<String>,
}

pub open spec fn opt_string_view(o: Option<String>) -> Option<Seq<char>> {
    match o {
        Some(s) => Some(s@),
        None => None,
    }
}

/// What `normalize_device_id` gives: no device for a missing or blank
/// ID, else the trimmed ID where it is bounded and has no control
/// character.
pub open spec fn device_id_verdict(value: Option<Seq<char>>) -> Result<Option<Seq<char>>, Seq<char>> {
    match value {
        None => Ok(None),
        Some(v) => {
            let t = trim_seq(v);
            if t.len() == 0 {
                Ok(None)
            } else if byte_len(t) > MAX_DEVICE_ID_BYTES || has_control(t) {
                Err(DEVICE_ID_MESSAGE@)
            } else {
                Ok(Some(t))
            }
        },
    }
}

pub open spec fn same_outcome(r: Result<Option<String>, String>, v: Result<Option<Seq<char>>, Seq<char>>) -> bool {
    match (r, v) {
        (Ok(a), Ok(b)) => opt_string_view(a) == b,
        (Err(a), Err(b)) => a@ == b,
        _ => false,
    }
}

pub fn normalize_device_id(value: Option<String>) -> (r: Result<Option<String>, String>)
    ensures
        same_outcome(r, device_id_verdict(opt_string_view(value))),
{
    let value = match value {
        None => return Ok(None),
        Some(v) => v,
    };
    let trimmed = str_trim(value.as_str());
    if trimmed.is_empty() {
        return Ok(None);
    }
    if str_byte_len(trimmed) > MAX_DEVICE_ID_BYTES || contains_control(trimmed) {
        return Err(DEVICE_ID_MESSAGE.to_owned());
    }
    Ok(Some(trimmed.to_owned()))
}

/// A subtag after the primary language: two to eight lowercase letters or
/// digits.
pub open spec fn valid_extension(part: Seq<char>) -> bool {
    2 <= byte_len(part) <= 8 && all_bytes_in(vstd::utf8::encode_utf8(part), ByteClass::LowerAlnum)
}

/// A BCP 47 style tag, lowercased: a primary language of two or three
/// letters, then up to three subtags, at most 35 bytes in all.
pub open spec fn valid_language_tag(v: Seq<char>) -> bool {
    let parts = split_seq(v, '-');
    let primary = parts[0];
    let extensions = parts.drop_first();
    &&& byte_len(v) <= 35
    &&& (byte_len(primary) == 2 || byte_len(primary) == 3)
    &&& all_bytes_in(vstd::utf8::encode_utf8(primary), ByteClass::LowerAlpha)
    &&& extensions.len() <= 3
    &&& forall|i: int| 0 <= i < extensions.len() ==> valid_extension(#[trigger] extensions[i])
}

/// The target language as the provider receives it: trimmed and ASCII
/// lowercased.
pub open spec fn language_of(value: Seq<char>) -> Seq<char> {
    trim_seq(value).map_values(|c: char| ascii_lower(c))
}

pub fn normalize_target_language(value: &str) -> (r: Result<String, String>)
    ensures
        match r {
            Ok(s) => valid_language_tag(language_of(value@)) && s@ == language_of(value@),
            Err(e) => !valid_language_tag(language_of(value@)) && e@ == LANGUAGE_MESSAGE@,
        },
{
    let lowered = to_ascii_lowercase(str_trim(value));
    let parts = split_str(lowered.as_str(), '-');
    proof {
        crate::text::lemma_split_nonempty(lowered@, '-');
        assert(views(parts@).len() == parts@.len());
    }
    let primary = &parts[0];
    let primary_len = str_byte_len(primary.as_str());
    let primary_valid = (primary_len == 2 || primary_len == 3) && bytes_in_class(
        primary.as_str(),
        ByteClass::LowerAlpha,
    );
    let mut extensions_valid = parts.len() <= 4;
    let mut i: usize = 1;
    while i < parts.len()
        invariant
            1 <= i <= parts@.len(),
            views(parts@) == split_seq(lowered@, '-'),
            extensions_valid == (parts@.len() <= 4 && forall|j: int|
                1 <= j < i ==> valid_extension(#[trigger] parts@[j]@)),
        decreases parts@.len() - i,
    {
        let len = str_byte_len(parts[i].as_str());
        let ok = 2 <= len && len <= 8 && bytes_in_class(parts[i].as_str(), ByteClass::LowerAlnum);
        if !ok {
            extensions_valid = false;
        }
        i = i + 1;
    }
    proof {
        let pv = split_seq(lowered@, '-');
        assert(pv[0] == parts@[0]@);
        assert forall|j: int| 0 <= j < pv.drop_first().len() implies pv.drop_first()[j] == parts@[j
            + 1]@ by {}
        if extensions_valid {
            assert forall|j: int| 0 <= j < pv.drop_first().len() implies valid_extension(
                #[trigger] pv.drop_first()[j],
            ) by {
                assert(valid_extension(parts@[j + 1]@));
            }
        } else if parts@.len() <= 4 {
            let j = choose|j: int| 1 <= j < parts@.len() && !valid_extension(#[trigger] parts@[j]@);
            assert(!valid_extension(pv.drop_first()[j - 1]));
        }
    }
    if str_byte_len(lowered.as_str()) <= 35 && primary_valid && extensions_valid {
        Ok(lowered)
    } else {
        Err(LANGUAGE_MESSAGE.to_owned())
    }
}

/// What `normalize_request` decides of a start request.
pub open spec fn request_accepted(r: RealtimeStartRequest) -> bool {
    &&& device_id_verdict(opt_string_view(r.input_device_id)) is Ok
    &&& device_id_verdict(opt_string_view(r.output_device_id)) is Ok
    &&& r.mode == RealtimeMode::Translate ==> (r.target_language matches Some(t)
        && valid_language_tag(language_of(t@)))
}

/// Checks a start request. Speech playback is only for translation, and a
/// transcription carries no target language.
pub fn normalize_request(request: RealtimeStartRequest) -> (r: Result<NormalizedRequest, String>)
    ensures
        r is Ok == request_accepted(request),
        r matches Ok(n) ==> {
            &&& n.channel == request.channel
            &&& n.mode == request.mode
            &&& n.playback_enabled == (request.mode == RealtimeMode::Translate
                && request.playback_enabled)
            &&& Ok::<Option<Seq<char>>, Seq<char>>(opt_string_view(n.input_device_id))
                == device_id_verdict(opt_string_view(request.input_device_id))
            &&& Ok::<Option<Seq<char>>, Seq<char>>(opt_string_view(n.output_device_id))
                == device_id_verdict(opt_string_view(request.output_device_id))
            &&& match request.mode {
                RealtimeMode::Transcribe => n.target_language is None,
                RealtimeMode::Translate => opt_string_view(n.target_language) == Some(
                    language_of(request.target_language->0@),
                ),
            }
        },
        r matches Err(e) ==> {
            ||| device_id_verdict(opt_string_view(request.input_device_id)) == Err::<
                Option<Seq<char>>,
                Seq<char>,
            >(e@)
            ||| device_id_verdict(opt_string_view(request.output_device_id)) == Err::<
                Option<Seq<char>>,
                Seq<char>,
            >(e@)
            ||| request.mode == RealtimeMode::Translate && request.target_language is None && e@
                == LANGUAGE_REQUIRED_MESSAGE@
            ||| request.mode == RealtimeMode::Translate && e@ == LANGUAGE_MESSAGE@
        },
{
    let RealtimeStartRequest {
        channel,
        mode,
        playback_enabled,
        input_device_id,
        output_device_id,
        target_language,
    } = request;
    let input_device_id = normalize_device_id(input_device_id)?;
    let output_device_id = normalize_device_id(output_device_id)?;
    let playback_enabled = mode == RealtimeMode::Translate && playback_enabled;
    let target_language = match mode {
        RealtimeMode::Transcribe => None,
        RealtimeMode::Translate => {
            let language = match &target_language {
                Some(t) => t,
                None => return Err(LANGUAGE_REQUIRED_MESSAGE.to_owned()),
            };
            Some(normalize_target_language(language.as_str())?)
        },
    };
    Ok(NormalizedRequest {
        channel,
        mode,
        playback_enabled,
        input_device_id,
        output_device_id,
        target_language,
    })
}

// ---------------------------------------------------------------------
// Audio routes
// ---------------------------------------------------------------------

/// The audio route that a channel's session holds.
#[derive(Clone, Debug)]
pub struct ReservedRoute {
    pub generation: u64,
    pub mode: RealtimeMode,
    pub playback_enabled: bool,
    pub input_device_id: Option<String>,
    pub output_device_id: Option<String>,
}

/// The routes held by the channels, one at most for each.
#[derive(Debug)]
pub struct RouteTable {
    pub microphone: Option<ReservedRoute>,
    pub system: Option<ReservedRoute>,
}

impl RouteTable {
    pub open spec fn route(&self, channel: RealtimeChannel) -> Option<ReservedRoute> {
        match channel {
            RealtimeChannel::Microphone => self.microphone,
            RealtimeChannel::System => self.system,
        }
    }

    pub fn new() -> (r: RouteTable)
        ensures
            r.microphone is None,
            r.system is None,
    {
        RouteTable { microphone: None, system: None }
    }

    pub fn get(&self, channel: RealtimeChannel) -> (r: Option<&ReservedRoute>)
        ensures
            match r {
                Some(x) => self.route(channel) == Some(*x),
                None => self.route(channel) is None,
            },
    {
        match channel {
            RealtimeChannel::Microphone => self.microphone.as_ref(),
            RealtimeChannel::System => self.system.as_ref(),
        }
    }

    pub fn insert(&mut self, channel: RealtimeChannel, route: ReservedRoute)
        ensures
            final(self).route(channel) == Some(route),
            final(self).route(other(channel)) == old(self).route(other(channel)),
    {
        match channel {
            RealtimeChannel::Microphone => self.microphone = Some(route),
            RealtimeChannel::System => self.system = Some(route),
        }
    }

    pub fn remove(&mut self, channel: RealtimeChannel)
        ensures
            final(self).route(channel) is None,
            final(self).route(other(channel)) == old(self).route(other(channel)),
    {
        match channel {
            RealtimeChannel::Microphone => self.microphone = None,
            RealtimeChannel::System => self.system = None,
        }
    }
}

/// The channel other than `c`.
pub open spec fn other(c: RealtimeChannel) -> RealtimeChannel {
    match c {
        RealtimeChannel::Microphone => RealtimeChannel::System,
        RealtimeChannel::System => RealtimeChannel::Microphone,
    }
}

/// Whether audio played on `right` may be heard by a capture of `left`
/// (or the reverse): as the platform's system source says, else where both
/// are the same device, the default ones included.
pub open spec fn may_match(platform: Platform, left: Option<Seq<char>>, right: Option<Seq<char>>) -> bool {
    match capture_output_match(platform, left, right) {
        Some(m) => m,
        None => match capture_output_match(platform, right, left) {
            Some(m) => m,
            None => left == right,
        },
    }
}

pub open spec fn opt_str_view(o: Option<&str>) -> Option<Seq<char>> {
    match o {
        Some(s) => Some(s@),
        None => None,
    }
}

pub fn endpoints_may_match(platform: Platform, left: Option<&str>, right: Option<&str>) -> (r: bool)
    ensures
        r == may_match(platform, opt_str_view(left), opt_str_view(right)),
{
    match system_capture_output_match(platform, left, right) {
        Some(m) => return m,
        None => {},
    }
    match system_capture_output_match(platform, right, left) {
        Some(m) => return m,
        None => {},
    }
    match (left, right) {
        (None, None) => true,
        (Some(l), Some(r)) => str_eq(l, r),
        _ => false,
    }
}

pub open spec fn plays_translation(route: ReservedRoute) -> bool {
    route.mode == RealtimeMode::Translate && route.playback_enabled
}

/// What `validate_feedback_route` decides of `candidate` on `channel`
/// beside the routes already held.
pub open spec fn feedback_verdict(
    platform: Platform,
    channel: RealtimeChannel,
    candidate: ReservedRoute,
    routes: RouteTable,
) -> Result<(), Seq<char>> {
    let cin = opt_string_view(candidate.input_device_id);
    let cout = opt_string_view(candidate.output_device_id);
    if channel == RealtimeChannel::System && plays_translation(candidate) && may_match(
        platform,
        cin,
        cout,
    ) {
        Err(SAME_DEVICE_MESSAGE@)
    } else {
        match routes.route(other(channel)) {
            None => Ok(()),
            Some(o) => if channel == RealtimeChannel::System && plays_translation(o) && may_match(
                platform,
                cin,
                opt_string_view(o.output_device_id),
            ) {
                Err(MICROPHONE_OUTPUT_MESSAGE@)
            } else if other(channel) == RealtimeChannel::System && plays_translation(candidate)
                && may_match(platform, opt_string_view(o.input_device_id), cout) {
                Err(SELECTED_OUTPUT_MESSAGE@)
            } else {
                Ok(())
            },
        }
    }
}

fn opt_as_str(o: &Option<String>) -> (r: Option<&str>)
    ensures
        opt_str_view(r) == opt_string_view(*o),
{
    match o {
        Some(s) => Some(s.as_str()),
        None => None,
    }
}

/// Refuses a route that would play translated speech into a system-audio
/// capture: on the system channel itself, or across the two channels.
pub fn validate_feedback_route(
    platform: Platform,
    channel: RealtimeChannel,
    candidate: &ReservedRoute,
    routes: &RouteTable,
) -> (r: Result<(), String>)
    ensures
        match r {
            Ok(_) => feedback_verdict(platform, channel, *candidate, *routes) is Ok,
            Err(e) => feedback_verdict(platform, channel, *candidate, *routes) == Err::<
                (),
                Seq<char>,
            >(e@),
        },
{
    let cin = opt_as_str(&candidate.input_device_id);
    let cout = opt_as_str(&candidate.output_device_id);
    let candidate_plays = candidate.mode == RealtimeMode::Translate && candidate.playback_enabled;
    if channel == RealtimeChannel::System && candidate_plays && endpoints_may_match(
        platform,
        cin,
        cout,
    ) {
        return Err(SAME_DEVICE_MESSAGE.to_owned());
    }
    let other_channel = match channel {
        RealtimeChannel::Microphone => RealtimeChannel::System,
        RealtimeChannel::System => RealtimeChannel::Microphone,
    };
    let o = match routes.get(other_channel) {
        None => return Ok(()),
        Some(o) => o,
    };
    let other_plays = o.mode == RealtimeMode::Translate && o.playback_enabled;
    if channel == RealtimeChannel::System && other_plays && endpoints_may_match(
        platform,
        cin,
        opt_as_str(&o.output_device_id),
    ) {
        return Err(MICROPHONE_OUTPUT_MESSAGE.to_owned());
    }
    if other_channel == RealtimeChannel::System && candidate_plays && endpoints_may_match(
        platform,
        opt_as_str(&o.input_device_id),
        cout,
    ) {
        return Err(SELECTED_OUTPUT_MESSAGE.to_owned());
    }
    Ok(())
}


// ---------------------------------------------------------------------
// Messages to the provider
// ---------------------------------------------------------------------

/// The members of an object, none for another value.
pub open spec fn fields(j: Json) -> Seq<(String, Json)> {
    match j {
        Json::Object(entries) => entries@,
        _ => Seq::empty(),
    }
}

/// `j` is an object whose members are named `keys`, in order.
pub open spec fn has_keys(j: Json, keys: Seq<Seq<char>>) -> bool {
    &&& j is Object
    &&& fields(j).len() == keys.len()
    &&& forall|i: int| 0 <= i < keys.len() ==> (#[trigger] fields(j)[i]).0@ == keys[i]
}

/// The value of the `i`-th member of `j`.
pub open spec fn field(j: Json, i: int) -> Json {
    fields(j)[i].1
}

pub open spec fn is_text(j: Json, s: Seq<char>) -> bool {
    j matches Json::String(x) && x@ == s
}

fn text(s: &str) -> (r: Json)
    ensures
        is_text(r, s@),
{
    Json::String(s.to_owned())
}

fn entry(key: &str, value: Json) -> (r: (String, Json))
    ensures
        r.0@ == key@,
        r.1 == value,
{
    (key.to_owned(), value)
}

/// The `threshold` of the server voice activity detection, as the bits of
/// the float 0.35.
pub const VAD_THRESHOLD_BITS: u64 = 0x3fd6_6666_6666_6666;

/// The `session.update` of a transcription session: 24 kHz PCM input,
/// far-field noise reduction, the transcription model with low delay, and
/// server voice activity detection.
pub open spec fn transcription_update(u: Json) -> bool {
    &&& has_keys(u, seq!["type"@, "session"@])
    &&& is_text(field(u, 0), "session.update"@)
    &&& has_keys(field(u, 1), seq!["type"@, "audio"@])
    &&& is_text(field(field(u, 1), 0), "transcription"@)
    &&& has_keys(field(field(u, 1), 1), seq!["input"@])
    &&& {
        let input = field(field(field(u, 1), 1), 0);
        &&& has_keys(input, seq!["format"@, "noise_reduction"@, "transcription"@, "turn_detection"@])
        &&& has_keys(field(input, 0), seq!["type"@, "rate"@])
        &&& is_text(field(field(input, 0), 0), "audio/pcm"@)
        &&& field(field(input, 0), 1) == Json::Number(JsonNumber::PosInt(24_000))
        &&& has_keys(field(input, 1), seq!["type"@])
        &&& is_text(field(field(input, 1), 0), "far_field"@)
        &&& has_keys(field(input, 2), seq!["model"@, "delay"@])
        &&& is_text(field(field(input, 2), 0), TRANSCRIPTION_MODEL@)
        &&& is_text(field(field(input, 2), 1), "low"@)
        &&& has_keys(
            field(input, 3),
            seq!["type"@, "threshold"@, "prefix_padding_ms"@, "silence_duration_ms"@],
        )
        &&& is_text(field(field(input, 3), 0), "server_vad"@)
        &&& field(field(input, 3), 1) == Json::Number(
            JsonNumber::Float { within_safe_range: true, bits: VAD_THRESHOLD_BITS },
        )
        &&& field(field(input, 3), 2) == Json::Number(JsonNumber::PosInt(300))
        &&& field(field(input, 3), 3) == Json::Number(JsonNumber::PosInt(500))
    }
}

/// The `session.update` of a translation session: the output language
/// only.
pub open spec fn translation_update(u: Json, language: Seq<char>) -> bool {
    &&& has_keys(u, seq!["type"@, "session"@])
    &&& is_text(field(u, 0), "session.update"@)
    &&& has_keys(field(u, 1), seq!["audio"@])
    &&& has_keys(field(field(u, 1), 0), seq!["output"@])
    &&& has_keys(field(field(field(u, 1), 0), 0), seq!["language"@])
    &&& is_text(field(field(field(field(u, 1), 0), 0), 0), language)
}

/// The message that configures a new session of `mode`. A translation
/// needs its target language.
pub fn session_update(channel: RealtimeChannel, mode: RealtimeMode, target_language: Option<&str>) -> (r:
    Result<Json, String>)
    ensures
        match mode {
            RealtimeMode::Transcribe => r matches Ok(u) && transcription_update(u),
            RealtimeMode::Translate => match target_language {
                Some(t) => r matches Ok(u) && translation_update(u, t@),
                None => r matches Err(e) && e@ == LANGUAGE_REQUIRED_MESSAGE@,
            },
        },
{
    match mode {
        RealtimeMode::Transcribe => {
            let format = Json::Object(
                vec![entry("type", text("audio/pcm")), entry("rate", Json::Number(JsonNumber::PosInt(24_000)))],
            );
            let noise_reduction = Json::Object(vec![entry("type", text("far_field"))]);
            let transcription = Json::Object(
                vec![entry("model", text(TRANSCRIPTION_MODEL)), entry("delay", text("low"))],
            );
            let turn_detection = Json::Object(
                vec![
                    entry("type", text("server_vad")),
                    entry(
                        "threshold",
                        Json::Number(
                            JsonNumber::Float { within_safe_range: true, bits: VAD_THRESHOLD_BITS },
                        ),
                    ),
                    entry("prefix_padding_ms", Json::Number(JsonNumber::PosInt(300))),
                    entry("silence_duration_ms", Json::Number(JsonNumber::PosInt(500))),
                ],
            );
            let input = Json::Object(
                vec![
                    entry("format", format),
                    entry("noise_reduction", noise_reduction),
                    entry("transcription", transcription),
                    entry("turn_detection", turn_detection),
                ],
            );
            let audio = Json::Object(vec![entry("input", input)]);
            let session = Json::Object(vec![entry("type", text("transcription")), entry("audio", audio)]);
            let update = Json::Object(vec![entry("type", text("session.update")), entry("session", session)]);
            Ok(update)
        },
        RealtimeMode::Translate => {
            let language = match target_language {
                Some(t) => t,
                None => return Err(LANGUAGE_REQUIRED_MESSAGE.to_owned()),
            };
            let output = Json::Object(vec![entry("language", text(language))]);
            let audio = Json::Object(vec![entry("output", output)]);
            let session = Json::Object(vec![entry("audio", audio)]);
            let update = Json::Object(vec![entry("type", text("session.update")), entry("session", session)]);
            Ok(update)
        },
    }
}

/// What `BASE64_STANDARD.encode` returns for `bytes`.
pub uninterp spec fn base64_standard(bytes: Seq<u8>) -> Seq<char>;

/// `base64::engine::general_purpose::STANDARD.encode`: the standard
/// alphabet, with padding.
#[verifier::external_body]
fn encode_base64_standard(bytes: &[u8]) -> (r: String)
    requires
        bytes@.len() <= usize::MAX / 2,
    ensures
        r@ == base64_standard(bytes@),
{
    base64::engine::general_purpose::STANDARD.encode(bytes)
}

/// What `BASE64_STANDARD.decode` returns for `text`, if it decodes.
pub uninterp spec fn base64_standard_decoded(text: Seq<char>) -> Option<Seq<u8>>;

/// `base64::engine::general_purpose::STANDARD.decode`.
#[verifier::external_body]
fn decode_base64_standard(text: &str) -> (r: Option<Vec<u8>>)
    ensures
        match r {
            Some(b) => base64_standard_decoded(text@) == Some(b@),
            None => base64_standard_decoded(text@) is None,
        },
{
    match base64::engine::general_purpose::STANDARD.decode(text) {
        Ok(bytes) => Some(bytes),
        Err(_) => None,
    }
}

/// The two little-endian bytes of a sample.
pub open spec fn le_bytes(s: i16) -> Seq<u8> {
    let v: int = if s < 0 {
        s + 65536
    } else {
        s as int
    };
    seq![(v % 256) as u8, (v / 256) as u8]
}

/// Samples as little-endian PCM16 bytes.
pub open spec fn pcm16_bytes(samples: Seq<i16>) -> Seq<u8>
    decreases samples.len(),
{
    if samples.len() == 0 {
        Seq::empty()
    } else {
        pcm16_bytes(samples.drop_last()) + le_bytes(samples.last())
    }
}

pub proof fn lemma_pcm16_bytes_len(samples: Seq<i16>)
    ensures
        pcm16_bytes(samples).len() == 2 * samples.len(),
    decreases samples.len(),
{
    if samples.len() > 0 {
        lemma_pcm16_bytes_len(samples.drop_last());
    }
}

fn push_le_bytes(bytes: &mut Vec<u8>, s: i16)
    ensures
        final(bytes)@ == old(bytes)@ + le_bytes(s),
{
    let v: i32 = if s < 0 {
        s as i32 + 65536
    } else {
        s as i32
    };
    bytes.push((v % 256) as u8);
    bytes.push((v / 256) as u8);
    proof {
        assert(final(bytes)@ =~= old(bytes)@ + le_bytes(s));
    }
}

/// The event type that appends audio to the input of `mode`.
pub open spec fn append_type(mode: RealtimeMode) -> Seq<char> {
    match mode {
        RealtimeMode::Transcribe => "input_audio_buffer.append"@,
        RealtimeMode::Translate => "session.input_audio_buffer.append"@,
    }
}

/// The message that sends captured samples: nothing for no samples, an
/// error for more than a second of audio, else the samples as base64
/// little-endian PCM16.
pub fn audio_append_event(mode: RealtimeMode, samples: &[i16]) -> (r: Result<Option<Json>, String>)
    ensures
        samples@.len() == 0 ==> r matches Ok(None),
        samples@.len() > MAX_AUDIO_SAMPLES_PER_CHUNK ==> (r matches Err(e) && e@
            == "Audio capture returned an oversized chunk"@),
        0 < samples@.len() <= MAX_AUDIO_SAMPLES_PER_CHUNK ==> (r matches Ok(Some(event)) && {
            &&& has_keys(event, seq!["type"@, "audio"@])
            &&& is_text(field(event, 0), append_type(mode))
            &&& is_text(field(event, 1), base64_standard(pcm16_bytes(samples@)))
        }),
{
    if samples.len() == 0 {
        return Ok(None);
    }
    if samples.len() > MAX_AUDIO_SAMPLES_PER_CHUNK {
        return Err("Audio capture returned an oversized chunk".to_owned());
    }
    let mut bytes: Vec<u8> = Vec::new();
    let mut i: usize = 0;
    while i < samples.len()
        invariant
            i <= samples@.len(),
            samples@.len() <= MAX_AUDIO_SAMPLES_PER_CHUNK,
            bytes@ == pcm16_bytes(samples@.take(i as int)),
        decreases samples@.len() - i,
    {
        push_le_bytes(&mut bytes, samples[i]);
        proof {
            assert(samples@.take(i + 1).drop_last() =~= samples@.take(i as int));
        }
        i = i + 1;
    }
    proof {
        assert(samples@.take(samples@.len() as int) =~= samples@);
        lemma_pcm16_bytes_len(samples@);
    }
    let event_type = match mode {
        RealtimeMode::Transcribe => "input_audio_buffer.append",
        RealtimeMode::Translate => "session.input_audio_buffer.append",
    };
    let encoded = encode_base64_standard(bytes.as_slice());
    Ok(Some(Json::Object(vec![entry("type", text(event_type)), entry("audio", Json::String(encoded))])))
}

/// The event type that ends the input of `mode` on a graceful stop.
pub open spec fn close_type(mode: RealtimeMode) -> Seq<char> {
    match mode {
        RealtimeMode::Transcribe => "input_audio_buffer.commit"@,
        RealtimeMode::Translate => "session.close"@,
    }
}

/// The message that asks the provider to finish a session of `mode`.
pub fn close_event(mode: RealtimeMode) -> (r: Json)
    ensures
        has_keys(r, seq!["type"@]),
        is_text(field(r, 0), close_type(mode)),
{
    let close = match mode {
        RealtimeMode::Transcribe => "input_audio_buffer.commit",
        RealtimeMode::Translate => "session.close",
    };
    Json::Object(vec![entry("type", text(close))])
}


// ---------------------------------------------------------------------
// What the provider sends
// ---------------------------------------------------------------------

/// `s` contains a NUL character.
pub open spec fn has_nul(s: Seq<char>) -> bool {
    exists|i: int| 0 <= i < s.len() && s[i] == '\0'
}

fn contains_nul(s: &str) -> (r: bool)
    ensures
        r == has_nul(s@),
{
    let mut found = false;
    for c in it: s.chars()
        invariant
            it.seq() == s@,
            found == (exists|j: int| 0 <= j < it.index() && s@[j] == '\0'),
    {
        if c == '\0' {
            found = true;
        }
    }
    found
}

/// Text of the provider that may reach the renderer: at most `maximum`
/// bytes and no NUL; else the error `message`.
pub fn bounded_text(value: &str, maximum: usize, message: &str) -> (r: Result<String, String>)
    ensures
        (byte_len(value@) <= maximum && !has_nul(value@)) ==> (r matches Ok(t) && t@ == value@),
        !(byte_len(value@) <= maximum && !has_nul(value@)) ==> (r matches Err(e) && e@ == message@),
{
    if str_byte_len(value) > maximum || contains_nul(value) {
        return Err(message.to_owned());
    }
    Ok(value.to_owned())
}

/// An identifier of the provider that may name a renderer row.
pub open spec fn valid_provider_id_spec(v: Seq<char>) -> bool {
    v.len() > 0 && byte_len(v) <= 256 && !has_control(v)
}

pub fn valid_provider_id(value: &str) -> (r: bool)
    ensures
        r == valid_provider_id_spec(value@),
{
    !value.is_empty() && str_byte_len(value) <= 256 && !contains_control(value)
}

/// The words of `s` joined by single spaces, as
/// `split_whitespace().collect::<Vec<_>>().join(" ")`: the text so far, and
/// whether whitespace follows its last word.
pub open spec fn collapse_state(s: Seq<char>) -> (Seq<char>, bool)
    decreases s.len(),
{
    if s.len() == 0 {
        (Seq::empty(), false)
    } else {
        let (out, pending) = collapse_state(s.drop_last());
        let c = s.last();
        if is_whitespace_char(c) {
            (out, out.len() > 0)
        } else if pending {
            (out.push(' ').push(c), false)
        } else {
            (out.push(c), false)
        }
    }
}

pub open spec fn collapse_whitespace(s: Seq<char>) -> Seq<char> {
    collapse_state(s).0
}

/// A provider message as the renderer receives it: its words on one line,
/// cut to `MAX_PROVIDER_MESSAGE_BYTES` characters.
pub open spec fn sanitized_message(s: Seq<char>) -> Seq<char> {
    let c = collapse_whitespace(s);
    if c.len() <= MAX_PROVIDER_MESSAGE_BYTES {
        c
    } else {
        c.take(MAX_PROVIDER_MESSAGE_BYTES as int)
    }
}

/// Joined words hold no whitespace but single spaces between words.
pub proof fn lemma_collapse_single_spaced(s: Seq<char>)
    ensures
        forall|i: int|
            0 <= i < collapse_whitespace(s).len() ==> (is_whitespace_char(
                #[trigger] collapse_whitespace(s)[i],
            ) ==> collapse_whitespace(s)[i] == ' '),
        collapse_whitespace(s).len() > 0 ==> !is_whitespace_char(collapse_whitespace(s)[0])
            && !is_whitespace_char(collapse_whitespace(s).last()),
        collapse_state(s).1 ==> collapse_state(s).0.len() > 0,
    decreases s.len(),
{
    if s.len() > 0 {
        lemma_collapse_single_spaced(s.drop_last());
        let (out, pending) = collapse_state(s.drop_last());
        let c = s.last();
        if !is_whitespace_char(c) {
            if pending {
                assert(out.push(' ').push(c)[0] == out[0]);
            } else if out.len() > 0 {
                assert(out.push(c)[0] == out[0]);
            }
        }
    }
}

/// A message of the provider or a connection, on one line and bounded.
pub fn sanitize_message(value: &str) -> (r: String)
    ensures
        r@ == sanitized_message(value@),
        r@.len() <= MAX_PROVIDER_MESSAGE_BYTES,
        forall|i: int| 0 <= i < r@.len() ==> r@[i] != '\n' && r@[i] != '\r' && r@[i] != '\t',
{
    let mut out = String::new();
    let mut pending = false;
    for c in it: value.chars()
        invariant
            it.seq() == value@,
            (out@, pending) == collapse_state(value@.take(it.index() as int)),
    {
        let ghost i = it.index();
        proof {
            assert(value@.take(i + 1).drop_last() =~= value@.take(i));
            assert(value@.take(i + 1).last() == c);
        }
        if is_whitespace(c) {
            pending = !out.as_str().is_empty();
        } else {
            if pending {
                string_push(&mut out, ' ');
            }
            string_push(&mut out, c);
            pending = false;
        }
    }
    proof {
        assert(value@.take(value@.len() as int) =~= value@);
        lemma_collapse_single_spaced(value@);
    }
    let chars = crate::text::chars_of(out.as_str());
    let mut result = String::new();
    let mut k: usize = 0;
    while k < chars.len() && k < MAX_PROVIDER_MESSAGE_BYTES
        invariant
            chars@ == out@,
            k <= chars@.len(),
            k <= MAX_PROVIDER_MESSAGE_BYTES,
            result@ == out@.take(k as int),
        decreases chars@.len() - k,
    {
        string_push(&mut result, chars[k]);
        proof {
            assert(result@ =~= out@.take(k + 1));
        }
        k = k + 1;
    }
    proof {
        let c = collapse_whitespace(value@);
        assert(out@ == c);
        if c.len() <= MAX_PROVIDER_MESSAGE_BYTES {
            assert(result@ =~= c);
        }
        assert forall|i: int| 0 <= i < result@.len() implies result@[i] != '\n' && result@[i]
            != '\r' && result@[i] != '\t' by {
            assert(result@[i] == c[i]);
            if result@[i] == '\n' || result@[i] == '\r' || result@[i] == '\t' {
                assert(is_whitespace_char(c[i]));
            }
        }
    }
    result
}

/// The member `key` of `event`.
pub open spec fn member(event: Json, key: Seq<char>) -> Option<Json> {
    match event {
        Json::Object(entries) => object_get(entries@, key),
        _ => None,
    }
}

/// The member `key` of `event` where it is a string.
pub open spec fn text_member(event: Json, key: Seq<char>) -> Option<Seq<char>> {
    match member(event, key) {
        Some(Json::String(s)) => Some(s@),
        _ => None,
    }
}

fn get<'a>(event: &'a Json, key: &str) -> (r: Option<&'a Json>)
    ensures
        match r {
            Some(v) => member(*event, key@) == Some(*v),
            None => member(*event, key@) is None,
        },
{
    match event {
        Json::Object(entries) => get_member(entries, key),
        _ => None,
    }
}

fn get_text<'a>(event: &'a Json, key: &str) -> (r: Option<&'a str>)
    ensures
        opt_str_view(r) == text_member(*event, key@),
{
    match get(event, key) {
        Some(Json::String(s)) => Some(s.as_str()),
        _ => None,
    }
}

/// The type of a provider event; empty where it has none.
pub open spec fn event_type(event: Json) -> Seq<char> {
    match text_member(event, "type"@) {
        Some(t) => t,
        None => Seq::empty(),
    }
}

/// The error that an `error` event reports, with its message or a default
/// one.
pub open spec fn provider_error_text(event: Json) -> Option<Seq<char>> {
    if text_member(event, "type"@) == Some("error"@) {
        let message = match member(event, "error"@) {
            Some(e) => match text_member(e, "message"@) {
                Some(m) => m,
                None => "OpenAI rejected the Realtime session"@,
            },
            None => "OpenAI rejected the Realtime session"@,
        };
        Some("OpenAI Realtime error: "@ + sanitized_message(message))
    } else {
        None
    }
}

pub fn provider_error(event: &Json) -> (r: Option<String>)
    ensures
        opt_string_view(r) == provider_error_text(*event),
{
    let is_error = match get_text(event, "type") {
        Some(t) => str_eq(t, "error"),
        None => false,
    };
    if !is_error {
        return None;
    }
    let message = match get(event, "error") {
        Some(e) => match get_text(e, "message") {
            Some(m) => m,
            None => "OpenAI rejected the Realtime session",
        },
        None => "OpenAI rejected the Realtime session",
    };
    let clean = sanitize_message(message);
    Some(concat_str("OpenAI Realtime error: ", clean.as_str()))
}

/// What a failed connection tells the user: a refused key, an exhausted
/// quota, another HTTP status, or a transport failure with its
/// description.
pub open spec fn connect_error_text(http_status: Option<u16>, description: Seq<char>) -> Seq<char> {
    match http_status {
        Some(s) => if s == 401 || s == 403 {
            "OpenAI API key is invalid or cannot access Realtime"@
        } else if s == 429 {
            "OpenAI Realtime rate limit or quota was reached"@
        } else {
            "OpenAI Realtime connection failed (HTTP "@ + crate::text::decimal(s as nat) + ")"@
        },
        None => "Could not reach OpenAI Realtime: "@ + sanitized_message(description),
    }
}

/// The message of a failed WebSocket connection. `http_status` is the
/// status of a refused HTTP handshake, `description` what the transport
/// error says otherwise.
pub fn openai_connect_error(http_status: Option<u16>, description: &str) -> (r: String)
    ensures
        r@ == connect_error_text(http_status, description@),
{
    match http_status {
        Some(s) => {
            if s == 401 || s == 403 {
                "OpenAI API key is invalid or cannot access Realtime".to_owned()
            } else if s == 429 {
                "OpenAI Realtime rate limit or quota was reached".to_owned()
            } else {
                let digits = crate::text::decimal_string(s as u64);
                let head = concat_str("OpenAI Realtime connection failed (HTTP ", digits.as_str());
                concat_str(head.as_str(), ")")
            }
        },
        None => {
            let clean = sanitize_message(description);
            concat_str("Could not reach OpenAI Realtime: ", clean.as_str())
        },
    }
}

/// The kinds of WebSocket frame.
#[derive(Clone, Copy, Debug, PartialEq, Eq, Structural)]
pub enum FrameKind {
    Text,
    Binary,
    Close,
    /// Ping, pong and raw frames.
    Control,
}

/// What becomes of a frame of `length` bytes: `true` where it is read as
/// JSON, `false` where it is skipped, an error where it ends the session.
pub fn frame_decision(kind: FrameKind, length: usize) -> (r: Result<bool, String>)
    ensures
        match kind {
            FrameKind::Text | FrameKind::Binary => if length > MAX_WEBSOCKET_MESSAGE_BYTES {
                r matches Err(e) && e@ == "OpenAI returned an oversized Realtime event"@
            } else {
                r == Ok::<bool, String>(true)
            },
            FrameKind::Close => r matches Err(e) && e@ == "OpenAI closed the Realtime connection"@,
            FrameKind::Control => r == Ok::<bool, String>(false),
        },
{
    match kind {
        FrameKind::Text | FrameKind::Binary => {
            if length > MAX_WEBSOCKET_MESSAGE_BYTES {
                Err("OpenAI returned an oversized Realtime event".to_owned())
            } else {
                Ok(true)
            }
        },
        FrameKind::Close => Err("OpenAI closed the Realtime connection".to_owned()),
        FrameKind::Control => Ok(false),
    }
}


// ---------------------------------------------------------------------
// Renderer rows of the transcript
// ---------------------------------------------------------------------

/// The kinds of event that reach the renderer.
#[derive(Clone, Copy, Debug, PartialEq, Eq, Structural)]
pub enum RealtimeEventKind {
    Status,
    InputTranscriptDelta,
    InputTranscriptCompleted,
    OutputTranscriptDelta,
    OutputTranscriptCompleted,
    Level,
    Error,
}

/// Assigns the transcript events of one session to renderer rows.
#[derive(Debug)]
pub struct SegmentTracker {
    pub generation: u64,
    pub next: u64,
    /// A translation session: source and translation share one row per turn.
    pub shared_translation_turns: bool,
    pub shared: Option<String>,
    pub input: Option<String>,
    pub output: Option<String>,
}

/// The identifier of the provider that names an event's row: `item_id`,
/// else `response_id`, where it is a valid identifier.
pub open spec fn provider_id_of(event: Json) -> Option<Seq<char>> {
    let v = match member(event, "item_id"@) {
        Some(x) => Some(x),
        None => member(event, "response_id"@),
    };
    match v {
        Some(Json::String(s)) => if valid_provider_id_spec(s@) {
            Some(s@)
        } else {
            None
        },
        _ => None,
    }
}

/// The counter after one more fallback row.
pub open spec fn wrapped_next(n: u64) -> u64 {
    if n == u64::MAX {
        0
    } else {
        (n + 1) as u64
    }
}

/// The row of the `next`-th fallback of a session.
pub open spec fn fallback_id(generation: u64, next: u64) -> Seq<char> {
    crate::text::decimal(generation as nat) + "-"@ + crate::text::decimal(next as nat)
}

/// The rows of a tracker.
pub struct TrackerView {
    pub next: u64,
    pub shared: Option<Seq<char>>,
    pub input: Option<Seq<char>>,
    pub output: Option<Seq<char>>,
}

pub open spec fn tracker_view(t: SegmentTracker) -> TrackerView {
    TrackerView {
        next: t.next,
        shared: opt_string_view(t.shared),
        input: opt_string_view(t.input),
        output: opt_string_view(t.output),
    }
}

/// The row of a transcript event and the rows kept for what follows, for a
/// tracker of `generation` in the state `t`. In a translation, the turn's
/// row stays until the translation completes; otherwise each stream keeps
/// its row until it completes. A new row is the provider's identifier, or
/// else the next fallback.
pub open spec fn segment_step(
    generation: u64,
    shared_turns: bool,
    t: TrackerView,
    provider_id: Option<Seq<char>>,
    output: bool,
    completed: bool,
) -> (Seq<char>, TrackerView) {
    if shared_turns {
        let (id, next) = match t.shared {
            Some(s) => (s, t.next),
            None => match provider_id {
                Some(p) => (p, t.next),
                None => (fallback_id(generation, wrapped_next(t.next)), wrapped_next(t.next)),
            },
        };
        (id, TrackerView { next, shared: if output && completed { None } else { Some(id) }, ..t })
    } else {
        let current = if output {
            t.output
        } else {
            t.input
        };
        let (id, next) = match provider_id {
            Some(p) => (p, t.next),
            None => match current {
                Some(c) => (c, t.next),
                None => (fallback_id(generation, wrapped_next(t.next)), wrapped_next(t.next)),
            },
        };
        let kept = if completed {
            None
        } else {
            Some(id)
        };
        (
            id,
            if output {
                TrackerView { next, output: kept, ..t }
            } else {
                TrackerView { next, input: kept, ..t }
            },
        )
    }
}

impl SegmentTracker {
    pub fn new(generation: u64, shared_translation_turns: bool) -> (r: SegmentTracker)
        ensures
            r.generation == generation,
            r.shared_translation_turns == shared_translation_turns,
            r.next == 0,
            r.shared is None && r.input is None && r.output is None,
    {
        SegmentTracker {
            generation,
            next: 0,
            shared_translation_turns,
            shared: None,
            input: None,
            output: None,
        }
    }

    fn next_fallback(&mut self) -> (r: String)
        ensures
            final(self).next == wrapped_next(old(self).next),
            r@ == fallback_id(old(self).generation, final(self).next),
            final(self).generation == old(self).generation,
            final(self).shared_translation_turns == old(self).shared_translation_turns,
            final(self).shared == old(self).shared,
            final(self).input == old(self).input,
            final(self).output == old(self).output,
    {
        self.next = if self.next == u64::MAX {
            0
        } else {
            self.next + 1
        };
        let generation = crate::text::decimal_string(self.generation);
        let next = crate::text::decimal_string(self.next);
        let head = concat_str(generation.as_str(), "-");
        concat_str(head.as_str(), next.as_str())
    }

    /// The row of a transcript event of the `output` stream, `completed`
    /// or not.
    pub fn segment_id(&mut self, event: &Json, output: bool, completed: bool) -> (r: String)
        ensures
            (r@, tracker_view(*final(self))) == segment_step(
                old(self).generation,
                old(self).shared_translation_turns,
                tracker_view(*old(self)),
                provider_id_of(*event),
                output,
                completed,
            ),
            final(self).generation == old(self).generation,
            final(self).shared_translation_turns == old(self).shared_translation_turns,
    {
        let provider_value = match get(event, "item_id") {
            Some(v) => Some(v),
            None => get(event, "response_id"),
        };
        let provider_id: Option<String> = match provider_value {
            Some(Json::String(s)) => if valid_provider_id(s.as_str()) {
                Some(s.clone())
            } else {
                None
            },
            _ => None,
        };
        if self.shared_translation_turns {
            let id = match &self.shared {
                Some(s) => s.clone(),
                None => match provider_id {
                    Some(p) => p,
                    None => self.next_fallback(),
                },
            };
            if output && completed {
                self.shared = None;
            } else {
                self.shared = Some(id.clone());
            }
            return id;
        }
        let current = if output {
            match &self.output {
                Some(c) => Some(c.clone()),
                None => None,
            }
        } else {
            match &self.input {
                Some(c) => Some(c.clone()),
                None => None,
            }
        };
        let id = match provider_id {
            Some(p) => p,
            None => match current {
                Some(c) => c,
                None => self.next_fallback(),
            },
        };
        let kept = if completed {
            None
        } else {
            Some(id.clone())
        };
        if output {
            self.output = kept;
        } else {
            self.input = kept;
        }
        id
    }
}

/// In a translation, every transcript event of a turn lands on the row of
/// the turn until the translated output completes it: a later event of
/// either stream gets the same row, whatever identifier it carries.
pub proof fn law_translation_turn_shares_one_row(
    generation: u64,
    t: TrackerView,
    provider_id: Option<Seq<char>>,
    output: bool,
    completed: bool,
)
    requires
        t.shared is Some,
    ensures
        segment_step(generation, true, t, provider_id, output, completed).0 == t.shared->0,
        !(output && completed) ==> segment_step(
            generation,
            true,
            t,
            provider_id,
            output,
            completed,
        ).1.shared == t.shared,
        output && completed ==> segment_step(
            generation,
            true,
            t,
            provider_id,
            output,
            completed,
        ).1.shared is None,
{
}

/// The transcript event that a provider event type carries: its kind,
/// whether it is of the translated output, whether it completes the row,
/// and the member that holds its text.
pub open spec fn descriptor_of(t: Seq<char>) -> Option<(RealtimeEventKind, bool, bool, Seq<char>)> {
    if t == "conversation.item.input_audio_transcription.delta"@ {
        Some((RealtimeEventKind::InputTranscriptDelta, false, false, "delta"@))
    } else if t == "conversation.item.input_audio_transcription.completed"@ {
        Some((RealtimeEventKind::InputTranscriptCompleted, false, true, "transcript"@))
    } else if t == "session.input_transcript.delta"@ {
        Some((RealtimeEventKind::InputTranscriptDelta, false, false, "delta"@))
    } else if t == "session.input_transcript.completed"@ {
        Some((RealtimeEventKind::InputTranscriptCompleted, false, true, "transcript"@))
    } else if t == "session.output_transcript.delta"@ {
        Some((RealtimeEventKind::OutputTranscriptDelta, true, false, "delta"@))
    } else if t == "session.output_transcript.completed"@ {
        Some((RealtimeEventKind::OutputTranscriptCompleted, true, true, "transcript"@))
    } else {
        None
    }
}

fn descriptor(t: &str) -> (r: Option<(RealtimeEventKind, bool, bool, &'static str)>)
    ensures
        match r {
            Some(d) => descriptor_of(t@) == Some((d.0, d.1, d.2, d.3@)),
            None => descriptor_of(t@) is None,
        },
{
    if str_eq(t, "conversation.item.input_audio_transcription.delta") {
        Some((RealtimeEventKind::InputTranscriptDelta, false, false, "delta"))
    } else if str_eq(t, "conversation.item.input_audio_transcription.completed") {
        Some((RealtimeEventKind::InputTranscriptCompleted, false, true, "transcript"))
    } else if str_eq(t, "session.input_transcript.delta") {
        Some((RealtimeEventKind::InputTranscriptDelta, false, false, "delta"))
    } else if str_eq(t, "session.input_transcript.completed") {
        Some((RealtimeEventKind::InputTranscriptCompleted, false, true, "transcript"))
    } else if str_eq(t, "session.output_transcript.delta") {
        Some((RealtimeEventKind::OutputTranscriptDelta, true, false, "delta"))
    } else if str_eq(t, "session.output_transcript.completed") {
        Some((RealtimeEventKind::OutputTranscriptCompleted, true, true, "transcript"))
    } else {
        None
    }
}

/// A transcript event for the renderer.
#[derive(Debug)]
pub struct TranscriptUpdate {
    pub kind: RealtimeEventKind,
    pub segment_id: String,
    pub text: String,
    pub completed: bool,
}

/// What one provider event asks of the session: a transcript event to
/// show, translated audio to play, and whether the provider closed the
/// session.
#[derive(Debug)]
pub struct ProviderStep {
    pub transcript: Option<TranscriptUpdate>,
    pub audio: Option<Vec<u8>>,
    pub closed: bool,
}

/// What `process_provider_event` gives for the translated audio of an
/// event, where playback is on or off.
pub open spec fn audio_verdict(event: Json, playback: bool) -> Result<Option<Seq<u8>>, Seq<char>> {
    if event_type(event) != "session.output_audio.delta"@ {
        Ok(None)
    } else {
        match text_member(event, "delta"@) {
            None => Err("OpenAI returned invalid translated audio"@),
            Some(encoded) => if byte_len(encoded) > 2 * MAX_OUTPUT_AUDIO_BYTES {
                Err("OpenAI returned oversized translated audio"@)
            } else if !playback {
                Ok(None)
            } else {
                match base64_standard_decoded(encoded) {
                    None => Err("OpenAI returned invalid translated audio"@),
                    Some(audio) => if audio.len() > MAX_OUTPUT_AUDIO_BYTES || audio.len() % 2 != 0 {
                        Err("OpenAI returned invalid translated audio"@)
                    } else {
                        Ok(Some(audio))
                    },
                }
            },
        }
    }
}

/// The text of a transcript event, where it may reach the renderer.
pub open spec fn transcript_text_ok(event: Json, d: (RealtimeEventKind, bool, bool, Seq<char>)) -> bool {
    let text = match text_member(event, d.3) {
        Some(t) => t,
        None => Seq::empty(),
    };
    let maximum = if d.2 {
        MAX_TRANSCRIPT_BYTES
    } else {
        MAX_TRANSCRIPT_DELTA_BYTES
    };
    byte_len(text) <= maximum && !has_nul(text)
}

pub open spec fn transcript_text(event: Json, field_name: Seq<char>) -> Seq<char> {
    match text_member(event, field_name) {
        Some(t) => t,
        None => Seq::empty(),
    }
}

/// Reads one provider event: an error ends the session; a transcript event
/// gets its row; translated audio is checked and handed over where
/// playback is on.
pub fn process_provider_event(event: &Json, playback: bool, segments: &mut SegmentTracker) -> (r:
    Result<ProviderStep, String>)
    ensures
        final(segments).generation == old(segments).generation,
        final(segments).shared_translation_turns == old(segments).shared_translation_turns,
        provider_error_text(*event) matches Some(m) ==> (r matches Err(e) && e@ == m
            && tracker_view(*final(segments)) == tracker_view(*old(segments))),
        provider_error_text(*event) is None ==> match descriptor_of(event_type(*event)) {
            Some(d) => if !transcript_text_ok(*event, d) {
                r matches Err(e) && e@ == "OpenAI returned an oversized transcript"@
                    && tracker_view(*final(segments)) == tracker_view(*old(segments))
            } else {
                let step = segment_step(
                    old(segments).generation,
                    old(segments).shared_translation_turns,
                    tracker_view(*old(segments)),
                    provider_id_of(*event),
                    d.1,
                    d.2,
                );
                &&& tracker_view(*final(segments)) == step.1
                &&& audio_verdict(*event, playback) is Ok
                &&& r matches Ok(p) && p.transcript matches Some(t) && t.kind == d.0 && t.segment_id@
                    == step.0 && t.text@ == transcript_text(*event, d.3) && t.completed == d.2
                    && p.audio is None && p.closed == (event_type(*event) == "session.closed"@)
            },
            None => {
                &&& tracker_view(*final(segments)) == tracker_view(*old(segments))
                &&& match audio_verdict(*event, playback) {
                    Err(m) => r matches Err(e) && e@ == m,
                    Ok(a) => r matches Ok(p) && p.transcript is None && match (p.audio, a) {
                        (Some(x), Some(y)) => x@ == y,
                        (None, None) => true,
                        _ => false,
                    } && p.closed == (event_type(*event) == "session.closed"@),
                }
            },
        },
{
    match provider_error(event) {
        Some(e) => return Err(e),
        None => {},
    }
    proof {
        reveal_strlit("");
    }
    let event_type_text: &str = match get_text(event, "type") {
        Some(t) => t,
        None => "",
    };
    assert(event_type_text@ == event_type(*event));
    let mut transcript: Option<TranscriptUpdate> = None;
    match descriptor(event_type_text) {
        Some((kind, output, completed, field_name)) => {
            let value: &str = match get_text(event, field_name) {
                Some(t) => t,
                None => "",
            };
            assert(value@ == transcript_text(*event, field_name@));
            let maximum = if completed {
                MAX_TRANSCRIPT_BYTES
            } else {
                MAX_TRANSCRIPT_DELTA_BYTES
            };
            let text = bounded_text(value, maximum, "OpenAI returned an oversized transcript")?;
            let segment_id = segments.segment_id(event, output, completed);
            transcript = Some(TranscriptUpdate { kind, segment_id, text, completed });
        },
        None => {},
    }
    proof {
        if descriptor_of(event_type(*event)) is Some {
            assert(event_type(*event) != "session.output_audio.delta"@) by {
                reveal_strlit("session.output_audio.delta");
                reveal_strlit("conversation.item.input_audio_transcription.delta");
                reveal_strlit("conversation.item.input_audio_transcription.completed");
                reveal_strlit("session.input_transcript.delta");
                reveal_strlit("session.input_transcript.completed");
                reveal_strlit("session.output_transcript.delta");
                reveal_strlit("session.output_transcript.completed");
            }
        }
    }
    let mut audio: Option<Vec<u8>> = None;
    if str_eq(event_type_text, "session.output_audio.delta") {
        let encoded = match get_text(event, "delta") {
            Some(t) => t,
            None => return Err("OpenAI returned invalid translated audio".to_owned()),
        };
        if str_byte_len(encoded) > 2 * MAX_OUTPUT_AUDIO_BYTES {
            return Err("OpenAI returned oversized translated audio".to_owned());
        }
        if playback {
            let decoded = match decode_base64_standard(encoded) {
                Some(b) => b,
                None => return Err("OpenAI returned invalid translated audio".to_owned()),
            };
            if decoded.len() > MAX_OUTPUT_AUDIO_BYTES || decoded.len() % 2 != 0 {
                return Err("OpenAI returned invalid translated audio".to_owned());
            }
            audio = Some(decoded);
        }
    }
    let closed = str_eq(event_type_text, "session.closed");
    Ok(ProviderStep { transcript, audio, closed })
}

/// A graceful stop of a transcription ends once its last input
/// transcript completes.
pub fn completes_close(mode: RealtimeMode, event: &Json) -> (r: bool)
    ensures
        r == (mode == RealtimeMode::Transcribe && text_member(*event, "type"@) == Some(
            "conversation.item.input_audio_transcription.completed"@,
        )),
{
    if mode != RealtimeMode::Transcribe {
        return false;
    }
    match get_text(event, "type") {
        Some(t) => str_eq(t, "conversation.item.input_audio_transcription.completed"),
        None => false,
    }
}


// ---------------------------------------------------------------------
// Sessions and their routes
// ---------------------------------------------------------------------

pub const ROUTE_INACTIVE_MESSAGE: &'static str = "Realtime channel route is not active";
pub const PLAYBACK_TRANSLATION_ONLY_MESSAGE: &'static str =
    "Speech playback is only available for translation";

/// The generation of a channel after `previous`: each start and stop takes
/// a new one, and none is 0.
pub fn advanced_generation(previous: u64) -> (r: u64)
    ensures
        r == (if previous == u64::MAX {
            1
        } else {
            previous + 1
        }),
        r != 0,
{
    if previous == u64::MAX {
        1
    } else {
        previous + 1
    }
}

fn clone_opt(o: &Option<String>) -> (r: Option<String>)
    ensures
        r == *o,
{
    match o {
        Some(s) => Some(s.clone()),
        None => None,
    }
}

/// The route that a start request reserves for `generation`.
pub open spec fn route_of(generation: u64, request: NormalizedRequest) -> ReservedRoute {
    ReservedRoute {
        generation,
        mode: request.mode,
        playback_enabled: request.playback_enabled,
        input_device_id: request.input_device_id,
        output_device_id: request.output_device_id,
    }
}

/// Reserves the route of a starting session, unless it would feed
/// translated speech into a system-audio capture.
pub fn reserve_route(
    routes: &mut RouteTable,
    platform: Platform,
    generation: u64,
    request: &NormalizedRequest,
) -> (r: Result<(), String>)
    ensures
        match r {
            Ok(_) => {
                &&& feedback_verdict(
                    platform,
                    request.channel,
                    route_of(generation, *request),
                    *old(routes),
                ) is Ok
                &&& final(routes).route(request.channel) == Some(route_of(generation, *request))
                &&& final(routes).route(other(request.channel)) == old(routes).route(
                    other(request.channel),
                )
            },
            Err(e) => {
                &&& feedback_verdict(
                    platform,
                    request.channel,
                    route_of(generation, *request),
                    *old(routes),
                ) == Err::<(), Seq<char>>(e@)
                &&& *final(routes) == *old(routes)
            },
        },
{
    let candidate = ReservedRoute {
        generation,
        mode: request.mode,
        playback_enabled: request.playback_enabled,
        input_device_id: clone_opt(&request.input_device_id),
        output_device_id: clone_opt(&request.output_device_id),
    };
    validate_feedback_route(platform, request.channel, &candidate, routes)?;
    routes.insert(request.channel, candidate);
    Ok(())
}

/// Drops the route of `channel` where `generation` still holds it.
pub fn clear_route_if_current(routes: &mut RouteTable, channel: RealtimeChannel, generation: u64)
    ensures
        (old(routes).route(channel) matches Some(x) && x.generation == generation) ==> final(routes).route(channel) is None,
        !(old(routes).route(channel) matches Some(x) && x.generation == generation) ==> final(routes).route(channel) == old(routes).route(channel),
        final(routes).route(other(channel)) == old(routes).route(other(channel)),
{
    let current = match routes.get(channel) {
        Some(x) => x.generation == generation,
        None => false,
    };
    if current {
        routes.remove(channel);
    }
}

/// Sets back the playback of the route of `channel`, where `generation`
/// still holds it.
pub fn restore_playback_route(
    routes: &mut RouteTable,
    channel: RealtimeChannel,
    generation: u64,
    enabled: bool,
)
    ensures
        (old(routes).route(channel) matches Some(x) && x.generation == generation) ==> final(routes).route(channel) == Some(ReservedRoute { playback_enabled: enabled, ..old(routes).route(channel)->0 }),
        !(old(routes).route(channel) matches Some(x) && x.generation == generation) ==> final(routes).route(channel) == old(routes).route(channel),
        final(routes).route(other(channel)) == old(routes).route(other(channel)),
{
    let updated = match routes.get(channel) {
        Some(x) => if x.generation == generation {
            Some(
                ReservedRoute {
                    generation: x.generation,
                    mode: x.mode,
                    playback_enabled: enabled,
                    input_device_id: clone_opt(&x.input_device_id),
                    output_device_id: clone_opt(&x.output_device_id),
                },
            )
        } else {
            None
        },
        None => None,
    };
    match updated {
        Some(route) => routes.insert(channel, route),
        None => {},
    }
}

/// What a change of speech playback does to the routes.
#[derive(Clone, Copy, Debug, PartialEq, Eq, Structural)]
pub enum PlaybackChange {
    /// Playback is already as asked.
    Unchanged,
    /// The route now plays as asked; `previous_enabled` restores it if the
    /// session cannot follow.
    Changed { previous_enabled: bool },
}

/// Reserves a change of speech playback on the route that `generation`
/// holds on `channel`: only a translation plays speech, and only where the
/// new route would not feed a system-audio capture.
pub fn begin_playback_change(
    routes: &mut RouteTable,
    platform: Platform,
    channel: RealtimeChannel,
    generation: u64,
    enabled: bool,
) -> (r: Result<PlaybackChange, String>)
    ensures
        match old(routes).route(channel) {
            Some(x) if x.generation == generation => if x.mode != RealtimeMode::Translate {
                (r matches Err(e) && e@ == PLAYBACK_TRANSLATION_ONLY_MESSAGE@) && *final(routes)
                    == *old(routes)
            } else if x.playback_enabled == enabled {
                r == Ok::<PlaybackChange, String>(PlaybackChange::Unchanged) && *final(routes)
                    == *old(routes)
            } else {
                let candidate = ReservedRoute { playback_enabled: enabled, ..x };
                match feedback_verdict(platform, channel, candidate, *old(routes)) {
                    Ok(_) => {
                        &&& r == Ok::<PlaybackChange, String>(
                            PlaybackChange::Changed { previous_enabled: x.playback_enabled },
                        )
                        &&& final(routes).route(channel) == Some(candidate)
                        &&& final(routes).route(other(channel)) == old(routes).route(other(channel))
                    },
                    Err(m) => (r matches Err(e) && e@ == m) && *final(routes) == *old(routes),
                }
            },
            _ => (r matches Err(e) && e@ == ROUTE_INACTIVE_MESSAGE@) && *final(routes) == *old(routes),
        },
{
    let candidate = match routes.get(channel) {
        Some(x) => {
            if x.generation != generation {
                return Err(ROUTE_INACTIVE_MESSAGE.to_owned());
            }
            if x.mode != RealtimeMode::Translate {
                return Err(PLAYBACK_TRANSLATION_ONLY_MESSAGE.to_owned());
            }
            if x.playback_enabled == enabled {
                return Ok(PlaybackChange::Unchanged);
            }
            ReservedRoute {
                generation: x.generation,
                mode: x.mode,
                playback_enabled: enabled,
                input_device_id: clone_opt(&x.input_device_id),
                output_device_id: clone_opt(&x.output_device_id),
            }
        },
        None => return Err(ROUTE_INACTIVE_MESSAGE.to_owned()),
    };
    validate_feedback_route(platform, channel, &candidate, routes)?;
    routes.insert(channel, candidate);
    Ok(PlaybackChange::Changed { previous_enabled: !enabled })
}

/// What a running session does when asked to change speech playback.
#[derive(Clone, Copy, Debug, PartialEq, Eq, Structural)]
pub enum PlaybackCommand {
    /// Refused: only a translation plays speech.
    Refuse,
    /// Open the output device.
    Start,
    /// Close the output device.
    Stop,
    /// Nothing to do.
    Keep,
}

pub fn playback_command(mode: RealtimeMode, enabled: bool, running: bool) -> (r: PlaybackCommand)
    ensures
        r == (if mode != RealtimeMode::Translate {
            PlaybackCommand::Refuse
        } else if enabled && !running {
            PlaybackCommand::Start
        } else if !enabled && running {
            PlaybackCommand::Stop
        } else {
            PlaybackCommand::Keep
        }),
{
    if mode != RealtimeMode::Translate {
        PlaybackCommand::Refuse
    } else if enabled && !running {
        PlaybackCommand::Start
    } else if !enabled && running {
        PlaybackCommand::Stop
    } else {
        PlaybackCommand::Keep
    }
}

/// A route accepted beside the routes held never plays translated speech
/// into a system-audio capture: not into its own capture on the system
/// channel, not into the system channel's capture from the microphone
// ---------------------------------------------------------------------
// Setting up a session
// ---------------------------------------------------------------------

pub const SUPERSEDED_MESSAGE: &'static str = "Realtime setup was superseded";
pub const API_KEY_MISSING_MESSAGE: &'static str = "OpenAI API key is not configured";

/// How far the setup of a session has come.
#[derive(Clone, Copy, Debug, PartialEq, Eq, Structural)]
pub enum SetupStage {
    /// Older sessions of the channel are stopped.
    Started,
    /// The OpenAI API key is at hand.
    KeyReady,
    /// The provider session is open and configured.
    Connected,
    /// Speech playback runs, where it is asked for.
    PlaybackReady,
    /// Audio capture runs.
    CaptureReady,
}

/// What the setup learns from the outside work it asked for.
#[derive(Debug)]
pub enum SetupEvent {
    /// A stop or a newer start owns the channel now.
    Superseded,
    /// The credential store was read: an API key is stored or not.
    ApiKey { present: bool },
    /// The provider session is open and configured.
    Connected,
    /// Speech playback started.
    PlaybackStarted,
    /// Audio capture started.
    CaptureStarted,
    /// Audio capture could not start, for this reason.
    CaptureFailed { message: String },
    /// The running session is registered for the channel.
    Registered,
    /// Reading the key, connecting or starting playback failed, for this
    /// reason; what the setup held is dropped with it.
    StepFailed { message: String },
}

/// What the setup does next.
#[derive(Debug)]
pub enum SetupAction {
    LoadKey,
    Connect,
    StartPlayback,
    StartCapture,
    /// Hand the connection, playback and capture to a session worker and
    /// register it.
    SpawnWorker,
    /// Close what is held and end the setup with `error`.
    Release { socket: bool, playback: bool, capture: bool, error: String },
    /// End the setup with this error.
    Fail(String),
    /// The session runs: the channel is listening.
    Listening,
}

/// The provider connection is held from `Connected` on.
pub open spec fn holds_socket(stage: SetupStage) -> bool {
    stage == SetupStage::Connected || stage == SetupStage::PlaybackReady || stage
        == SetupStage::CaptureReady
}

/// Playback is held once it was started, where it was asked for.
pub open spec fn holds_playback(stage: SetupStage, playback_enabled: bool) -> bool {
    playback_enabled && (stage == SetupStage::PlaybackReady || stage == SetupStage::CaptureReady)
}

/// Capture is held from `CaptureReady` on.
pub open spec fn holds_capture(stage: SetupStage) -> bool {
    stage == SetupStage::CaptureReady
}

/// `action` closes exactly what the setup holds at `stage` and ends it with
/// `message`.
pub open spec fn releases(action: SetupAction, stage: SetupStage, playback_enabled: bool, message: Seq<char>) -> bool {
    action matches SetupAction::Release { socket, playback, capture, error } && socket
        == holds_socket(stage) && playback == holds_playback(stage, playback_enabled) && capture
        == holds_capture(stage) && error@ == message
}

/// The events that the setup can meet at `stage`: supersession and a
/// failed step at any time, and the outcome of the work it last asked for.
pub open spec fn setup_event_expected(stage: SetupStage, playback_enabled: bool, event: SetupEvent) -> bool {
    match event {
        SetupEvent::Superseded => true,
        SetupEvent::StepFailed { .. } => true,
        SetupEvent::ApiKey { .. } => stage == SetupStage::Started,
        SetupEvent::Connected => stage == SetupStage::KeyReady,
        SetupEvent::PlaybackStarted => stage == SetupStage::Connected && playback_enabled,
        SetupEvent::CaptureStarted => stage == SetupStage::PlaybackReady,
        SetupEvent::CaptureFailed { .. } => stage == SetupStage::PlaybackReady,
        SetupEvent::Registered => stage == SetupStage::CaptureReady,
    }
}

/// The first work of a setup: read the API key.
pub fn setup_start() -> (r: (SetupStage, SetupAction))
    ensures
        r.0 == SetupStage::Started,
        r.1 is LoadKey,
{
    (SetupStage::Started, SetupAction::LoadKey)
}

/// One step of setting up a session: each piece of outside work is asked
/// for in turn; a superseded setup or a failed capture closes exactly what
/// was acquired; a missing key fails before any connection; playback
/// starts only where it is enabled.
pub fn setup_step(stage: SetupStage, playback_enabled: bool, event: SetupEvent) -> (r: (
    SetupStage,
    SetupAction,
))
    requires
        setup_event_expected(stage, playback_enabled, event),
    ensures
        event is Superseded ==> r.0 == stage && releases(r.1, stage, playback_enabled, SUPERSEDED_MESSAGE@),
        event matches SetupEvent::StepFailed { message } ==> r.0 == stage && (r.1 matches SetupAction::Fail(e) && e@ == message@),
        event matches SetupEvent::ApiKey { present } && present ==> r.0 == SetupStage::KeyReady && r.1 is Connect,
        event matches SetupEvent::ApiKey { present } && !present ==> r.0 == stage && (r.1 matches SetupAction::Fail(e) && e@ == API_KEY_MISSING_MESSAGE@),
        event is Connected && playback_enabled ==> r.0 == SetupStage::Connected && r.1 is StartPlayback,
        event is Connected && !playback_enabled ==> r.0 == SetupStage::PlaybackReady && r.1 is StartCapture,
        event is PlaybackStarted ==> r.0 == SetupStage::PlaybackReady && r.1 is StartCapture,
        event is CaptureStarted ==> r.0 == SetupStage::CaptureReady && r.1 is SpawnWorker,
        event matches SetupEvent::CaptureFailed { message } ==> r.0 == stage && releases(r.1, stage, playback_enabled, message@),
        event is Registered ==> r.0 == SetupStage::CaptureReady && r.1 is Listening,
{
    let release = |msg: String| -> (a: SetupAction)
        ensures
            releases(a, stage, playback_enabled, msg@),
        {
            SetupAction::Release {
                socket: stage == SetupStage::Connected || stage == SetupStage::PlaybackReady
                    || stage == SetupStage::CaptureReady,
                playback: playback_enabled && (stage == SetupStage::PlaybackReady || stage
                    == SetupStage::CaptureReady),
                capture: stage == SetupStage::CaptureReady,
                error: msg,
            }
        };
    match event {
        SetupEvent::Superseded => (stage, release(SUPERSEDED_MESSAGE.to_owned())),
        SetupEvent::StepFailed { message } => (stage, SetupAction::Fail(message)),
        SetupEvent::ApiKey { present } => {
            if present {
                (SetupStage::KeyReady, SetupAction::Connect)
            } else {
                (stage, SetupAction::Fail(API_KEY_MISSING_MESSAGE.to_owned()))
            }
        },
        SetupEvent::Connected => {
            if playback_enabled {
                (SetupStage::Connected, SetupAction::StartPlayback)
            } else {
                (SetupStage::PlaybackReady, SetupAction::StartCapture)
            }
        },
        SetupEvent::PlaybackStarted => (SetupStage::PlaybackReady, SetupAction::StartCapture),
        SetupEvent::CaptureStarted => (SetupStage::CaptureReady, SetupAction::SpawnWorker),
        SetupEvent::CaptureFailed { message } => (stage, release(message)),
        SetupEvent::Registered => (SetupStage::CaptureReady, SetupAction::Listening),
    }
}

/// channel, and no microphone translation into a new system capture.
pub proof fn law_accepted_route_never_feeds_system_capture(
    platform: Platform,
    channel: RealtimeChannel,
    candidate: ReservedRoute,
    routes: RouteTable,
)
    requires
        feedback_verdict(platform, channel, candidate, routes) is Ok,
    ensures
        channel == RealtimeChannel::System && plays_translation(candidate) ==> !may_match(
            platform,
            opt_string_view(candidate.input_device_id),
            opt_string_view(candidate.output_device_id),
        ),
        channel == RealtimeChannel::System ==> (routes.microphone matches Some(m) ==> (
        plays_translation(m) ==> !may_match(
            platform,
            opt_string_view(candidate.input_device_id),
            opt_string_view(m.output_device_id),
        ))),
        channel == RealtimeChannel::Microphone ==> (routes.system matches Some(s) ==> (
        plays_translation(candidate) ==> !may_match(
            platform,
            opt_string_view(s.input_device_id),
            opt_string_view(candidate.output_device_id),
        ))),
{
}


/// A transcript event is final exactly when its type ends in `.completed`,
/// and belongs to the translated stream exactly when its type starts with
/// `session.output_`. The completed translation of a turn is reported as
/// completed and releases the turn's row, so that the next turn gets a new
/// one.
pub proof fn law_completed_transcripts_close_their_rows(
    t: Seq<char>,
    generation: u64,
    rows: TrackerView,
    provider_id: Option<Seq<char>>,
)
    ensures
        descriptor_of(t) matches Some(d) ==> (d.2 <==> crate::text::has_suffix(t, ".completed"@)),
        descriptor_of(t) matches Some(d) ==> (d.1 <==> crate::text::has_prefix(t, "session.output_"@)),
        t == "session.output_transcript.completed"@ ==> (descriptor_of(t) matches Some(d) && d.0
            == RealtimeEventKind::OutputTranscriptCompleted && d.2 && segment_step(
            generation,
            true,
            rows,
            provider_id,
            d.1,
            d.2,
        ).1.shared is None),
{
    reveal_strlit("conversation.item.input_audio_transcription.delta");
    reveal_strlit("conversation.item.input_audio_transcription.completed");
    reveal_strlit("session.input_transcript.delta");
    reveal_strlit("session.input_transcript.completed");
    reveal_strlit("session.output_transcript.delta");
    reveal_strlit("session.output_transcript.completed");
    reveal_strlit(".completed");
    reveal_strlit("session.output_");
    let c = ".completed"@;
    let o = "session.output_"@;
    let t1 = "conversation.item.input_audio_transcription.delta"@;
    let t2 = "conversation.item.input_audio_transcription.completed"@;
    let t3 = "session.input_transcript.delta"@;
    let t4 = "session.input_transcript.completed"@;
    let t5 = "session.output_transcript.delta"@;
    let t6 = "session.output_transcript.completed"@;
    assert(t2.subrange(t2.len() - c.len(), t2.len() as int) =~= c);
    assert(t4.subrange(t4.len() - c.len(), t4.len() as int) =~= c);
    assert(t6.subrange(t6.len() - c.len(), t6.len() as int) =~= c);
    assert(t1.subrange(t1.len() - c.len(), t1.len() as int) != c) by {
        assert(t1.subrange(t1.len() - c.len(), t1.len() as int)[0] != c[0]);
    }
    assert(t3.subrange(t3.len() - c.len(), t3.len() as int) != c) by {
        assert(t3.subrange(t3.len() - c.len(), t3.len() as int)[0] != c[0]);
    }
    assert(t5.subrange(t5.len() - c.len(), t5.len() as int) != c) by {
        assert(t5.subrange(t5.len() - c.len(), t5.len() as int)[0] != c[0]);
    }
    assert(t5.subrange(0, o.len() as int) =~= o);
    assert(t6.subrange(0, o.len() as int) =~= o);
    assert(t1.subrange(0, o.len() as int) != o) by {
        assert(t1.subrange(0, o.len() as int)[0] != o[0]);
    }
    assert(t2.subrange(0, o.len() as int) != o) by {
        assert(t2.subrange(0, o.len() as int)[0] != o[0]);
    }
    assert(t3.subrange(0, o.len() as int) != o) by {
        assert(t3.subrange(0, o.len() as int)[8] != o[8]);
    }
    assert(t4.subrange(0, o.len() as int) != o) by {
        assert(t4.subrange(0, o.len() as int)[8] != o[8]);
    }
}

/// On Linux the monitor of the default output hears the default output and
/// the output that it names: a system channel that captures it may not
/// play its translation there.
pub proof fn law_default_monitor_hears_its_output(
    input: Seq<char>,
    candidate: ReservedRoute,
    routes: RouteTable,
)
    requires
        crate::text::has_prefix(input, crate::audio::LINUX_DEFAULT_MONITOR_PREFIX@),
    ensures
        may_match(Platform::Linux, Some(input), None),
        may_match(Platform::Linux, None, Some(input)),
        may_match(
            Platform::Linux,
            Some(input),
            Some(input.subrange(crate::audio::LINUX_DEFAULT_MONITOR_PREFIX@.len() as int, input.len() as int)),
        ),
        (candidate.input_device_id matches Some(i) && i@ == input) && candidate.output_device_id
            is None && candidate.mode == RealtimeMode::Translate && candidate.playback_enabled
            ==> feedback_verdict(Platform::Linux, RealtimeChannel::System, candidate, routes)
            == Err::<(), Seq<char>>(
            "System audio input and translated output must use different devices to prevent an audio loop"@,
        ),
{
}

/// A subtag after the primary language is two to eight bytes of lowercase
/// ASCII letters or ASCII digits, such as the region `419` or the variant
/// `2021`.
pub proof fn law_subtags_take_letters_and_digits(part: Seq<char>)
    ensures
        valid_extension(part) <==> {
            let bytes = vstd::utf8::encode_utf8(part);
            &&& 2 <= bytes.len() <= 8
            &&& forall|i: int|
                0 <= i < bytes.len() ==> (0x61 <= #[trigger] bytes[i] <= 0x7a || 0x30 <= bytes[i]
                    <= 0x39)
        },
{
}


/// A tag of a primary language of two or three lowercase letters and one
/// subtag of two to eight lowercase letters or digits, such as `es-419` or
/// `zh-2021`, is a valid target language and is kept as it is.
pub proof fn law_region_and_variant_tags_are_accepted(primary: Seq<char>, subtag: Seq<char>)
    requires
        2 <= primary.len() <= 3,
        forall|i: int| 0 <= i < primary.len() ==> 'a' <= #[trigger] primary[i] <= 'z',
        2 <= subtag.len() <= 8,
        forall|i: int|
            0 <= i < subtag.len() ==> ('a' <= #[trigger] subtag[i] <= 'z' || '0' <= subtag[i]
                <= '9'),
    ensures
        valid_language_tag(language_of(primary + "-"@ + subtag)),
        language_of(primary + "-"@ + subtag) == primary + "-"@ + subtag,
{
    reveal_strlit("-");
    let tag = primary + "-"@ + subtag;
    assert("-"@ =~= seq!['-']);
    assert(tag.len() == primary.len() + 1 + subtag.len());
    assert forall|i: int| 0 <= i < tag.len() implies ('a' <= #[trigger] tag[i] <= 'z' || '0'
        <= tag[i] <= '9' || tag[i] == '-') by {
        if i < primary.len() {
            assert(tag[i] == primary[i]);
        } else if i > primary.len() {
            assert(tag[i] == subtag[i - primary.len() - 1]);
        }
    }
    // Trimming and lowering change nothing.
    assert(!is_whitespace_char(tag[0]) && !is_whitespace_char(tag.last()));
    crate::text::lemma_trim_fixed(tag);
    assert(tag.map_values(|c: char| ascii_lower(c)) =~= tag);
    assert(language_of(tag) == tag);
    // The pieces are the primary language and the subtag.
    assert(!primary.contains('-')) by {
        if primary.contains('-') {
            let i = choose|i: int| 0 <= i < primary.len() && primary[i] == '-';
        }
    }
    assert(!subtag.contains('-')) by {
        if subtag.contains('-') {
            let i = choose|i: int| 0 <= i < subtag.len() && subtag[i] == '-';
        }
    }
    crate::text::lemma_split_without_sep(primary, '-');
    crate::text::lemma_split_after_sep(primary, subtag, '-');
    let parts = split_seq(tag, '-');
    assert(parts =~= seq![primary, subtag]);
    assert(parts.drop_first() =~= seq![subtag]);
    // Every character is ASCII, so each is one byte.
    crate::text::lemma_ascii_utf8(tag);
    crate::text::lemma_ascii_utf8(primary);
    crate::text::lemma_ascii_utf8(subtag);
    let ps = vstd::utf8::encode_utf8(primary);
    let ss = vstd::utf8::encode_utf8(subtag);
    assert forall|i: int| 0 <= i < ps.len() implies crate::text::byte_in_class(
        #[trigger] ps[i],
        ByteClass::LowerAlpha,
    ) by {
        assert(ps[i] == (primary[i] as u32) as u8);
    }
    assert forall|i: int| 0 <= i < ss.len() implies crate::text::byte_in_class(
        #[trigger] ss[i],
        ByteClass::LowerAlnum,
    ) by {
        assert(ss[i] == (subtag[i] as u32) as u8);
    }
    assert(valid_extension(parts.drop_first()[0]));
}

} // verus!
