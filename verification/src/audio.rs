//! Audio endpoints as the application lists and selects them, the system
//! sources of each platform, and the PCM16 framing of captured and played
//! audio.
use vstd::prelude::*;
use crate::text::{has_control, has_prefix, is_trimmed_seq, contains_control, is_trimmed, starts_with, str_eq};

verus! {

/// The sample rate of the audio exchanged with the Realtime API.
pub const REALTIME_SAMPLE_RATE: u32 = 24_000;
/// Samples of one captured packet: 40 ms at the Realtime sample rate.
pub const CAPTURE_CHUNK_SAMPLES: usize = 960;
/// The largest PCM16 chunk accepted for playback: four seconds.
pub const MAX_PLAYBACK_INPUT_BYTES: usize = 192_000;

pub const WINDOWS_PROCESS_LOOPBACK_ID: &'static str = "windows-process-loopback";
pub const MACOS_SYSTEM_AUDIO_ID: &'static str = "macos-screencapturekit-system-audio";
pub const LINUX_DEFAULT_MONITOR_PREFIX: &'static str = "linux-default-monitor:";

/// The platform, which decides how system audio is captured.
#[derive(Clone, Copy, Debug, PartialEq, Eq, Structural)]
pub enum Platform {
    /// Process loopback of all system audio but the application's own.
    Windows,
    /// ScreenCaptureKit system audio, without the application's own.
    MacOs,
    /// The PulseAudio monitor of the default output.
    Linux,
    /// Inputs whose names mark them as monitors or loopbacks.
    Other,
}

#[derive(Clone, Debug, PartialEq, Eq)]
pub struct AudioEndpoint {
    pub id: String,
    pub name: String,
    pub is_default: bool,
    pub channels: u16,
    pub sample_rate: u32,
    pub monitored_output_id: Option<String>,
    pub excludes_current_process_audio: bool,
}

#[derive(Clone, Debug)]
pub struct AudioDeviceInventory {
    pub inputs: Vec<AudioEndpoint>,
    pub outputs: Vec<AudioEndpoint>,
    pub system_sources: Vec<AudioEndpoint>,
}

#[derive(Clone, Copy, Debug, PartialEq, Eq, Structural)]
pub enum AudioSource {
    Microphone,
    System,
}

pub open spec fn opt_str_is(o: Option<&str>, v: Seq<char>) -> bool {
    o matches Some(s) && s@ == v
}

/// `value` names the system source of `platform` itself.
pub open spec fn native_system_id(platform: Platform, value: Seq<char>) -> bool {
    match platform {
        Platform::Windows => value == WINDOWS_PROCESS_LOOPBACK_ID@,
        Platform::MacOs => value == MACOS_SYSTEM_AUDIO_ID@,
        Platform::Linux => has_prefix(value, LINUX_DEFAULT_MONITOR_PREFIX@),
        Platform::Other => false,
    }
}

pub fn is_native_system_endpoint_id(platform: Platform, value: &str) -> (r: bool)
    ensures
        r == native_system_id(platform, value@),
{
    match platform {
        Platform::Windows => str_eq(value, WINDOWS_PROCESS_LOOPBACK_ID),
        Platform::MacOs => str_eq(value, MACOS_SYSTEM_AUDIO_ID),
        Platform::Linux => starts_with(value, LINUX_DEFAULT_MONITOR_PREFIX),
        Platform::Other => false,
    }
}

/// On macOS the only system source is ScreenCaptureKit's.
pub fn validate_macos_system_id(value: Option<&str>) -> (r: Result<(), String>)
    ensures
        r is Ok == (value is None || opt_str_is(value, MACOS_SYSTEM_AUDIO_ID@)),
        r matches Err(e) ==> e@ == "Selected macOS system-audio source is invalid"@,
{
    match value {
        None => Ok(()),
        Some(v) => if str_eq(v, MACOS_SYSTEM_AUDIO_ID) {
            Ok(())
        } else {
            Err("Selected macOS system-audio source is invalid".to_owned())
        },
    }
}

/// On Windows the only system source is the process loopback.
pub fn validate_process_loopback_id(value: Option<&str>) -> (r: Result<(), String>)
    ensures
        r is Ok == (value is None || opt_str_is(value, WINDOWS_PROCESS_LOOPBACK_ID@)),
        r matches Err(e) ==> e@ == "Selected system-audio source is no longer available"@,
{
    match value {
        None => Ok(()),
        Some(v) => if str_eq(v, WINDOWS_PROCESS_LOOPBACK_ID) {
            Ok(())
        } else {
            Err("Selected system-audio source is no longer available".to_owned())
        },
    }
}

/// On Linux the system source is a monitor of the default output.
pub fn validate_linux_monitor_id(value: Option<&str>) -> (r: Result<(), String>)
    ensures
        r is Ok == (value matches Some(v) ==> has_prefix(v@, LINUX_DEFAULT_MONITOR_PREFIX@)),
        r matches Err(e) ==> e@ == "Selected Linux system-audio source is invalid"@,
{
    match value {
        None => Ok(()),
        Some(v) => if starts_with(v, LINUX_DEFAULT_MONITOR_PREFIX) {
            Ok(())
        } else {
            Err("Selected Linux system-audio source is invalid".to_owned())
        },
    }
}

/// Whether system capture from `system_input` hears what is played on
/// `output`, where the platform's own system source decides it: never for
/// the sources that exclude the application; for a Linux monitor, when it
/// monitors that output, or an unknown one.
pub open spec fn capture_output_match(
    platform: Platform,
    system_input: Option<Seq<char>>,
    output: Option<Seq<char>>,
) -> Option<bool> {
    match system_input {
        None => None,
        Some(input) => match platform {
            Platform::Windows => if input == WINDOWS_PROCESS_LOOPBACK_ID@ {
                Some(false)
            } else {
                None
            },
            Platform::MacOs => if input == MACOS_SYSTEM_AUDIO_ID@ {
                Some(false)
            } else {
                None
            },
            Platform::Linux => if has_prefix(input, LINUX_DEFAULT_MONITOR_PREFIX@) {
                let monitored = input.subrange(
                    LINUX_DEFAULT_MONITOR_PREFIX@.len() as int,
                    input.len() as int,
                );
                Some(
                    match output {
                        None => true,
                        Some(o) => monitored.len() == 0 || o == monitored,
                    },
                )
            } else {
                None
            },
            Platform::Other => None,
        },
    }
}

pub open spec fn opt_view(o: Option<&str>) -> Option<Seq<char>> {
    match o {
        Some(s) => Some(s@),
        None => None,
    }
}

/// `s` without its first `n` characters.
fn skip_chars(s: &str, n: usize) -> (r: String)
    requires
        n <= s@.len(),
    ensures
        r@ == s@.subrange(n as int, s@.len() as int),
{
    let chars = crate::text::chars_of(s);
    let mut out = String::new();
    let mut i: usize = n;
    while i < chars.len()
        invariant
            chars@ == s@,
            n <= i <= chars@.len(),
            out@ == s@.subrange(n as int, i as int),
        decreases chars@.len() - i,
    {
        crate::text::string_push(&mut out, chars[i]);
        proof {
            assert(out@ =~= s@.subrange(n as int, i + 1));
        }
        i = i + 1;
    }
    out
}

pub fn system_capture_output_match(
    platform: Platform,
    system_input: Option<&str>,
    output: Option<&str>,
) -> (r: Option<bool>)
    ensures
        r == capture_output_match(platform, opt_view(system_input), opt_view(output)),
{
    let input = match system_input {
        Some(i) => i,
        None => return None,
    };
    match platform {
        Platform::Windows => if str_eq(input, WINDOWS_PROCESS_LOOPBACK_ID) {
            Some(false)
        } else {
            None
        },
        Platform::MacOs => if str_eq(input, MACOS_SYSTEM_AUDIO_ID) {
            Some(false)
        } else {
            None
        },
        Platform::Linux => {
            if !starts_with(input, LINUX_DEFAULT_MONITOR_PREFIX) {
                return None;
            }
            let prefix_len = crate::text::chars_of(LINUX_DEFAULT_MONITOR_PREFIX).len();
            let monitored = skip_chars(input, prefix_len);
            Some(
                match output {
                    None => true,
                    Some(o) => monitored.as_str().is_empty() || str_eq(o, monitored.as_str()),
                },
            )
        },
        Platform::Other => None,
    }
}

/// What `normalize_requested_id` decides of an explicit endpoint ID.
pub open spec fn requested_id_accepted(platform: Platform, value: Seq<char>, parses: bool) -> bool {
    &&& value.len() > 0
    &&& is_trimmed_seq(value)
    &&& !has_control(value)
    &&& (native_system_id(platform, value) || parses)
}

/// An explicit endpoint selection: a native system source, or an ID that
/// `device_id_parses` says is a `cpal::DeviceId`; never a display name,
/// so that a selection cannot silently fall back to a default endpoint.
pub fn normalize_requested_id(platform: Platform, value: Option<&str>, device_id_parses: bool) -> (r:
    Result<Option<String>, String>)
    ensures
        match value {
            None => r matches Ok(None),
            Some(v) => if requested_id_accepted(platform, v@, device_id_parses) {
                r matches Ok(Some(id)) && id@ == v@
            } else {
                r matches Err(e) && e@ == "Invalid audio endpoint ID"@
            },
        },
{
    let v = match value {
        None => return Ok(None),
        Some(v) => v,
    };
    if v.is_empty() || !is_trimmed(v) || contains_control(v) {
        return Err("Invalid audio endpoint ID".to_owned());
    }
    if is_native_system_endpoint_id(platform, v) {
        return Ok(Some(v.to_owned()));
    }
    if !device_id_parses {
        return Err("Invalid audio endpoint ID".to_owned());
    }
    Ok(Some(v.to_owned()))
}

/// The IDs of `endpoints`.
pub open spec fn has_id(endpoints: Seq<AudioEndpoint>, id: Seq<char>) -> bool {
    exists|i: int| 0 <= i < endpoints.len() && (#[trigger] endpoints[i]).id@ == id
}

/// Adds `endpoint` unless an endpoint with its ID is already listed.
pub fn push_unique_endpoint(endpoints: &mut Vec<AudioEndpoint>, endpoint: AudioEndpoint)
    ensures
        has_id(old(endpoints)@, endpoint.id@) ==> final(endpoints)@ == old(endpoints)@,
        !has_id(old(endpoints)@, endpoint.id@) ==> final(endpoints)@ == old(endpoints)@.push(
            endpoint,
        ),
{
    let mut i: usize = 0;
    while i < endpoints.len()
        invariant
            i <= endpoints@.len(),
            forall|j: int| 0 <= j < i ==> endpoints@[j].id@ != endpoint.id@,
        decreases endpoints@.len() - i,
    {
        if str_eq(endpoints[i].id.as_str(), endpoint.id.as_str()) {
            return;
        }
        i = i + 1;
    }
    endpoints.push(endpoint);
}


// ---------------------------------------------------------------------
// Ordering of the endpoint lists
// ---------------------------------------------------------------------

/// What `str::to_lowercase` returns for `s`.
pub uninterp spec fn lowercase(s: Seq<char>) -> Seq<char>;

/// `str::to_lowercase`: the Unicode lowercase mapping of each character.
#[verifier::external_body]
fn to_lowercase(s: &str) -> (r: String)
    ensures
        r@ == lowercase(s@),
{
    s.to_lowercase()
}

/// `a` sorts strictly before `b` byte by byte, as `str` compares.
pub open spec fn lex_lt(a: Seq<u8>, b: Seq<u8>) -> bool
    decreases a.len(),
{
    if a.len() == 0 {
        b.len() > 0
    } else if b.len() == 0 {
        false
    } else if a[0] < b[0] {
        true
    } else if a[0] > b[0] {
        false
    } else {
        lex_lt(a.drop_first(), b.drop_first())
    }
}

pub proof fn lemma_lex_lt_irreflexive(a: Seq<u8>)
    ensures
        !lex_lt(a, a),
    decreases a.len(),
{
    if a.len() > 0 {
        lemma_lex_lt_irreflexive(a.drop_first());
    }
}

pub proof fn lemma_lex_lt_transitive(a: Seq<u8>, b: Seq<u8>, c: Seq<u8>)
    requires
        lex_lt(a, b),
        lex_lt(b, c),
    ensures
        lex_lt(a, c),
    decreases a.len(),
{
    if a.len() > 0 && b.len() > 0 && c.len() > 0 && a[0] == b[0] && b[0] == c[0] {
        lemma_lex_lt_transitive(a.drop_first(), b.drop_first(), c.drop_first());
    }
}

pub proof fn lemma_lex_lt_total(a: Seq<u8>, b: Seq<u8>)
    ensures
        a == b || lex_lt(a, b) || lex_lt(b, a),
    decreases a.len(),
{
    if a.len() > 0 && b.len() > 0 && a[0] == b[0] {
        lemma_lex_lt_total(a.drop_first(), b.drop_first());
        if a.drop_first() == b.drop_first() {
            assert(a =~= seq![a[0]] + a.drop_first());
            assert(b =~= seq![b[0]] + b.drop_first());
        }
    } else if a.len() == 0 && b.len() == 0 {
        assert(a =~= b);
    }
}

pub open spec fn utf8(s: Seq<char>) -> Seq<u8> {
    vstd::utf8::encode_utf8(s)
}

/// The sort key of an endpoint, compared in order: default first, then the
/// lowercased name, then the ID.
pub open spec fn endpoint_before(a: AudioEndpoint, b: AudioEndpoint) -> bool {
    ||| a.is_default && !b.is_default
    ||| a.is_default == b.is_default && lex_lt(utf8(lowercase(a.name@)), utf8(lowercase(b.name@)))
    ||| a.is_default == b.is_default && utf8(lowercase(a.name@)) == utf8(lowercase(b.name@))
        && lex_lt(utf8(a.id@), utf8(b.id@))
}

pub proof fn lemma_endpoint_before_transitive(a: AudioEndpoint, b: AudioEndpoint, c: AudioEndpoint)
    requires
        endpoint_before(a, b),
        endpoint_before(b, c),
    ensures
        endpoint_before(a, c),
{
    let (na, nb, nc) = (utf8(lowercase(a.name@)), utf8(lowercase(b.name@)), utf8(lowercase(c.name@)));
    if lex_lt(na, nb) && lex_lt(nb, nc) {
        lemma_lex_lt_transitive(na, nb, nc);
    }
    if lex_lt(utf8(a.id@), utf8(b.id@)) && lex_lt(utf8(b.id@), utf8(c.id@)) {
        lemma_lex_lt_transitive(utf8(a.id@), utf8(b.id@), utf8(c.id@));
    }
}

pub proof fn lemma_endpoint_before_asymmetric(a: AudioEndpoint, b: AudioEndpoint)
    requires
        endpoint_before(a, b),
    ensures
        !endpoint_before(b, a),
{
    let (na, nb) = (utf8(lowercase(a.name@)), utf8(lowercase(b.name@)));
    if endpoint_before(b, a) {
        if lex_lt(na, nb) && lex_lt(nb, na) {
            lemma_lex_lt_transitive(na, nb, na);
            lemma_lex_lt_irreflexive(na);
        }
        if lex_lt(na, nb) && na == nb {
            lemma_lex_lt_irreflexive(na);
        }
        if lex_lt(nb, na) && na == nb {
            lemma_lex_lt_irreflexive(na);
        }
        if lex_lt(utf8(a.id@), utf8(b.id@)) && lex_lt(utf8(b.id@), utf8(a.id@)) {
            lemma_lex_lt_transitive(utf8(a.id@), utf8(b.id@), utf8(a.id@));
            lemma_lex_lt_irreflexive(utf8(a.id@));
        }
    }
}

/// `bytes_a` sorts strictly before `bytes_b`.
fn bytes_lt(a: &[u8], b: &[u8]) -> (r: bool)
    ensures
        r == lex_lt(a@, b@),
{
    let mut i: usize = 0;
    proof {
        assert(a@.subrange(0, a@.len() as int) =~= a@);
        assert(b@.subrange(0, b@.len() as int) =~= b@);
        assert(a@.subrange(0, 0) =~= b@.subrange(0, 0));
    }
    while i < a.len() && i < b.len()
        invariant
            i <= a@.len(),
            i <= b@.len(),
            a@.subrange(0, i as int) == b@.subrange(0, i as int),
            lex_lt(a@, b@) == lex_lt(a@.subrange(i as int, a@.len() as int), b@.subrange(
                i as int,
                b@.len() as int,
            )),
        decreases a@.len() - i,
    {
        let ghost ra = a@.subrange(i as int, a@.len() as int);
        let ghost rb = b@.subrange(i as int, b@.len() as int);
        assert(ra[0] == a@[i as int]);
        assert(rb[0] == b@[i as int]);
        if a[i] < b[i] {
            return true;
        }
        if a[i] > b[i] {
            return false;
        }
        assert(ra.drop_first() =~= a@.subrange(i + 1, a@.len() as int));
        assert(rb.drop_first() =~= b@.subrange(i + 1, b@.len() as int));
        assert(a@.subrange(0, i + 1) =~= a@.subrange(0, i as int).push(a@[i as int]));
        assert(b@.subrange(0, i + 1) =~= b@.subrange(0, i as int).push(b@[i as int]));
        i = i + 1;
    }
    i == a.len() && i < b.len()
}

/// `a` sorts strictly before `b` in the endpoint lists.
fn endpoint_sorts_before(a: &AudioEndpoint, b: &AudioEndpoint) -> (r: bool)
    ensures
        r == endpoint_before(*a, *b),
{
    if a.is_default != b.is_default {
        return a.is_default;
    }
    let la = to_lowercase(a.name.as_str());
    let lb = to_lowercase(b.name.as_str());
    let ba = la.as_str().as_bytes();
    let bb = lb.as_str().as_bytes();
    if bytes_lt(ba, bb) {
        return true;
    }
    proof {
        vstd::utf8::encode_utf8_decode_utf8(la@);
        vstd::utf8::encode_utf8_decode_utf8(lb@);
    }
    if !crate::text::str_eq(la.as_str(), lb.as_str()) {
        return false;
    }
    bytes_lt(a.id.as_str().as_bytes(), b.id.as_str().as_bytes())
}

/// No endpoint of `s` sorts strictly before one listed ahead of it.
pub open spec fn endpoints_sorted(s: Seq<AudioEndpoint>) -> bool {
    forall|i: int, j: int| 0 <= i < j < s.len() ==> !endpoint_before(s[j], s[i])
}

/// `a` and `b` have the same sort key: neither sorts before the other.
pub open spec fn same_key(a: AudioEndpoint, b: AudioEndpoint) -> bool {
    &&& a.is_default == b.is_default
    &&& utf8(lowercase(a.name@)) == utf8(lowercase(b.name@))
    &&& utf8(a.id@) == utf8(b.id@)
}

/// The endpoints of `s` with the sort key of `e`, in their order in `s`.
pub open spec fn with_key(s: Seq<AudioEndpoint>, e: AudioEndpoint) -> Seq<AudioEndpoint> {
    s.filter(|x: AudioEndpoint| same_key(x, e))
}

/// No endpoint sorts before itself.
proof fn lemma_endpoint_before_irreflexive(e: AudioEndpoint)
    ensures
        !endpoint_before(e, e),
{
    lemma_lex_lt_irreflexive(utf8(lowercase(e.name@)));
    lemma_lex_lt_irreflexive(utf8(e.id@));
}

/// Inserting `e` into a sorted list ahead of the first endpoint that it
/// sorts before puts it after every endpoint of its key.
proof fn lemma_insert_with_key(before: Seq<AudioEndpoint>, p: int, e: AudioEndpoint, e0: AudioEndpoint)
    requires
        0 <= p <= before.len(),
        endpoints_sorted(before),
        p < before.len() ==> endpoint_before(e, before[p]),
    ensures
        with_key(before.insert(p, e), e0) == (if same_key(e, e0) {
            with_key(before, e0).push(e)
        } else {
            with_key(before, e0)
        }),
{
    let f = |x: AudioEndpoint| same_key(x, e0);
    let head = before.take(p);
    let tail = before.skip(p);
    assert(before.insert(p, e) =~= head + seq![e] + tail);
    assert(before =~= head + tail);
    Seq::filter_distributes_over_add(head + seq![e], tail, f);
    Seq::filter_distributes_over_add(head, seq![e], f);
    Seq::filter_distributes_over_add(head, tail, f);
    Seq::<AudioEndpoint>::empty().lemma_filter_push(e, f);
    assert(Seq::<AudioEndpoint>::empty().push(e) =~= seq![e]);
    assert(Seq::<AudioEndpoint>::empty().filter(f) =~= Seq::<AudioEndpoint>::empty()) by {
        reveal(Seq::filter);
    }
    if same_key(e, e0) {
        lemma_endpoint_before_irreflexive(e);
        assert forall|i: int| 0 <= i < tail.len() implies !f(#[trigger] tail[i]) by {
            if same_key(tail[i], e0) {
                assert(tail[i] == before[p + i]);
                if i > 0 {
                    assert(!endpoint_before(before[p + i], before[p]));
                }
            }
        }
        tail.lemma_all_neg_filter_empty(f);
        assert(tail.filter(f) =~= Seq::<AudioEndpoint>::empty());
        assert(head.filter(f) + seq![e] =~= head.filter(f).push(e));
        assert(head.filter(f) + Seq::<AudioEndpoint>::empty() =~= head.filter(f));
        assert(head.filter(f).push(e) + Seq::<AudioEndpoint>::empty() =~= head.filter(f).push(e));
    } else {
        assert(head.filter(f) + Seq::<AudioEndpoint>::empty() =~= head.filter(f));
    }
}

/// Orders an endpoint list: the default first, then by lowercased name,
/// then by ID. The result holds the same endpoints, and endpoints of the
/// same key keep their order: the sort is stable.
pub fn sort_endpoints(endpoints: &mut Vec<AudioEndpoint>)
    ensures
        endpoints_sorted(final(endpoints)@),
        final(endpoints)@.to_multiset() == old(endpoints)@.to_multiset(),
        forall|e: AudioEndpoint| #[trigger] with_key(final(endpoints)@, e) == with_key(old(endpoints)@, e),
{
    let ghost input = endpoints@;
    let mut pending: Vec<AudioEndpoint> = Vec::new();
    std::mem::swap(&mut pending, endpoints);
    let mut sorted: Vec<AudioEndpoint> = Vec::new();
    let mut k: usize = 0;
    let ghost original = pending@;
    proof {
        assert(original == input);
        assert(original.len() == pending.len());
        assert(original.subrange(0, original.len() as int) =~= original);
        assert(original.take(0) =~= Seq::<AudioEndpoint>::empty());
        assert(sorted@ =~= Seq::<AudioEndpoint>::empty());
    }
    while pending.len() > 0
        invariant
            original == input,
            original.len() <= usize::MAX,
            pending@ == original.subrange(k as int, original.len() as int),
            k <= original.len(),
            endpoints_sorted(sorted@),
            sorted@.to_multiset() == original.take(k as int).to_multiset(),
            forall|e0: AudioEndpoint| #[trigger] with_key(sorted@, e0) == with_key(original.take(k as int), e0),
        decreases pending@.len(),
    {
        let e = pending.remove(0);
        proof {
            assert(e == original[k as int]);
        }
        let mut p: usize = 0;
        while p < sorted.len() && !endpoint_sorts_before(&e, &sorted[p])
            invariant
                p <= sorted@.len(),
                forall|i: int| 0 <= i < p ==> !endpoint_before(e, #[trigger] sorted@[i]),
            decreases sorted@.len() - p,
        {
            p = p + 1;
        }
        let ghost before = sorted@;
        sorted.insert(p, e);
        proof {
            assert forall|i: int, j: int| 0 <= i < j < sorted@.len() implies !endpoint_before(
                sorted@[j],
                sorted@[i],
            ) by {
                if i < p && j == p {
                } else if i == p && j > p {
                    // e sorts before before[p], which no later element precedes.
                    assert(p < before.len());
                    assert(endpoint_before(e, before[p as int]));
                    if endpoint_before(before[j - 1], e) {
                        lemma_endpoint_before_transitive(before[j - 1], e, before[p as int]);
                        if j - 1 == p {
                            lemma_endpoint_before_asymmetric(e, before[p as int]);
                        }
                    }
                } else if i < p && j > p {
                    assert(!endpoint_before(before[j - 1], before[i]));
                } else if j < p {
                    assert(!endpoint_before(before[j], before[i]));
                } else {
                    assert(!endpoint_before(before[j - 1], before[i - 1]));
                }
            }
            assert(sorted@ == before.insert(p as int, e));
            vstd::seq_lib::to_multiset_insert(before, p as int, e);
            assert(original.take(k + 1) =~= original.take(k as int).push(e));
            vstd::seq_lib::to_multiset_build(original.take(k as int), e);
            assert forall|e0: AudioEndpoint| #[trigger] with_key(sorted@, e0) == with_key(original.take(k + 1), e0) by {
                lemma_insert_with_key(before, p as int, e, e0);
                original.take(k as int).lemma_filter_push(e, |x: AudioEndpoint| same_key(x, e0));
            }
        }
        k = k + 1;
    }
    proof {
        assert(original.take(k as int) =~= original);
    }
    *endpoints = sorted;
}


/// The markers of a monitor or loopback input among the lowercased names.
pub open spec fn monitor_markers() -> Seq<Seq<char>> {
    seq!["monitor"@, "loopback"@, "blackhole"@, "soundflower"@, "vb-audio"@, "pipewire"@, "pulse"@]
}

/// An input whose name marks it as a monitor or loopback of an output.
pub open spec fn monitor_name(name: Seq<char>) -> bool {
    exists|i: int|
        0 <= i < monitor_markers().len() && crate::text::contains_seq(
            lowercase(name),
            #[trigger] monitor_markers()[i],
        )
}

pub fn is_monitor_name(name: &str) -> (r: bool)
    ensures
        r == monitor_name(name@),
{
    let lower = to_lowercase(name);
    let markers: [&str; 7] = [
        "monitor",
        "loopback",
        "blackhole",
        "soundflower",
        "vb-audio",
        "pipewire",
        "pulse",
    ];
    proof {
        assert(markers@.map_values(|m: &str| m@) =~= monitor_markers());
    }
    let mut i: usize = 0;
    while i < 7
        invariant
            i <= 7,
            markers@.map_values(|m: &str| m@) == monitor_markers(),
            lower@ == lowercase(name@),
            forall|j: int| 0 <= j < i ==> !crate::text::contains_seq(lower@, #[trigger] monitor_markers()[j]),
        decreases 7 - i,
    {
        assert(markers@[i as int]@ == monitor_markers()[i as int]);
        if crate::text::str_contains(lower.as_str(), markers[i]) {
            return true;
        }
        i = i + 1;
    }
    false
}

/// An endpoint as listed, from what the audio host reports of a device.
/// A device without a readable name is listed under a fixed one.
pub fn endpoint_from_parts(
    id: String,
    name: Option<String>,
    channels: u16,
    sample_rate: u32,
    default_id: Option<&str>,
) -> (r: AudioEndpoint)
    ensures
        r.id == id,
        r.name@ == (match name {
            Some(n) => n@,
            None => "Unknown audio endpoint"@,
        }),
        r.is_default == opt_str_is(default_id, id@),
        r.channels == channels,
        r.sample_rate == sample_rate,
        r.monitored_output_id is None,
        !r.excludes_current_process_audio,
{
    let is_default = match default_id {
        Some(d) => str_eq(d, id.as_str()),
        None => false,
    };
    let name = match name {
        Some(n) => n,
        None => "Unknown audio endpoint".to_owned(),
    };
    AudioEndpoint {
        id,
        name,
        is_default,
        channels,
        sample_rate,
        monitored_output_id: None,
        excludes_current_process_audio: false,
    }
}

/// The endpoints named as monitors.
pub open spec fn monitor_filter() -> spec_fn(AudioEndpoint) -> bool {
    |e: AudioEndpoint| monitor_name(e.name@)
}

/// A copy of `e`.
pub fn clone_endpoint(e: &AudioEndpoint) -> (r: AudioEndpoint)
    ensures
        r == *e,
{
    let monitored_output_id = match &e.monitored_output_id {
        Some(m) => Some(m.clone()),
        None => None,
    };
    AudioEndpoint {
        id: e.id.clone(),
        name: e.name.clone(),
        is_default: e.is_default,
        channels: e.channels,
        sample_rate: e.sample_rate,
        monitored_output_id,
        excludes_current_process_audio: e.excludes_current_process_audio,
    }
}

/// The one source that captures all system audio, on the platforms that
/// have one.
fn all_system_audio(id: &str) -> (r: AudioEndpoint)
    ensures
        r.id@ == id@,
        r.name@ == "All system audio"@,
        r.is_default,
        r.channels == 2,
        r.sample_rate == 48_000,
        r.monitored_output_id is None,
        r.excludes_current_process_audio,
{
    AudioEndpoint {
        id: id.to_owned(),
        name: "All system audio".to_owned(),
        is_default: true,
        channels: 2,
        sample_rate: 48_000,
        monitored_output_id: None,
        excludes_current_process_audio: true,
    }
}

/// The one source of a platform that captures all system audio: the
/// default endpoint, stereo at 48 kHz, monitoring no output, without the
/// application's own audio.
pub open spec fn all_system_audio_source(e: AudioEndpoint, id: Seq<char>) -> bool {
    &&& e.id@ == id
    &&& e.name@ == "All system audio"@
    &&& e.is_default
    &&& e.channels == 2
    &&& e.sample_rate == 48_000
    &&& e.monitored_output_id is None
    &&& e.excludes_current_process_audio
}

/// `sources` are the system sources of `platform`: its own capture of all
/// system audio; on Linux the monitor of the default output; elsewhere the
/// inputs named as monitors.
pub open spec fn system_sources_of(
    platform: Platform,
    default_output_id: Option<String>,
    inputs: Seq<AudioEndpoint>,
    sources: Seq<AudioEndpoint>,
) -> bool {
    match platform {
        Platform::Windows => sources.len() == 1 && all_system_audio_source(
            sources[0],
            WINDOWS_PROCESS_LOOPBACK_ID@,
        ),
        Platform::MacOs => sources.len() == 1 && all_system_audio_source(
            sources[0],
            MACOS_SYSTEM_AUDIO_ID@,
        ),
        Platform::Linux => {
            &&& sources.len() == 1
            &&& sources[0].id@ == LINUX_DEFAULT_MONITOR_PREFIX@ + match default_output_id {
                Some(d) => d@,
                None => Seq::<char>::empty(),
            }
            &&& sources[0].name@ == "Default system audio"@
            &&& sources[0].is_default
            &&& sources[0].channels == 2
            &&& sources[0].sample_rate == 48_000
            &&& sources[0].monitored_output_id == default_output_id
            &&& !sources[0].excludes_current_process_audio
        },
        Platform::Other => sources == inputs.filter(monitor_filter()),
    }
}

/// The system sources of `platform`: its own capture of all system audio;
/// on Linux the monitor of the default output; elsewhere the inputs named
/// as monitors.
pub fn system_sources(platform: Platform, default_output_id: Option<String>, inputs: &Vec<AudioEndpoint>) -> (r:
    Vec<AudioEndpoint>)
    ensures
        system_sources_of(platform, default_output_id, inputs@, r@),
{
    match platform {
        Platform::Windows => {
            let mut v = Vec::new();
            v.push(all_system_audio(WINDOWS_PROCESS_LOOPBACK_ID));
            v
        },
        Platform::MacOs => {
            let mut v = Vec::new();
            v.push(all_system_audio(MACOS_SYSTEM_AUDIO_ID));
            v
        },
        Platform::Linux => {
            let id = match &default_output_id {
                Some(d) => crate::text::concat_str(LINUX_DEFAULT_MONITOR_PREFIX, d.as_str()),
                None => LINUX_DEFAULT_MONITOR_PREFIX.to_owned(),
            };
            proof {
                if default_output_id is None {
                    assert(LINUX_DEFAULT_MONITOR_PREFIX@ + Seq::<char>::empty() =~= LINUX_DEFAULT_MONITOR_PREFIX@);
                }
            }
            let mut v = Vec::new();
            v.push(
                AudioEndpoint {
                    id,
                    name: "Default system audio".to_owned(),
                    is_default: true,
                    channels: 2,
                    sample_rate: 48_000,
                    monitored_output_id: default_output_id,
                    excludes_current_process_audio: false,
                },
            );
            v
        },
        Platform::Other => {
            let ghost f = monitor_filter();
            let mut v: Vec<AudioEndpoint> = Vec::new();
            let mut i: usize = 0;
            proof {
                reveal(Seq::filter);
                assert(inputs@.take(0) =~= Seq::<AudioEndpoint>::empty());
            }
            while i < inputs.len()
                invariant
                    f == monitor_filter(),
                    i <= inputs@.len(),
                    v@ == inputs@.take(i as int).filter(f),
                decreases inputs@.len() - i,
            {
                let ghost prefix = inputs@.take(i + 1);
                proof {
                    reveal(Seq::filter);
                    assert(prefix.drop_last() =~= inputs@.take(i as int));
                    assert(prefix.last() == inputs@[i as int]);
                    assert(prefix.filter(f) == (if f(inputs@[i as int]) {
                        inputs@.take(i as int).filter(f).push(inputs@[i as int])
                    } else {
                        inputs@.take(i as int).filter(f)
                    }));
                }
                if is_monitor_name(inputs[i].name.as_str()) {
                    v.push(clone_endpoint(&inputs[i]));
                }
                i = i + 1;
            }
            proof {
                assert(inputs@.take(inputs@.len() as int) =~= inputs@);
            }
            v
        },
    }
}


/// The inventory of endpoints: inputs and outputs listed once per ID and
/// ordered, and the system sources of the platform.
pub fn build_inventory(
    platform: Platform,
    input_candidates: Vec<AudioEndpoint>,
    output_candidates: Vec<AudioEndpoint>,
    default_output_id: Option<String>,
) -> (r: AudioDeviceInventory)
    ensures
        endpoints_sorted(r.inputs@),
        endpoints_sorted(r.outputs@),
        forall|i: int, j: int|
            0 <= i < j < r.inputs@.len() ==> r.inputs@[i].id@ != r.inputs@[j].id@,
        forall|i: int, j: int|
            0 <= i < j < r.outputs@.len() ==> r.outputs@[i].id@ != r.outputs@[j].id@,
        forall|k: int|
            0 <= k < input_candidates@.len() ==> has_id(r.inputs@, (#[trigger] input_candidates@[k]).id@),
        forall|k: int|
            0 <= k < output_candidates@.len() ==> has_id(r.outputs@, (#[trigger] output_candidates@[k]).id@),
        forall|i: int| 0 <= i < r.inputs@.len() ==> first_with_id(input_candidates@, #[trigger] r.inputs@[i]),
        forall|i: int| 0 <= i < r.outputs@.len() ==> first_with_id(output_candidates@, #[trigger] r.outputs@[i]),
        system_sources_of(platform, default_output_id, r.inputs@, r.system_sources@),
{
    let inputs = unique_sorted(input_candidates);
    let outputs = unique_sorted(output_candidates);
    let system_sources = system_sources(platform, default_output_id, &inputs);
    AudioDeviceInventory { inputs, outputs, system_sources }
}

/// The endpoints of `s` have distinct IDs.
pub open spec fn distinct_ids(s: Seq<AudioEndpoint>) -> bool {
    forall|i: int, j: int| 0 <= i < j < s.len() ==> s[i].id@ != s[j].id@
}

/// `e` is the first of `s` with its ID.
pub open spec fn first_with_id(s: Seq<AudioEndpoint>, e: AudioEndpoint) -> bool {
    exists|k: int|
        0 <= k < s.len() && s[k] == e && forall|j: int| 0 <= j < k ==> (#[trigger] s[j]).id@ != e.id@
}

/// `candidates` listed once per ID, the first of each ID kept, in the
/// order of the lists.
fn unique_sorted(candidates: Vec<AudioEndpoint>) -> (r: Vec<AudioEndpoint>)
    ensures
        endpoints_sorted(r@),
        distinct_ids(r@),
        forall|k: int| 0 <= k < candidates@.len() ==> has_id(r@, (#[trigger] candidates@[k]).id@),
        forall|i: int| 0 <= i < r@.len() ==> first_with_id(candidates@, #[trigger] r@[i]),
{
    let ghost all = candidates@;
    let mut out: Vec<AudioEndpoint> = Vec::new();
    let mut k: usize = 0;
    for e in it: candidates.into_iter()
        invariant
            it.seq() == all,
            distinct_ids(out@),
            forall|j: int| 0 <= j < it.index() ==> has_id(out@, (#[trigger] all[j]).id@),
            forall|i: int| 0 <= i < out@.len() ==> first_with_id(all, #[trigger] out@[i]),
    {
        let ghost before = out@;
        let ghost idx = it.index();
        assert(e == all[idx as int]);
        push_unique_endpoint(&mut out, e);
        proof {
            assert forall|j: int| 0 <= j < idx + 1 implies has_id(out@, (#[trigger] all[j]).id@) by {
                if j < idx {
                    let w = choose|w: int| 0 <= w < before.len() && (#[trigger] before[w]).id@ == all[j].id@;
                    assert(out@[w] == before[w]);
                } else if out@ != before {
                    assert(out@[before.len() as int] == all[idx as int]);
                }
            }
            if out@ != before {
                assert forall|j: int| 0 <= j < idx implies (#[trigger] all[j]).id@ != e.id@ by {
                    if all[j].id@ == e.id@ {
                        assert(has_id(before, all[j].id@));
                    }
                }
                assert(first_with_id(all, out@[before.len() as int]));
                assert forall|i: int| 0 <= i < out@.len() implies first_with_id(all, #[trigger] out@[i]) by {
                    if i < before.len() {
                        assert(out@[i] == before[i]);
                    }
                }
            }
        }
    }
    let ghost unsorted = out@;
    sort_endpoints(&mut out);
    proof {
        assert forall|i: int, j: int| 0 <= i < j < out@.len() implies out@[i].id@ != out@[j].id@ by {
            lemma_distinct_ids_multiset(unsorted, out@, i, j);
        }
        assert forall|k: int| 0 <= k < all.len() implies has_id(out@, (#[trigger] all[k]).id@) by {
            let w = choose|w: int| 0 <= w < unsorted.len() && (#[trigger] unsorted[w]).id@ == all[k].id@;
            assert(unsorted.contains(unsorted[w]));
            vstd::seq_lib::to_multiset_contains(unsorted, unsorted[w]);
            vstd::seq_lib::to_multiset_contains(out@, unsorted[w]);
            assert(out@.contains(unsorted[w]));
            let z = choose|z: int| 0 <= z < out@.len() && out@[z] == unsorted[w];
            assert(out@[z].id@ == all[k].id@);
        }
        assert forall|i: int| 0 <= i < out@.len() implies first_with_id(all, #[trigger] out@[i]) by {
            assert(out@.contains(out@[i]));
            vstd::seq_lib::to_multiset_contains(out@, out@[i]);
            vstd::seq_lib::to_multiset_contains(unsorted, out@[i]);
            let w = choose|w: int| 0 <= w < unsorted.len() && unsorted[w] == out@[i];
            assert(first_with_id(all, unsorted[w]));
        }
    }
    out
}

/// Reordering keeps the IDs distinct.
proof fn lemma_distinct_ids_multiset(a: Seq<AudioEndpoint>, b: Seq<AudioEndpoint>, i: int, j: int)
    requires
        distinct_ids(a),
        a.to_multiset() == b.to_multiset(),
        0 <= i < j < b.len(),
    ensures
        b[i].id@ != b[j].id@,
{
    broadcast use vstd::seq_lib::group_to_multiset_ensures;
    if b[i].id@ == b[j].id@ {
        assert(b.contains(b[i]));
        assert(b.contains(b[j]));
        vstd::seq_lib::to_multiset_contains(b, b[i]);
        vstd::seq_lib::to_multiset_contains(b, b[j]);
        vstd::seq_lib::to_multiset_contains(a, b[i]);
        vstd::seq_lib::to_multiset_contains(a, b[j]);
        assert(a.contains(b[i]));
        assert(a.contains(b[j]));
        let x = choose|x: int| 0 <= x < a.len() && a[x] == b[i];
        let y = choose|y: int| 0 <= y < a.len() && a[y] == b[j];
        if x == y {
            // The same endpoint twice in `b` occurs twice in `a`.
            assert(b[i] == b[j]);
            lemma_count_two(b, i, j);
            lemma_count_distinct(a, x);
        }
    }
}

proof fn lemma_count_two(s: Seq<AudioEndpoint>, i: int, j: int)
    requires
        0 <= i < j < s.len(),
        s[i] == s[j],
    ensures
        s.to_multiset().count(s[i]) >= 2,
    decreases s.len(),
{
    broadcast use vstd::seq_lib::group_to_multiset_ensures;
    let last = s.len() - 1;
    vstd::seq_lib::to_multiset_build(s.drop_last(), s.last());
    assert(s.drop_last().push(s.last()) =~= s);
    if j < last {
        lemma_count_two(s.drop_last(), i, j);
    } else {
        assert(s.drop_last().contains(s[i]));
    }
}

proof fn lemma_count_distinct(s: Seq<AudioEndpoint>, x: int)
    requires
        distinct_ids(s),
        0 <= x < s.len(),
    ensures
        s.to_multiset().count(s[x]) == 1,
    decreases s.len(),
{
    broadcast use vstd::seq_lib::group_to_multiset_ensures;
    let last = s.len() - 1;
    vstd::seq_lib::to_multiset_build(s.drop_last(), s.last());
    assert(s.drop_last().push(s.last()) =~= s);
    if x < last {
        lemma_count_distinct(s.drop_last(), x);
        assert(s.last() != s[x]);
    } else {
        if s.drop_last().contains(s[x]) {
            let w = choose|w: int| 0 <= w < s.drop_last().len() && s.drop_last()[w] == s[x];
            assert(s[w].id@ == s[x].id@);
        }
    }
}

// ---------------------------------------------------------------------
// PCM16 framing
// ---------------------------------------------------------------------

/// The first error of a native audio worker, kept until it is taken.
#[derive(Debug)]
pub struct ErrorSlot {
    pub message: Option<String>,
}

impl ErrorSlot {
    pub fn new() -> (r: ErrorSlot)
        ensures
            r.message is None,
    {
        ErrorSlot { message: None }
    }

    /// Records `message` unless an earlier error is recorded.
    pub fn set_first(&mut self, message: String)
        ensures
            old(self).message is Some ==> final(self).message == old(self).message,
            old(self).message is None ==> final(self).message == Some(message),
    {
        if self.message.is_none() {
            self.message = Some(message);
        }
    }

    /// The recorded error, which stays recorded.
    pub fn peek(&self) -> (r: Option<String>)
        ensures
            r == self.message,
    {
        match &self.message {
            Some(m) => Some(m.clone()),
            None => None,
        }
    }

    /// The recorded error, which is then cleared.
    pub fn take(&mut self) -> (r: Option<String>)
        ensures
            r == old(self).message,
            final(self).message is None,
    {
        let r = self.message.take();
        r
    }
}

/// The little-endian signed 16-bit sample of two bytes.
pub open spec fn le_i16(lo: u8, hi: u8) -> int {
    let v = lo + 256 * hi;
    if v >= 32768 {
        v - 65536
    } else {
        v
    }
}

/// The samples of a little-endian PCM16 byte string.
pub open spec fn pcm16_samples(bytes: Seq<u8>) -> Seq<i16> {
    Seq::new(bytes.len() / 2, |i: int| le_i16(bytes[2 * i], bytes[2 * i + 1]) as i16)
}

fn sample_of(lo: u8, hi: u8) -> (r: i16)
    ensures
        r == le_i16(lo, hi),
{
    let v: i32 = lo as i32 + 256 * (hi as i32);
    if v >= 32768 {
        (v - 65536) as i16
    } else {
        v as i16
    }
}

/// A chunk of little-endian mono PCM16 for playback: not empty, whole
/// samples, at most four seconds; refused while the worker has failed.
pub fn playback_samples(bytes: &[u8], worker_error: Option<String>) -> (r: Result<Vec<i16>, String>)
    ensures
        (bytes@.len() == 0 || bytes@.len() % 2 != 0 || bytes@.len() > MAX_PLAYBACK_INPUT_BYTES) ==> (
        r matches Err(e) && e@ == "Invalid playback PCM16 chunk"@),
        !(bytes@.len() == 0 || bytes@.len() % 2 != 0 || bytes@.len() > MAX_PLAYBACK_INPUT_BYTES) ==> match worker_error {
            Some(m) => r == Err::<Vec<i16>, String>(m),
            None => r matches Ok(samples) && samples@ == pcm16_samples(bytes@),
        },
{
    if bytes.len() == 0 || bytes.len() % 2 != 0 || bytes.len() > MAX_PLAYBACK_INPUT_BYTES {
        return Err("Invalid playback PCM16 chunk".to_owned());
    }
    match worker_error {
        Some(m) => return Err(m),
        None => {},
    }
    let n = bytes.len() / 2;
    let mut samples: Vec<i16> = Vec::new();
    let mut i: usize = 0;
    while i < n
        invariant
            n == bytes@.len() / 2,
            bytes@.len() <= MAX_PLAYBACK_INPUT_BYTES,
            i <= n,
            samples@ == pcm16_samples(bytes@).take(i as int),
        decreases n - i,
    {
        let s = sample_of(bytes[2 * i], bytes[2 * i + 1]);
        samples.push(s);
        proof {
            assert(samples@ =~= pcm16_samples(bytes@).take(i + 1));
        }
        i = i + 1;
    }
    proof {
        assert(pcm16_samples(bytes@).take(n as int) =~= pcm16_samples(bytes@));
    }
    Ok(samples)
}

/// `chunks` joined end to end.
pub open spec fn joined(chunks: Seq<Seq<i16>>) -> Seq<i16>
    decreases chunks.len(),
{
    if chunks.len() == 0 {
        Seq::empty()
    } else {
        joined(chunks.drop_last()) + chunks.last()
    }
}

pub open spec fn chunk_views(v: Seq<Vec<i16>>) -> Seq<Seq<i16>> {
    v.map_values(|c: Vec<i16>| c@)
}

/// Takes every complete packet of `CAPTURE_CHUNK_SAMPLES` from the front of
/// `pending`, in order; what remains is shorter than a packet.
pub fn take_complete_chunks(pending: &mut Vec<i16>) -> (r: Vec<Vec<i16>>)
    ensures
        joined(chunk_views(r@)) + final(pending)@ == old(pending)@,
        final(pending)@.len() < CAPTURE_CHUNK_SAMPLES,
        forall|i: int| 0 <= i < r@.len() ==> (#[trigger] r@[i])@.len() == CAPTURE_CHUNK_SAMPLES,
{
    let ghost original = pending@;
    let mut chunks: Vec<Vec<i16>> = Vec::new();
    let mut start: usize = 0;
    proof {
        assert(joined(chunk_views(chunks@)) =~= original.take(0));
    }
    while pending.len() - start >= CAPTURE_CHUNK_SAMPLES
        invariant
            pending@ == original,
            start <= pending@.len(),
            joined(chunk_views(chunks@)) == original.take(start as int),
            forall|i: int| 0 <= i < chunks@.len() ==> (#[trigger] chunks@[i])@.len() == CAPTURE_CHUNK_SAMPLES,
        decreases pending@.len() - start,
    {
        let mut chunk: Vec<i16> = Vec::new();
        let mut j: usize = 0;
        while j < CAPTURE_CHUNK_SAMPLES
            invariant
                pending@ == original,
                start + CAPTURE_CHUNK_SAMPLES <= pending@.len(),
                pending@.len() == pending.len(),
                j <= CAPTURE_CHUNK_SAMPLES,
                chunk@ == original.subrange(start as int, start + j),
            decreases CAPTURE_CHUNK_SAMPLES - j,
        {
            chunk.push(pending[start + j]);
            proof {
                assert(chunk@ =~= original.subrange(start as int, start + j + 1));
            }
            j = j + 1;
        }
        let ghost before = chunks@;
        chunks.push(chunk);
        proof {
            assert(chunk_views(chunks@).drop_last() =~= chunk_views(before));
            assert(original.take(start + CAPTURE_CHUNK_SAMPLES) =~= original.take(start as int)
                + original.subrange(start as int, start + CAPTURE_CHUNK_SAMPLES));
        }
        start = start + CAPTURE_CHUNK_SAMPLES;
    }
    let mut rest: Vec<i16> = Vec::new();
    let mut k: usize = start;
    while k < pending.len()
        invariant
            pending@ == original,
            start <= k <= pending@.len(),
            rest@ == original.subrange(start as int, k as int),
        decreases pending@.len() - k,
    {
        rest.push(pending[k]);
        proof {
            assert(rest@ =~= original.subrange(start as int, k + 1));
        }
        k = k + 1;
    }
    proof {
        assert(original.take(start as int) + rest@ =~= original);
    }
    *pending = rest;
    chunks
}


/// Two endpoints with different IDs are ordered one way or the other.
pub proof fn lemma_endpoint_before_total(x: AudioEndpoint, y: AudioEndpoint)
    requires
        x.id@ != y.id@,
    ensures
        endpoint_before(x, y) || endpoint_before(y, x),
{
    vstd::utf8::encode_utf8_decode_utf8(x.id@);
    vstd::utf8::encode_utf8_decode_utf8(y.id@);
    lemma_lex_lt_total(utf8(lowercase(x.name@)), utf8(lowercase(y.name@)));
    lemma_lex_lt_total(utf8(x.id@), utf8(y.id@));
}

/// Sorting is deterministic: two sorted orderings of the same endpoints,
/// whose IDs are distinct, are the same list.
pub proof fn law_sorted_endpoint_lists_are_unique(a: Seq<AudioEndpoint>, b: Seq<AudioEndpoint>)
    requires
        endpoints_sorted(a),
        endpoints_sorted(b),
        a.to_multiset() == b.to_multiset(),
        distinct_ids(a),
    ensures
        a == b,
    decreases a.len(),
{
    vstd::seq_lib::to_multiset_len(a);
    vstd::seq_lib::to_multiset_len(b);
    if a.len() == 0 {
        assert(a =~= b);
    } else {
        let x = a[0];
        let y = b[0];
        assert(b.contains(y));
        vstd::seq_lib::to_multiset_contains(b, y);
        vstd::seq_lib::to_multiset_contains(a, y);
        let k = choose|k: int| 0 <= k < a.len() && a[k] == y;
        assert(a.contains(x));
        vstd::seq_lib::to_multiset_contains(a, x);
        vstd::seq_lib::to_multiset_contains(b, x);
        let m = choose|m: int| 0 <= m < b.len() && b[m] == x;
        if x != y {
            assert(k != 0);
            assert(x.id@ != y.id@);
            lemma_endpoint_before_total(x, y);
            assert(!endpoint_before(a[k], a[0]));
            assert(m != 0);
            assert(!endpoint_before(b[m], b[0]));
        }
        assert(x == y);
        vstd::seq_lib::to_multiset_remove(a, 0);
        vstd::seq_lib::to_multiset_remove(b, 0);
        assert(a.remove(0) =~= a.drop_first());
        assert(b.remove(0) =~= b.drop_first());
        law_sorted_endpoint_lists_are_unique(a.drop_first(), b.drop_first());
        assert(a =~= seq![x] + a.drop_first());
        assert(b =~= seq![y] + b.drop_first());
    }
}


/// The order of the input does not matter: sorting two orderings of the
/// same endpoints, whose IDs are distinct, gives the same list.
pub proof fn law_sort_ignores_input_order(
    x: Seq<AudioEndpoint>,
    y: Seq<AudioEndpoint>,
    sorted_x: Seq<AudioEndpoint>,
    sorted_y: Seq<AudioEndpoint>,
)
    requires
        x.to_multiset() == y.to_multiset(),
        distinct_ids(x),
        endpoints_sorted(sorted_x),
        sorted_x.to_multiset() == x.to_multiset(),
        endpoints_sorted(sorted_y),
        sorted_y.to_multiset() == y.to_multiset(),
    ensures
        sorted_x == sorted_y,
{
    assert forall|i: int, j: int| 0 <= i < j < sorted_x.len() implies sorted_x[i].id@
        != sorted_x[j].id@ by {
        lemma_distinct_ids_multiset(x, sorted_x, i, j);
    }
    law_sorted_endpoint_lists_are_unique(sorted_x, sorted_y);
}

} // verus!
