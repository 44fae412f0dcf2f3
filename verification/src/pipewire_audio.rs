//! PipeWire audio status policy over `pactl`'s structured JSON API.
//!
//! The native adapter runs `pactl --format=json info` and
//! `pactl --format=json list sinks` and decodes their JSON; this module
//! decides what the decoded reply means for the bar.

use vstd::prelude::*;
use crate::seqs::{first_index, lemma_first_index_is};
use crate::text::{contains_seq, contains_str, decimal, push_decimal, str_eq};
use crate::topbar::{AudioStatus, ProviderState};

verus! {

/// Failure to query or validate the PipeWire-backed audio service.
#[derive(Debug, Clone, PartialEq, Eq)]
pub struct PipewireAudioError(pub String);

impl PipewireAudioError {
    /// The diagnostic text.
    pub fn message(&self) -> (message: &str)
        ensures
            message@ == self.0@,
    {
        self.0.as_str()
    }
}

/// The `pactl` executable a live provider runs for its JSON API.
#[derive(Debug, Clone, PartialEq, Eq)]
pub struct PipewireAudioProvider {
    pactl: String,
}

impl PipewireAudioProvider {
    /// Use a particular `pactl` executable. Tests can provide a controlled
    /// adapter while production uses the executable resolved by `PATH`.
    pub fn new(pactl: String) -> (provider: Self)
        ensures
            provider.pactl_spec() == pactl@,
    {
        PipewireAudioProvider { pactl }
    }

    /// The executable's name or path.
    pub closed spec fn pactl_spec(&self) -> Seq<char> {
        self.pactl@
    }

    /// The executable's name or path.
    pub fn pactl(&self) -> (pactl: &str)
        ensures
            pactl@ == self.pactl_spec(),
    {
        self.pactl.as_str()
    }

    /// The executable resolved through `PATH`.
    pub fn from_path() -> (provider: Self)
        ensures
            provider.pactl_spec() == "pactl"@,
    {
        PipewireAudioProvider { pactl: String::from_str("pactl") }
    }
}

/// The decoded reply of `pactl --format=json info`.
#[derive(Debug, Clone, PartialEq, Eq)]
pub struct PactlInfo {
    pub server_name: String,
    pub default_sink_name: Option<String>,
}

/// One channel's volume in a sink.
#[derive(Debug, Clone, PartialEq, Eq)]
pub struct PactlVolume {
    pub value_percent: String,
}

/// One sink of `pactl --format=json list sinks`; its channels are in
/// channel-name order, as the reply's volume object is read.
#[derive(Debug, Clone, PartialEq, Eq)]
pub struct PactlSink {
    pub name: String,
    pub driver: String,
    pub mute: bool,
    pub volume: Vec<(String, PactlVolume)>,
}

// ---------------------------------------------------------------------------
// Volume text.

/// Whether `c` is an ASCII digit.
pub open spec fn is_digit(c: char) -> bool {
    '0' <= c <= '9'
}

/// The number an all-digit string spells.
pub open spec fn digits_value(digits: Seq<char>) -> nat
    decreases digits.len(),
{
    if digits.len() == 0 {
        0
    } else {
        10 * digits_value(digits.drop_last()) + (digits.last() as nat - '0' as nat) as nat
    }
}

/// Whether every character of `text` is an ASCII digit.
pub open spec fn all_digits(text: Seq<char>) -> bool {
    forall|i: int| 0 <= i < text.len() ==> is_digit(#[trigger] text[i])
}

/// The digits of an unsigned number's text: the text without a leading `+`.
pub open spec fn unsigned_digits(text: Seq<char>) -> Seq<char> {
    if text.len() > 0 && text[0] == '+' {
        text.drop_first()
    } else {
        text
    }
}

/// What `str::parse::<u8>` accepts: an optional `+` and at least one digit,
/// spelling a number up to 255.
pub open spec fn u8_text_value(text: Seq<char>) -> Option<nat> {
    let digits = unsigned_digits(text);
    if digits.len() > 0 && all_digits(digits) && digits_value(digits) <= 255 {
        Some(digits_value(digits))
    } else {
        None
    }
}

/// The percentage a `value_percent` such as `"62%"` spells: a `u8` number
/// followed by `%`.
pub open spec fn percent_text_value(text: Seq<char>) -> Option<nat> {
    if text.len() > 0 && text.last() == '%' {
        u8_text_value(text.drop_last())
    } else {
        None
    }
}

/// The result of reading one channel's `value_percent`.
pub open spec fn percentage_meaning(text: Seq<char>) -> Result<u8, Seq<char>> {
    match percent_text_value(text) {
        None => Err("invalid PipeWire volume: "@ + text),
        Some(value) => if value > 100 {
            Err("PipeWire volume exceeds the SOL 0..=100 contract: "@ + decimal(value) + "%"@)
        } else {
            Ok(value as u8)
        },
    }
}

/// Parse the digits `text[from..to]` as `str::parse::<u8>` would, capped:
/// the value, or 256 for anything larger.
fn capped_digits_value(text: &str, from: usize, to: usize) -> (value: Option<u32>)
    requires
        from <= to <= text@.len(),
    ensures
        match value {
            None => exists|i: int| from <= i < to && !is_digit(#[trigger] text@[i]),
            Some(v) => (forall|i: int| from <= i < to ==> is_digit(#[trigger] text@[i])) && v == if digits_value(
                text@.subrange(from as int, to as int),
            ) > 255 {
                256
            } else {
                digits_value(text@.subrange(from as int, to as int))
            },
        },
{
    let mut value: u32 = 0;
    let mut i = from;
    while i < to
        invariant
            from <= i <= to <= text@.len(),
            forall|j: int| from <= j < i ==> is_digit(#[trigger] text@[j]),
            value == if digits_value(text@.subrange(from as int, i as int)) > 255 {
                256
            } else {
                digits_value(text@.subrange(from as int, i as int))
            },
        decreases to - i,
    {
        let c = text.get_char(i);
        if !('0' <= c && c <= '9') {
            return None;
        }
        proof {
            assert(text@.subrange(from as int, i + 1).drop_last() =~= text@.subrange(
                from as int,
                i as int,
            ));
        }
        let digit = (c as u32) - ('0' as u32);
        if value < 256 {
            value = value * 10 + digit;
            if value > 256 {
                value = 256;
            }
        }
        i = i + 1;
    }
    Some(value)
}

/// Read one channel's `value_percent` as a whole percent in `0..=100`.
pub fn parse_percentage(text: &str) -> (result: Result<u8, PipewireAudioError>)
    ensures
        match percentage_meaning(text@) {
            Ok(value) => result == Ok::<u8, PipewireAudioError>(value),
            Err(message) => result is Err && result->Err_0.0@ == message,
        },
{
    let len = text.unicode_len();
    let mut value: Option<u32> = None;
    if len > 0 && text.get_char(len - 1) == '%' {
        let from: usize = if len > 1 && text.get_char(0) == '+' {
            1
        } else {
            0
        };
        if from < len - 1 {
            value = capped_digits_value(text, from, len - 1);
        }
        proof {
            let body = text@.drop_last();
            let digits = unsigned_digits(body);
            assert(digits =~= text@.subrange(from as int, len - 1));
            assert(forall|i: int| 0 <= i < digits.len() ==> #[trigger] digits[i] == text@[from + i]);
            if value is None && from < len - 1 {
                let bad = choose|i: int| from <= i < len - 1 && !is_digit(#[trigger] text@[i]);
                assert(!is_digit(digits[bad - from]));
                assert(u8_text_value(body) is None);
            }
            if value is None && from >= len - 1 {
                assert(digits.len() == 0);
                assert(u8_text_value(body) is None);
            }
            assert(value is None ==> u8_text_value(body) is None);
            assert(percent_text_value(text@) == u8_text_value(body));
        }
    }
    match value {
        Some(v) => {
            if v > 255 {
                let mut message = String::from_str("invalid PipeWire volume: ");
                message.append(text);
                return Err(PipewireAudioError(message));
            }
            if v > 100 {
                let mut message = String::from_str(
                    "PipeWire volume exceeds the SOL 0..=100 contract: ",
                );
                push_decimal(&mut message, v as u64);
                message.append("%");
                return Err(PipewireAudioError(message));
            }
            Ok(v as u8)
        },
        None => {
            let mut message = String::from_str("invalid PipeWire volume: ");
            message.append(text);
            Err(PipewireAudioError(message))
        },
    }
}

// ---------------------------------------------------------------------------
// The snapshot.

/// The percentages of a sink's channels, in order, or the first channel's
/// error.
pub open spec fn channel_percentages(volume: Seq<(String, PactlVolume)>) -> Result<Seq<u8>, Seq<char>>
    decreases volume.len(),
{
    if volume.len() == 0 {
        Ok(Seq::empty())
    } else {
        match channel_percentages(volume.drop_last()) {
            Err(message) => Err(message),
            Ok(earlier) => match percentage_meaning(volume.last().1.value_percent@) {
                Err(message) => Err(message),
                Ok(percent) => Ok(earlier.push(percent)),
            },
        }
    }
}

/// The sum of some percentages.
pub open spec fn percent_sum(percents: Seq<u8>) -> nat
    decreases percents.len(),
{
    if percents.len() == 0 {
        0
    } else {
        percent_sum(percents.drop_last()) + percents.last() as nat
    }
}

/// Whether a sink is the one named `name`.
pub open spec fn sink_named(name: Seq<char>) -> spec_fn(PactlSink) -> bool {
    |sink: PactlSink| sink.name@ == name
}

/// What the decoded replies of `pactl info` and `pactl list sinks` mean for
/// the bar: the audio of the default sink (the mean of its channels, rounded
/// down), `Unavailable` when there is no default sink, or the error text.
pub open spec fn pactl_meaning(
    info: Result<PactlInfo, String>,
    sinks: Result<Vec<PactlSink>, String>,
) -> Result<ProviderState<AudioStatus>, Seq<char>> {
    match info {
        Err(reason) => Err("parse pactl info JSON: "@ + reason@),
        Ok(info) => if !contains_seq(info.server_name@, "PipeWire"@) {
            Err("audio server is not PipeWire-backed: "@ + info.server_name@)
        } else {
            match info.default_sink_name {
                None => Ok(ProviderState::Unavailable),
                Some(default_sink) => match sinks {
                    Err(reason) => Err("parse pactl sinks JSON: "@ + reason@),
                    Ok(sinks) => {
                        let at = first_index(sinks@, sink_named(default_sink@));
                        if at < 0 {
                            Err("default PipeWire sink is missing: "@ + default_sink@)
                        } else {
                            let sink = sinks@[at];
                            if sink.driver@ != "PipeWire"@ {
                                Err("default sink is not owned by PipeWire: "@ + sink.driver@)
                            } else if sink.volume@.len() == 0 {
                                Err("default PipeWire sink has no volume channels"@)
                            } else {
                                match channel_percentages(sink.volume@) {
                                    Err(message) => Err(message),
                                    Ok(percents) => Ok(
                                        ProviderState::Available {
                                            value: AudioStatus {
                                                volume_percent: (percent_sum(percents)
                                                    / percents.len()) as u8,
                                                muted: sink.mute,
                                            },
                                            stale: false,
                                        },
                                    ),
                                }
                            }
                        }
                    },
                },
            }
        },
    }
}

/// The sum of percentages is at most 100 each.
proof fn lemma_percent_sum_bound(percents: Seq<u8>)
    requires
        forall|i: int| 0 <= i < percents.len() ==> #[trigger] percents[i] <= 100,
    ensures
        percent_sum(percents) <= 100 * percents.len(),
    decreases percents.len(),
{
    if percents.len() > 0 {
        lemma_percent_sum_bound(percents.drop_last());
    }
}

/// Every channel that reads successfully is a percentage in `0..=100`.
proof fn lemma_channel_percentages_bound(volume: Seq<(String, PactlVolume)>)
    ensures
        channel_percentages(volume) matches Ok(percents) ==> percents.len() == volume.len() && forall|
            i: int,
        | 0 <= i < percents.len() ==> #[trigger] percents[i] <= 100,
    decreases volume.len(),
{
    if volume.len() > 0 {
        lemma_channel_percentages_bound(volume.drop_last());
    }
}

/// The mean volume of a sink's channels, or the first channel's error.
fn mean_channel_percent(volume: &Vec<(String, PactlVolume)>) -> (result: Result<u8, PipewireAudioError>)
    requires
        volume@.len() > 0,
    ensures
        match channel_percentages(volume@) {
            Ok(percents) => result == Ok::<u8, PipewireAudioError>(
                (percent_sum(percents) / percents.len()) as u8,
            ),
            Err(message) => result is Err && result->Err_0.0@ == message,
        },
{
    let mut total: u128 = 0;
    let mut count: u64 = 0;
    let mut i: usize = 0;
    while i < volume.len()
        invariant
            i <= volume@.len(),
            count == i,
            channel_percentages(volume@.take(i as int)) matches Ok(percents) && total == percent_sum(
                percents,
            ) && total <= 100 * count,
        decreases volume@.len() - i,
    {
        proof {
            assert(volume@.take(i + 1).drop_last() =~= volume@.take(i as int));
        }
        let percent = match parse_percentage(volume[i].1.value_percent.as_str()) {
            Ok(percent) => percent,
            Err(error) => {
                proof {
                    lemma_channel_errors_persist(volume@, (i + 1) as nat);
                }
                return Err(error);
            },
        };
        proof {
            let earlier = channel_percentages(volume@.take(i as int))->Ok_0;
            assert(volume@.take(i + 1).last() == volume@[i as int]);
            assert(earlier.push(percent).drop_last() =~= earlier);
            assert(percent <= 100);
        }
        total = total + percent as u128;
        count = count + 1;
        i = i + 1;
    }
    proof {
        assert(volume@.take(i as int) =~= volume@);
        lemma_channel_percentages_bound(volume@);
        assert(total / (count as u128) <= 100) by (nonlinear_arith)
            requires
                total <= 100 * count,
                count > 0,
        ;
    }
    Ok((total / count as u128) as u8)
}

/// Once a channel fails to read, the whole sink does.
proof fn lemma_channel_errors_persist(volume: Seq<(String, PactlVolume)>, n: nat)
    requires
        n <= volume.len(),
        channel_percentages(volume.take(n as int)) is Err,
    ensures
        channel_percentages(volume) == channel_percentages(volume.take(n as int)),
    decreases volume.len() - n,
{
    if n < volume.len() {
        assert(volume.take(n + 1 as int).drop_last() =~= volume.take(n as int));
        lemma_channel_errors_persist(volume, n + 1);
    } else {
        assert(volume.take(n as int) =~= volume);
    }
}

/// Map decoded `pactl` replies to the bar's audio status.
///
/// The audio server must be PipeWire's Pulse compatibility service and the
/// default sink must be owned by PipeWire; no default sink is `Unavailable`.
/// The reported volume is the mean of the default sink's channels.
pub fn map_pactl_snapshot(info: Result<PactlInfo, String>, sinks: Result<Vec<PactlSink>, String>) -> (result: Result<
    ProviderState<AudioStatus>,
    PipewireAudioError,
>)
    ensures
        match pactl_meaning(info, sinks) {
            Ok(state) => result == Ok::<ProviderState<AudioStatus>, PipewireAudioError>(state),
            Err(message) => result is Err && result->Err_0.0@ == message,
        },
{
    let info = match info {
        Ok(info) => info,
        Err(reason) => {
            let mut message = String::from_str("parse pactl info JSON: ");
            message.append(reason.as_str());
            return Err(PipewireAudioError(message));
        },
    };
    if !contains_str(info.server_name.as_str(), "PipeWire") {
        let mut message = String::from_str("audio server is not PipeWire-backed: ");
        message.append(info.server_name.as_str());
        return Err(PipewireAudioError(message));
    }
    let default_sink = match info.default_sink_name {
        Some(name) => name,
        None => return Ok(ProviderState::Unavailable),
    };
    let sinks = match sinks {
        Ok(sinks) => sinks,
        Err(reason) => {
            let mut message = String::from_str("parse pactl sinks JSON: ");
            message.append(reason.as_str());
            return Err(PipewireAudioError(message));
        },
    };
    let mut at: usize = 0;
    while at < sinks.len()
        invariant
            at <= sinks@.len(),
            forall|j: int| 0 <= j < at ==> !(#[trigger] sink_named(default_sink@)(sinks@[j])),
        ensures
            at <= sinks@.len(),
            forall|j: int| 0 <= j < at ==> !(#[trigger] sink_named(default_sink@)(sinks@[j])),
            at < sinks@.len() ==> sink_named(default_sink@)(sinks@[at as int]),
        decreases sinks@.len() - at,
    {
        if str_eq(sinks[at].name.as_str(), default_sink.as_str()) {
            break;
        }
        at = at + 1;
    }
    if at == sinks.len() {
        proof {
            lemma_first_index_is(sinks@, sink_named(default_sink@), -1);
        }
        let mut message = String::from_str("default PipeWire sink is missing: ");
        message.append(default_sink.as_str());
        return Err(PipewireAudioError(message));
    }
    proof {
        lemma_first_index_is(sinks@, sink_named(default_sink@), at as int);
    }
    let sink = &sinks[at];
    if !str_eq(sink.driver.as_str(), "PipeWire") {
        let mut message = String::from_str("default sink is not owned by PipeWire: ");
        message.append(sink.driver.as_str());
        return Err(PipewireAudioError(message));
    }
    if sink.volume.len() == 0 {
        return Err(
            PipewireAudioError(String::from_str("default PipeWire sink has no volume channels")),
        );
    }
    let volume_percent = mean_channel_percent(&sink.volume)?;
    Ok(
        ProviderState::Available {
            value: AudioStatus { volume_percent, muted: sink.mute },
            stale: false,
        },
    )
}

} // verus!
