//! Decisions on the settings that the environment gives.
//!
//! A setting that is absent, or that is not set to valid text, is `None`.
use crate::text::parse_text;
use crate::text::parse_unsigned;
use vstd::prelude::*;

verus! {

/// The endpoint that is used when none is set.
pub const DEFAULT_RPC_URL: &'static str = "https://ethereum-rpc.publicnode.com";

/// Seconds between two rounds when nothing is set.
pub const DEFAULT_PAUSE_SECS: u64 = 5;

/// Seconds to wait for a receipt when nothing is set.
pub const DEFAULT_CONFIRMATION_TIMEOUT_SECS: u64 = 90;

/// How far mining depends on a graphics device.
#[derive(Clone, Copy, Debug, PartialEq, Eq, Structural)]
pub enum GpuMode {
    /// A device has to work.
    Required,
    /// A device is used if one works.
    Optional,
    /// No device is used.
    Disabled,
}

/// What came of the attempt to use a device.
#[derive(Clone, Copy, Debug, PartialEq, Eq, Structural)]
pub enum GpuOutcome {
    /// The program has no device support.
    NotBuilt,
    /// No device could be set up.
    InitFailed,
    /// The device computes wrong hashes.
    SelfTestFailed,
    /// The device works.
    Ready,
}

/// What mines.
#[derive(Clone, Copy, Debug, PartialEq, Eq, Structural)]
pub enum Backend {
    Cpu,
    Gpu,
}

/// Why the program gives up before it mines.
#[derive(Clone, Copy, Debug, PartialEq, Eq, Structural)]
pub enum GpuFailure {
    /// A required device could not be set up.
    InitFailed,
    /// The device computes wrong hashes.
    SelfTestFailed,
}

/// The text of a setting, if it is there.
pub open spec fn setting_text(value: Option<String>) -> Option<Seq<char>> {
    match value {
        Some(text) => Some(text@),
        None => None,
    }
}

/// The number that a setting denotes, if it is there and denotes one.
pub open spec fn setting_number(value: Option<String>, max: nat) -> Option<nat> {
    match value {
        Some(text) => parse_text(text@, max),
        None => None,
    }
}

/// The mode that a text asks for.
pub open spec fn gpu_mode_of(text: Seq<char>) -> GpuMode {
    if text == "1"@ || text == "true"@ || text == "yes"@ {
        GpuMode::Required
    } else if text == "auto"@ {
        GpuMode::Optional
    } else {
        GpuMode::Disabled
    }
}

/// The number that a setting denotes, if any.
pub fn optional_u64(value: &Option<String>) -> (r: Option<u64>)
    ensures
        match r {
            Some(number) => setting_number(*value, u64::MAX as nat) == Some(number as nat),
            None => setting_number(*value, u64::MAX as nat) is None,
        },
        match *value {
            Some(text) => match r {
                Some(number) => parse_text(text@, u64::MAX as nat) == Some(number as nat),
                None => parse_text(text@, u64::MAX as nat) is None,
            },
            None => r is None,
        },
{
    match value {
        Some(text) => parse_unsigned(text.as_str(), u64::MAX),
        None => None,
    }
}

/// The machine-sized number that a setting denotes, if any.
pub fn optional_usize(value: &Option<String>) -> (r: Option<usize>)
    ensures
        match r {
            Some(number) => setting_number(*value, usize::MAX as nat) == Some(number as nat),
            None => setting_number(*value, usize::MAX as nat) is None,
        },
        match *value {
            Some(text) => match r {
                Some(number) => parse_text(text@, usize::MAX as nat) == Some(number as nat),
                None => parse_text(text@, usize::MAX as nat) is None,
            },
            None => r is None,
        },
{
    match value {
        Some(text) => match parse_unsigned(text.as_str(), usize::MAX as u64) {
            Some(number) => Some(number as usize),
            None => None,
        },
        None => None,
    }
}

/// The number that a setting denotes, or a default.
pub fn u64_or(value: &Option<String>, default: u64) -> (r: u64)
    ensures
        match setting_number(*value, u64::MAX as nat) {
            Some(number) => r == number,
            None => r == default,
        },
        match *value {
            Some(text) => match parse_text(text@, u64::MAX as nat) {
                Some(number) => r == number,
                None => r == default,
            },
            None => r == default,
        },
{
    match optional_u64(value) {
        Some(number) => number,
        None => default,
    }
}

/// The number of mining threads: what is set, or else one for each processor.
pub fn thread_count(value: &Option<String>, processors: usize) -> (r: usize)
    ensures
        match setting_number(*value, usize::MAX as nat) {
            Some(number) => r == number,
            None => r == processors,
        },
        match *value {
            Some(text) => match parse_text(text@, usize::MAX as nat) {
                Some(number) => r == number,
                None => r == processors,
            },
            None => r == processors,
        },
{
    match optional_usize(value) {
        Some(number) => number,
        None => processors,
    }
}

/// The endpoint: the specific setting goes before the general one, and that
/// before the default.
pub fn rpc_url(eth_rpc: &Option<String>, general: &Option<String>) -> (r: String)
    ensures
        match (setting_text(*eth_rpc), setting_text(*general)) {
            (Some(url), _) => r@ == url,
            (None, Some(url)) => r@ == url,
            (None, None) => r@ == DEFAULT_RPC_URL@,
        },
        match (*eth_rpc, *general) {
            (Some(url), _) => r@ == url@,
            (None, Some(url)) => r@ == url@,
            (None, None) => r@ == "https://ethereum-rpc.publicnode.com"@,
        },
{
    match eth_rpc {
        Some(url) => url.clone(),
        None => match general {
            Some(url) => url.clone(),
            None => DEFAULT_RPC_URL.to_owned(),
        },
    }
}

/// Whether two texts are equal.
fn same_text(a: &str, b: &str) -> (r: bool)
    ensures
        r == (a@ == b@),
{
    a.to_owned() == b.to_owned()
}

/// The mode that is asked for. A device is required when nothing is set.
pub fn gpu_mode(value: &Option<String>) -> (r: GpuMode)
    ensures
        match setting_text(*value) {
            Some(text) => r == gpu_mode_of(text),
            None => r == GpuMode::Required,
        },
        match *value {
            None => r == GpuMode::Required,
            Some(text) => {
                &&& r == GpuMode::Required <==> text@ == "1"@ || text@ == "true"@ || text@
                    == "yes"@
                &&& r == GpuMode::Optional <==> text@ == "auto"@
            },
        },
{
    match value {
        None => GpuMode::Required,
        Some(text) => {
            let text = text.as_str();
            proof {
                reveal_strlit("1");
                reveal_strlit("true");
                reveal_strlit("yes");
                reveal_strlit("auto");
                assert("true"@[0] != "auto"@[0]);
            }
            if same_text(text, "1") || same_text(text, "true") || same_text(text, "yes") {
                GpuMode::Required
            } else if same_text(text, "auto") {
                GpuMode::Optional
            } else {
                GpuMode::Disabled
            }
        },
    }
}

/// Whether a device is to be tried.
pub fn gpu_enabled(mode: GpuMode) -> (r: bool)
    ensures
        r == (mode != GpuMode::Disabled),
{
    mode != GpuMode::Disabled
}

/// What mines, given what came of the device. A device that computes wrong
/// hashes is never accepted and never passed over; one that cannot be set up
/// is passed over unless it is required.
pub fn choose_backend(mode: GpuMode, outcome: GpuOutcome) -> (r: Result<Backend, GpuFailure>)
    ensures
        r == Ok::<Backend, GpuFailure>(Backend::Gpu) <==> mode != GpuMode::Disabled && outcome
            == GpuOutcome::Ready,
        r == Err::<Backend, GpuFailure>(GpuFailure::SelfTestFailed) <==> mode != GpuMode::Disabled
            && outcome == GpuOutcome::SelfTestFailed,
        r == Err::<Backend, GpuFailure>(GpuFailure::InitFailed) <==> mode == GpuMode::Required
            && outcome == GpuOutcome::InitFailed,
        r == Ok::<Backend, GpuFailure>(Backend::Cpu) <==> mode == GpuMode::Disabled || outcome
            == GpuOutcome::NotBuilt || (mode == GpuMode::Optional && outcome
            == GpuOutcome::InitFailed),
{
    if mode == GpuMode::Disabled {
        return Ok(Backend::Cpu);
    }
    match outcome {
        GpuOutcome::NotBuilt => Ok(Backend::Cpu),
        GpuOutcome::InitFailed => if mode == GpuMode::Required {
            Err(GpuFailure::InitFailed)
        } else {
            Ok(Backend::Cpu)
        },
        GpuOutcome::SelfTestFailed => Err(GpuFailure::SelfTestFailed),
        GpuOutcome::Ready => Ok(Backend::Gpu),
    }
}

/// The text of a setting that is there is the whole text, whatever it is.
pub proof fn law_setting_is_whole_text(value: Option<String>)
    ensures
        setting_text(value) is Some <==> value is Some,
        value matches Some(text) ==> setting_text(value) == Some(text@),
{
}

/// A setting denotes the number that its whole text denotes, and none if it is
/// not there.
pub proof fn law_setting_denotes_its_text(value: Option<String>, max: nat)
    ensures
        value is None ==> setting_number(value, max) is None,
        value matches Some(text) ==> setting_number(value, max) == parse_text(text@, max),
{
}

/// A device is required by `1`, `true` and `yes`, preferred by `auto`, and not
/// used for any other text.
pub proof fn law_gpu_words(text: Seq<char>)
    ensures
        gpu_mode_of(text) == GpuMode::Required <==> text == seq!['1'] || text == seq![
            't',
            'r',
            'u',
            'e',
        ] || text == seq!['y', 'e', 's'],
        gpu_mode_of(text) == GpuMode::Optional <==> text == seq!['a', 'u', 't', 'o'],
{
    reveal_strlit("1");
    reveal_strlit("true");
    reveal_strlit("yes");
    reveal_strlit("auto");
    assert("1"@ =~= seq!['1']);
    assert("true"@ =~= seq!['t', 'r', 'u', 'e']);
    assert("yes"@ =~= seq!['y', 'e', 's']);
    assert("auto"@ =~= seq!['a', 'u', 't', 'o']);
    assert(seq!['1'].len() == 1);
    assert(seq!['y', 'e', 's'].len() == 3);
    assert(seq!['t', 'r', 'u', 'e'][0] == 't');
    assert(seq!['a', 'u', 't', 'o'][0] == 'a');
}

/// What is used when nothing is set: the public endpoint, five seconds between
/// rounds and ninety seconds for a receipt.
pub proof fn law_defaults()
    ensures
        DEFAULT_RPC_URL@ == "https://ethereum-rpc.publicnode.com"@,
        DEFAULT_PAUSE_SECS == 5,
        DEFAULT_CONFIRMATION_TIMEOUT_SECS == 90,
{
}

} // verus!
