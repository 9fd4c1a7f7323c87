//! Input-device bookkeeping and capture-parameter rules for the
//! record-then-analyse flow: degraded-input detection, the expected beat
//! count of a clip, the device list shown in the picker, choosing a device by
//! name, and the beat-rate range accepted from the user.

use vstd::prelude::*;

verus! {

/// Effective sample rates at or below this are flagged as degraded (e.g. a
/// Bluetooth hands-free profile), which harms tick-transient capture.
pub const DEGRADED_SAMPLE_RATE_HZ: u32 = 24_000;

/// Lowest beat rate (beats/hour) accepted from the user.
pub const MIN_BPH: u32 = 3600;

/// Highest beat rate (beats/hour) accepted from the user.
pub const MAX_BPH: u32 = 72_000;

/// Whether an effective sample rate is too low for reliable measurement.
pub fn is_degraded(sample_rate: u32) -> (r: bool)
    ensures
        r == (sample_rate <= DEGRADED_SAMPLE_RATE_HZ),
{
    sample_rate <= DEGRADED_SAMPLE_RATE_HZ
}

/// Number of beats a clip of `n_samples` at `sample_rate` should hold at
/// `bph`: the clip duration divided by the nominal beat period `3600 / bph`,
/// i.e. `n_samples * bph / (3600 * sample_rate)`, rounded to the nearest
/// integer with halves rounded up, and capped at `usize::MAX`.
///
/// With `sample_rate == 0` the duration is unbounded: a non-empty clip at a
/// positive beat rate saturates to `usize::MAX`, anything else gives 0.
pub open spec fn expected_beats_spec(n_samples: nat, sample_rate: nat, bph: nat) -> nat {
    if sample_rate == 0 {
        if n_samples > 0 && bph > 0 {
            usize::MAX as nat
        } else {
            0
        }
    } else {
        let q = (2 * n_samples * bph + 3600 * sample_rate) / (7200 * sample_rate);
        if q > usize::MAX {
            usize::MAX as nat
        } else {
            q
        }
    }
}

/// Beats expected for a clip; see [`expected_beats_spec`].
pub fn expected_beats(n_samples: usize, sample_rate: u32, bph: u32) -> (r: usize)
    ensures
        r as nat == expected_beats_spec(n_samples as nat, sample_rate as nat, bph as nat),
{
    if sample_rate == 0 {
        if n_samples > 0 && bph > 0 {
            return usize::MAX;
        } else {
            return 0;
        }
    }
    let n: u128 = n_samples as u128;
    let b: u128 = bph as u128;
    let sr: u128 = sample_rate as u128;
    assert(n * b <= 0xFFFF_FFFF_FFFF_FFFFu128 * 0xFFFF_FFFFu128) by (nonlinear_arith)
        requires
            n <= 0xFFFF_FFFF_FFFF_FFFFu128,
            b <= 0xFFFF_FFFFu128,
    ;
    let num: u128 = 2 * (n * b) + 3600 * sr;
    let den: u128 = 7200 * sr;
    let q: u128 = num / den;
    assert(2 * (n * b) == 2 * n * b) by (nonlinear_arith);
    if q > usize::MAX as u128 {
        usize::MAX
    } else {
        q as usize
    }
}

/// Whether `bph` lies in the accepted beat-rate range.
pub open spec fn bph_in_range(bph: u32) -> bool {
    MIN_BPH <= bph <= MAX_BPH
}

/// The accepted beat rates are exactly 3600 to 72000 beats/hour inclusive:
/// every rate in that range is accepted, every other rate is refused.
pub proof fn lemma_bph_range_exact(bph: u32)
    ensures
        bph_in_range(bph) <==> 3600 <= bph <= 72000,
{
}

/// Check the user-selected beat rate, returning a friendly message when it is
/// outside 3600..=72000 beats/hour.
pub fn validate_beat_rate(bph: u32) -> (r: Result<(), String>)
    ensures
        r is Ok <==> bph_in_range(bph),
        r is Ok <==> 3600 <= bph <= 72000,
        r matches Err(e) ==> e@ == "beat rate (bph) must be between 3600 and 72000"@,
{
    if MIN_BPH <= bph && bph <= MAX_BPH {
        Ok(())
    } else {
        Err(String::from_str("beat rate (bph) must be between 3600 and 72000"))
    }
}

/// An available input device, for the device picker.
pub struct DeviceInfo {
    pub name: String,
    pub is_default: bool,
    pub default_sample_rate: u32,
    pub channels: u16,
}

/// What enumerating one input device yielded: its name, if it could be
/// read, and its default `(sample_rate, channels)`, if the default input
/// configuration could be read.
pub struct InputDeviceProbe {
    pub name: Option<String>,
    pub default_config: Option<(u32, u16)>,
}

/// The picker entry for a device named `name`: it is the default when its
/// name equals the system default input's name, and an unreadable default
/// configuration is shown as rate 0 with 0 channels.
pub open spec fn device_info_of(
    name: String,
    default_config: Option<(u32, u16)>,
    default_name: Option<String>,
) -> DeviceInfo {
    DeviceInfo {
        name: name,
        is_default: default_name matches Some(d) && d@ == name@,
        default_sample_rate: match default_config {
            Some(c) => c.0,
            None => 0,
        },
        channels: match default_config {
            Some(c) => c.1,
            None => 0,
        },
    }
}

/// The picker list for `probes`, in enumeration order, leaving out devices
/// whose name could not be read.
pub open spec fn listed_devices(probes: Seq<InputDeviceProbe>, default_name: Option<String>) -> Seq<
    DeviceInfo,
>
    decreases probes.len(),
{
    if probes.len() == 0 {
        Seq::empty()
    } else {
        let rest = listed_devices(probes.drop_last(), default_name);
        match probes.last().name {
            Some(n) => rest.push(device_info_of(n, probes.last().default_config, default_name)),
            None => rest,
        }
    }
}

/// Build the device-picker list from the enumerated input devices and the
/// name of the system default input.
pub fn list_devices(probes: &Vec<InputDeviceProbe>, default_name: &Option<String>) -> (r: Vec<
    DeviceInfo,
>)
    ensures
        r@ == listed_devices(probes@, *default_name),
{
    let mut out: Vec<DeviceInfo> = Vec::new();
    let mut i: usize = 0;
    while i < probes.len()
        invariant
            i <= probes@.len(),
            out@ == listed_devices(probes@.take(i as int), *default_name),
        decreases probes@.len() - i,
    {
        assert(probes@.take(i + 1).drop_last() =~= probes@.take(i as int));
        let p = &probes[i];
        match &p.name {
            Some(n) => {
                let is_default = match default_name {
                    Some(d) => *d == *n,
                    None => false,
                };
                let (rate, channels) = match p.default_config {
                    Some(c) => c,
                    None => (0u32, 0u16),
                };
                out.push(
                    DeviceInfo {
                        name: n.clone(),
                        is_default,
                        default_sample_rate: rate,
                        channels,
                    },
                );
            },
            None => {},
        }
        i += 1;
    }
    assert(probes@.take(probes@.len() as int) =~= probes@);
    out
}

/// Whether `name` is a readable device name equal to `wanted`.
pub open spec fn names_device(name: Option<String>, wanted: Seq<char>) -> bool {
    name matches Some(n) && n@ == wanted
}

/// Pick the first enumerated input device whose name is `wanted`, returning
/// its position in `names`, or the "input device not found" error.
pub fn select_named_device(names: &Vec<Option<String>>, wanted: &str) -> (r: Result<usize, String>)
    ensures
        r matches Ok(i) ==> i < names@.len() && names_device(names@[i as int], wanted@) && forall|
            j: int,
        |
            0 <= j < i ==> !names_device(#[trigger] names@[j], wanted@),
        r is Err <==> forall|j: int|
            0 <= j < names@.len() ==> !names_device(#[trigger] names@[j], wanted@),
        r matches Err(e) ==> e@ == "input device not found: "@ + wanted@,
{
    let w = String::from_str(wanted);
    let mut i: usize = 0;
    while i < names.len()
        invariant
            i <= names@.len(),
            w@ == wanted@,
            forall|j: int| 0 <= j < i ==> !names_device(#[trigger] names@[j], wanted@),
        decreases names@.len() - i,
    {
        match &names[i] {
            Some(n) => {
                if *n == w {
                    return Ok(i);
                }
            },
            None => {},
        }
        i += 1;
    }
    let mut msg = String::from_str("input device not found: ");
    msg.append(wanted);
    Err(msg)
}

/// The decimal digit character for `d` (0 to 9).
pub open spec fn digit_char(d: nat) -> char {
    (48 + d) as char
}

/// The decimal representation of `n`, most significant digit first, with no
/// leading zeros ("0" for zero).
pub open spec fn decimal(n: nat) -> Seq<char>
    decreases n,
{
    if n < 10 {
        seq![digit_char(n)]
    } else {
        decimal(n / 10) + seq![digit_char(n % 10)]
    }
}

fn digit_str(d: u64) -> (r: &'static str)
    requires
        d < 10,
    ensures
        r@ == seq![digit_char(d as nat)],
{
    match d {
        0 => {
            proof {
                reveal_strlit("0");
            }
            "0"
        },
        1 => {
            proof {
                reveal_strlit("1");
            }
            "1"
        },
        2 => {
            proof {
                reveal_strlit("2");
            }
            "2"
        },
        3 => {
            proof {
                reveal_strlit("3");
            }
            "3"
        },
        4 => {
            proof {
                reveal_strlit("4");
            }
            "4"
        },
        5 => {
            proof {
                reveal_strlit("5");
            }
            "5"
        },
        6 => {
            proof {
                reveal_strlit("6");
            }
            "6"
        },
        7 => {
            proof {
                reveal_strlit("7");
            }
            "7"
        },
        8 => {
            proof {
                reveal_strlit("8");
            }
            "8"
        },
        _ => {
            proof {
                reveal_strlit("9");
            }
            "9"
        },
    }
}

fn push_decimal(s: &mut String, n: u64)
    ensures
        final(s)@ == old(s)@ + decimal(n as nat),
    decreases n,
{
    if n >= 10 {
        push_decimal(s, n / 10);
    }
    s.append(digit_str(n % 10));
}

/// File name of a recording saved at `unix_secs` seconds since the epoch:
/// `timegrapherq-<seconds>.wav`.
pub fn recording_file_name(unix_secs: u64) -> (r: String)
    ensures
        r@ == "timegrapherq-"@ + decimal(unix_secs as nat) + ".wav"@,
{
    let mut name = String::from_str("timegrapherq-");
    push_decimal(&mut name, unix_secs);
    name.append(".wav");
    name
}

/// The expected beat count is the clip's beat count rounded to the nearest
/// integer, halves up: for a positive sample rate, a count `r` below
/// `usize::MAX` satisfies `r - 1/2 <= n_samples * bph / (3600 * sample_rate)
/// < r + 1/2`, and a count of `usize::MAX` means the rounded value is at
/// least that large. Without a sample rate, a non-empty clip at a positive
/// beat rate counts `usize::MAX` beats and anything else counts 0.
pub proof fn lemma_expected_beats_rounding(n_samples: nat, sample_rate: nat, bph: nat)
    ensures
        ({
            let r = expected_beats_spec(n_samples, sample_rate, bph);
            &&& sample_rate > 0 && r < usize::MAX ==> 7200 * sample_rate * r <= 2 * n_samples * bph
                + 3600 * sample_rate < 7200 * sample_rate * (r + 1)
            &&& sample_rate > 0 && r == usize::MAX ==> 7200 * sample_rate * usize::MAX <= 2
                * n_samples * bph + 3600 * sample_rate
            &&& sample_rate == 0 ==> r == (if n_samples > 0 && bph > 0 {
                usize::MAX as nat
            } else {
                0
            })
        }),
{
    if sample_rate > 0 {
        let x: int = (2 * n_samples * bph + 3600 * sample_rate) as int;
        let d: int = (7200 * sample_rate) as int;
        let q: int = x / d;
        assert(d * q <= x < d * (q + 1)) by (nonlinear_arith)
            requires
                d > 0,
                x >= 0,
                q == x / d,
        ;
        let r = expected_beats_spec(n_samples, sample_rate, bph);
        if q > usize::MAX {
            assert(d * usize::MAX <= d * q) by (nonlinear_arith)
                requires
                    d > 0,
                    q > usize::MAX,
            ;
        }
        assert(r < usize::MAX ==> r == q);
    }
}

} // verus!
