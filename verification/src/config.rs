//! Choosing an input stream configuration for voice capture.
//!
//! The device reports supported configurations as channel counts with
//! a sample-rate range. Selection prefers, in order: a mono
//! configuration whose range holds the target rate exactly, any
//! configuration whose range holds it, the mono configuration whose
//! clamped rate comes numerically closest, and finally the device's
//! own default configuration.

use vstd::prelude::*;
use crate::errors::RecorderError;

verus! {

/// The rate a voice pipeline wants when the caller does not say.
pub const DEFAULT_TARGET_RATE: u32 = 16000;

/// One supported input configuration: a channel count and the closed
/// sample-rate range it supports.
#[derive(Clone, Copy, Debug, PartialEq, Eq, Structural)]
pub struct ConfigRange {
    pub channels: u16,
    pub min_rate: u32,
    pub max_rate: u32,
}

/// What selection decided.
#[derive(Clone, Copy, Debug, PartialEq, Eq, Structural)]
pub enum ConfigChoice {
    /// Open configuration `index` at `rate`.
    Selected { index: usize, rate: u32 },
    /// No configuration fit: fall back to the device's reported
    /// default configuration.
    UseDefault,
}

/// The range holds the target rate.
pub open spec fn cfg_in_range(c: ConfigRange, t: u32) -> bool {
    c.min_rate <= t <= c.max_rate
}

/// The target clamped into the range.
pub open spec fn clamp_rate(c: ConfigRange, t: u32) -> u32 {
    if t < c.min_rate {
        c.min_rate
    } else if t > c.max_rate {
        c.max_rate
    } else {
        t
    }
}

/// How far the clamped rate sits from the target.
pub open spec fn rate_diff(c: ConfigRange, t: u32) -> int {
    if t < c.min_rate {
        c.min_rate - t
    } else if t > c.max_rate {
        t - c.max_rate
    } else {
        0int
    }
}

/// The first index whose configuration is mono and holds the target.
pub open spec fn first_mono_in_range(cfgs: Seq<ConfigRange>, t: u32) -> Option<int>
    decreases cfgs.len(),
{
    if cfgs.len() == 0 {
        Option::None
    } else if cfgs[0].channels == 1 && cfg_in_range(cfgs[0], t) {
        Option::Some(0int)
    } else {
        match first_mono_in_range(cfgs.drop_first(), t) {
            Option::Some(i) => Option::Some(i + 1),
            Option::None => Option::None,
        }
    }
}

/// The first index whose configuration holds the target, any channel
/// count.
pub open spec fn first_in_range(cfgs: Seq<ConfigRange>, t: u32) -> Option<int>
    decreases cfgs.len(),
{
    if cfgs.len() == 0 {
        Option::None
    } else if cfg_in_range(cfgs[0], t) {
        Option::Some(0int)
    } else {
        match first_in_range(cfgs.drop_first(), t) {
            Option::Some(i) => Option::Some(i + 1),
            Option::None => Option::None,
        }
    }
}

/// Index `i` is the first mono configuration of minimal clamped-rate
/// distance from the target.
pub open spec fn is_best_mono(cfgs: Seq<ConfigRange>, t: u32, i: int) -> bool {
    &&& 0 <= i < cfgs.len()
    &&& cfgs[i].channels == 1
    &&& forall|j: int|
        0 <= j < cfgs.len() && (#[trigger] cfgs[j]).channels == 1 ==> rate_diff(cfgs[i], t)
            <= rate_diff(cfgs[j], t)
    &&& forall|j: int|
        0 <= j < i && (#[trigger] cfgs[j]).channels == 1 ==> rate_diff(cfgs[j], t) > rate_diff(
            cfgs[i],
            t,
        )
}

/// Select the configuration for voice capture, by the preference
/// order this module describes. With no configurations at all the
/// device is unusable; with no fitting one the device default is the
/// answer.
pub fn select_config(configs: &Vec<ConfigRange>, preferred_rate: Option<u32>) -> (r: Result<
    ConfigChoice,
    RecorderError,
>)
    ensures
        ({
            let t = match preferred_rate {
                Option::Some(p) => p,
                Option::None => DEFAULT_TARGET_RATE,
            };
            match r {
                Result::Err(e) => e == RecorderError::NoSupportedConfiguration && configs@.len()
                    == 0,
                Result::Ok(choice) => {
                    &&& configs@.len() > 0
                    &&& match first_mono_in_range(configs@, t) {
                        Option::Some(i) => (choice matches ConfigChoice::Selected { index, rate }
                            && index == i && rate == t),
                        Option::None => match first_in_range(configs@, t) {
                            Option::Some(i) => (choice matches ConfigChoice::Selected {
                                index,
                                rate,
                            } && index == i && rate == t),
                            Option::None => match choice {
                                ConfigChoice::Selected { index, rate } => is_best_mono(
                                    configs@,
                                    t,
                                    index as int,
                                ) && rate == clamp_rate(configs@[index as int], t),
                                ConfigChoice::UseDefault => forall|j: int|
                                    0 <= j < configs@.len() ==> (#[trigger] configs@[j]).channels
                                        != 1,
                            },
                        },
                    }
                },
            }
        }),
{
    let t: u32 = match preferred_rate {
        Option::Some(p) => p,
        Option::None => DEFAULT_TARGET_RATE,
    };
    let n: usize = configs.len();
    if n == 0 {
        return Result::Err(RecorderError::NoSupportedConfiguration);
    }
    // first rule: a mono configuration holding the target exactly
    let mut i: usize = 0;
    proof {
        assert(configs@.skip(0int) =~= configs@);
    }
    while i < n
        invariant
            t == (match preferred_rate {
                Option::Some(p) => p,
                Option::None => DEFAULT_TARGET_RATE,
            }),
            i <= n,
            n == configs@.len(),
            first_mono_in_range(configs@, t) == match first_mono_in_range(
                configs@.skip(i as int),
                t,
            ) {
                Option::Some(k) => Option::Some(k + i),
                Option::None => Option::None,
            },
        decreases n - i,
    {
        proof {
            assert(configs@.skip(i as int).len() > 0);
            assert(configs@.skip(i as int)[0] == configs@[i as int]);
            assert(configs@.skip(i as int).drop_first() =~= configs@.skip(i + 1));
        }
        let c = configs[i];
        if c.channels == 1 && c.min_rate <= t && t <= c.max_rate {
            proof {
                reveal_with_fuel(first_mono_in_range, 2);
                assert(first_mono_in_range(configs@.skip(i as int), t) == Option::Some(0int));
                assert(first_mono_in_range(configs@, t) == Option::Some(i as int));
            }
            return Result::Ok(ConfigChoice::Selected { index: i, rate: t });
        }
        proof {
            reveal_with_fuel(first_mono_in_range, 2);
        }
        i = i + 1;
    }
    proof {
        assert(configs@.skip(n as int).len() == 0);
    }
    // second rule: any configuration holding the target exactly
    let mut i2: usize = 0;
    proof {
        assert(configs@.skip(0int) =~= configs@);
    }
    while i2 < n
        invariant
            t == (match preferred_rate {
                Option::Some(p) => p,
                Option::None => DEFAULT_TARGET_RATE,
            }),
            i2 <= n,
            n == configs@.len(),
            first_mono_in_range(configs@, t) is None,
            first_in_range(configs@, t) == match first_in_range(configs@.skip(i2 as int), t) {
                Option::Some(k) => Option::Some(k + i2),
                Option::None => Option::None,
            },
        decreases n - i2,
    {
        proof {
            assert(configs@.skip(i2 as int).len() > 0);
            assert(configs@.skip(i2 as int)[0] == configs@[i2 as int]);
            assert(configs@.skip(i2 as int).drop_first() =~= configs@.skip(i2 + 1));
        }
        let c = configs[i2];
        if c.min_rate <= t && t <= c.max_rate {
            proof {
                reveal_with_fuel(first_in_range, 2);
                assert(first_in_range(configs@.skip(i2 as int), t) == Option::Some(0int));
                assert(first_in_range(configs@, t) == Option::Some(i2 as int));
            }
            return Result::Ok(ConfigChoice::Selected { index: i2, rate: t });
        }
        proof {
            reveal_with_fuel(first_in_range, 2);
        }
        i2 = i2 + 1;
    }
    proof {
        assert(configs@.skip(n as int).len() == 0);
    }
    // third rule: the mono configuration closest to the target after
    // clamping; the first one wins ties
    let mut best: Option<(usize, u32, u32)> = Option::None;
    let mut k: usize = 0;
    while k < n
        invariant
            t == (match preferred_rate {
                Option::Some(p) => p,
                Option::None => DEFAULT_TARGET_RATE,
            }),
            k <= n,
            n == configs@.len(),
            first_mono_in_range(configs@, t) is None,
            first_in_range(configs@, t) is None,
            match best {
                Option::None => forall|j: int|
                    0 <= j < k ==> (#[trigger] configs@[j]).channels != 1,
                Option::Some((bi, br, bd)) => {
                    &&& bi < k <= n
                    &&& configs@[bi as int].channels == 1
                    &&& br == clamp_rate(configs@[bi as int], t)
                    &&& bd == rate_diff(configs@[bi as int], t)
                    &&& forall|j: int|
                        0 <= j < k && (#[trigger] configs@[j]).channels == 1 ==> bd
                            <= rate_diff(configs@[j], t)
                    &&& forall|j: int|
                        0 <= j < bi && (#[trigger] configs@[j]).channels == 1 ==> rate_diff(
                            configs@[j],
                            t,
                        ) > bd
                },
            },
        decreases n - k,
    {
        let c = configs[k];
        if c.channels == 1 {
            let clamped: u32 = if t < c.min_rate {
                c.min_rate
            } else if t > c.max_rate {
                c.max_rate
            } else {
                t
            };
            let diff: u32 = if clamped >= t {
                clamped - t
            } else {
                t - clamped
            };
            proof {
                assert(diff == rate_diff(configs@[k as int], t));
            }
            let take_it: bool = match best {
                Option::None => true,
                Option::Some((_bi, _br, bd)) => diff < bd,
            };
            if take_it {
                best = Option::Some((k, clamped, diff));
            }
        }
        k = k + 1;
    }
    match best {
        Option::Some((bi, br, _bd)) => Result::Ok(ConfigChoice::Selected { index: bi, rate: br }),
        Option::None => Result::Ok(ConfigChoice::UseDefault),
    }
}

} // verus!
