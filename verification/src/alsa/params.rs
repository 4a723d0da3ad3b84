//! Negotiation of PCM hardware parameters.
//!
//! Each axis of a constraint set is reduced to one value by a fixed preference:
//!
//! | axis        | unconstrained | preference                                |
//! |-------------|---------------|-------------------------------------------|
//! | sample rate | 48000 Hz      | 48000, then 44100, then the lowest        |
//! | channels    | 2             | 2, then 1, then the lowest                |
//! | format      | `S16Le`       | the first listed                          |
//! | period size | 256 frames    | the smallest in range                     |
//! | buffer size | twice the period | the smallest in range that is at least twice the period |
//!
//! An empty list or an inverted range permits nothing and is an error, as is a period
//! that no 32-bit buffer size holds twice.

use crate::alsa::format::AlsaFormat;
use core::ops::RangeInclusive;
use vstd::prelude::*;

verus! {

/// Period size where none is asked for, in frames.
pub const DEFAULT_PERIOD: u32 = 256;

/// `std::ops::RangeInclusive::start` gives the lower bound of the range. The
/// value is left open for a range that an iteration has used up.
pub assume_specification<Idx>[ RangeInclusive::<Idx>::start ](r: &RangeInclusive<Idx>) -> (s: &Idx)
    ensures
        !r@.exhausted ==> *s == r@.start,
;

/// `std::ops::RangeInclusive::end` gives the upper bound of the range. The
/// value is left open for a range that an iteration has used up.
pub assume_specification<Idx>[ RangeInclusive::<Idx>::end ](r: &RangeInclusive<Idx>) -> (e: &Idx)
    ensures
        !r@.exhausted ==> *e == r@.end,
;

/// What a device permits, axis by axis; `None` is unconstrained.
#[derive(Debug, Clone)]
pub struct HwConstraints {
    /// Permitted sample rates.
    pub rates: Option<Vec<u32>>,
    /// Permitted channel counts.
    pub channels: Option<Vec<u16>>,
    /// Permitted sample formats, best first.
    pub formats: Option<Vec<AlsaFormat>>,
    /// Permitted period sizes.
    pub period_size: Option<RangeInclusive<u32>>,
    /// Permitted buffer sizes.
    pub buffer_size: Option<RangeInclusive<u32>>,
}

impl Default for HwConstraints {
    /// No constraint on any axis.
    fn default() -> (c: Self)
        ensures
            c.rates is None,
            c.channels is None,
            c.formats is None,
            c.period_size is None,
            c.buffer_size is None,
    {
        HwConstraints {
            rates: None,
            channels: None,
            formats: None,
            period_size: None,
            buffer_size: None,
        }
    }
}

impl HwConstraints {
    /// Whether the ranges are whole: none has been used up by an iteration.
    pub open spec fn wf(self) -> bool {
        &&& self.period_size is Some ==> !self.period_size->0@.exhausted
        &&& self.buffer_size is Some ==> !self.buffer_size->0@.exhausted
    }
}

/// A resolved PCM configuration.
#[derive(Debug, Clone, Copy, PartialEq, Eq, Structural)]
pub struct HwParams {
    /// Sample rate in Hz.
    pub sample_rate: u32,
    /// Channel count.
    pub channels: u16,
    /// Sample format.
    pub format: AlsaFormat,
    /// Period size in frames.
    pub period_size: u32,
    /// Buffer size in frames.
    pub buffer_size: u32,
}

/// Errors from [`negotiate`].
#[derive(Debug, Clone, Copy, PartialEq, Eq, Structural)]
pub enum NegotiateError {
    /// No sample rate is permitted.
    NoRate,
    /// No channel count is permitted.
    NoChannels,
    /// No sample format is permitted.
    NoFormat,
    /// No period size is permitted.
    NoPeriod,
    /// No permitted buffer holds two periods.
    BufferTooSmall,
}

impl NegotiateError {
    /// The text of the error.
    pub open spec fn text(self) -> Seq<char> {
        match self {
            NegotiateError::NoRate => "no common sample rate"@,
            NegotiateError::NoChannels => "no common channel count"@,
            NegotiateError::NoFormat => "no common format"@,
            NegotiateError::NoPeriod => "no period size in range"@,
            NegotiateError::BufferTooSmall => "buffer must be >= 2*period"@,
        }
    }

    /// The text of the error.
    pub fn message(&self) -> (s: String)
        ensures
            s@ == self.text(),
    {
        let s = match self {
            NegotiateError::NoRate => "no common sample rate",
            NegotiateError::NoChannels => "no common channel count",
            NegotiateError::NoFormat => "no common format",
            NegotiateError::NoPeriod => "no period size in range",
            NegotiateError::BufferTooSmall => "buffer must be >= 2*period",
        };
        s.to_owned()
    }
}

/// The least number of a list that is not empty.
pub open spec fn least(s: Seq<int>) -> int
    decreases s.len(),
{
    if s.len() <= 1 {
        s[0]
    } else if s.last() < least(s.drop_last()) {
        s.last()
    } else {
        least(s.drop_last())
    }
}

/// The least number of a list is in it, and no other is less.
pub proof fn lemma_least(s: Seq<int>)
    requires
        s.len() > 0,
    ensures
        s.contains(least(s)),
        forall|i: int| 0 <= i < s.len() ==> least(s) <= #[trigger] s[i],
    decreases s.len(),
{
    if s.len() > 1 {
        lemma_least(s.drop_last());
        let k = choose|k: int|
            0 <= k < s.len() - 1 && s.drop_last()[k] == least(s.drop_last());
        assert(s[k] == least(s.drop_last()));
        assert forall|i: int| 0 <= i < s.len() implies least(s) <= #[trigger] s[i] by {
            if i < s.len() - 1 {
                assert(s[i] == s.drop_last()[i]);
            }
        }
    }
}

/// The numbers of a list of rates.
pub open spec fn rate_numbers(s: Seq<u32>) -> Seq<int> {
    s.map_values(|x: u32| x as int)
}

/// The numbers of a list of channel counts.
pub open spec fn channel_numbers(s: Seq<u16>) -> Seq<int> {
    s.map_values(|x: u16| x as int)
}

/// The preferred number of a list: `first`, else `second`, else the least.
pub open spec fn preferred(allowed: Seq<int>, first: int, second: int) -> int {
    if allowed.contains(first) {
        first
    } else if allowed.contains(second) {
        second
    } else {
        least(allowed)
    }
}

/// The sample rate that the policy picks.
pub open spec fn rate_of(rates: Option<Vec<u32>>) -> Result<u32, NegotiateError> {
    match rates {
        None => Ok(48_000),
        Some(v) => if v@.len() == 0 {
            Err(NegotiateError::NoRate)
        } else {
            Ok(preferred(rate_numbers(v@), 48_000, 44_100) as u32)
        },
    }
}

/// The channel count that the policy picks.
pub open spec fn channels_of(channels: Option<Vec<u16>>) -> Result<u16, NegotiateError> {
    match channels {
        None => Ok(2),
        Some(v) => if v@.len() == 0 {
            Err(NegotiateError::NoChannels)
        } else {
            Ok(preferred(channel_numbers(v@), 2, 1) as u16)
        },
    }
}

/// The sample format that the policy picks.
pub open spec fn format_of(formats: Option<Vec<AlsaFormat>>) -> Result<AlsaFormat, NegotiateError> {
    match formats {
        None => Ok(AlsaFormat::S16Le),
        Some(v) => if v@.len() == 0 {
            Err(NegotiateError::NoFormat)
        } else {
            Ok(v@[0])
        },
    }
}

/// The period size that the policy picks.
pub open spec fn period_of(range: Option<RangeInclusive<u32>>) -> Result<u32, NegotiateError> {
    match range {
        None => Ok(DEFAULT_PERIOD),
        Some(r) => if r@.start > r@.end {
            Err(NegotiateError::NoPeriod)
        } else {
            Ok(r@.start)
        },
    }
}

/// The buffer size that the policy picks: the smallest that is permitted and at least
/// `floor`. Where there is no such 32-bit number, none is picked.
pub open spec fn buffer_of(range: Option<RangeInclusive<u32>>, floor: int) -> Result<
    u32,
    NegotiateError,
> {
    match range {
        None => if floor > u32::MAX {
            Err(NegotiateError::BufferTooSmall)
        } else {
            Ok(floor as u32)
        },
        Some(r) => if r@.start > r@.end || r@.end < floor {
            Err(NegotiateError::BufferTooSmall)
        } else if r@.start < floor {
            Ok(floor as u32)
        } else {
            Ok(r@.start)
        },
    }
}

/// The parameters that the policy picks, or the first axis that permits nothing.
pub open spec fn params_of(c: HwConstraints) -> Result<HwParams, NegotiateError> {
    match rate_of(c.rates) {
        Err(e) => Err(e),
        Ok(sample_rate) => match channels_of(c.channels) {
            Err(e) => Err(e),
            Ok(channels) => match format_of(c.formats) {
                Err(e) => Err(e),
                Ok(format) => match period_of(c.period_size) {
                    Err(e) => Err(e),
                    Ok(period_size) => match buffer_of(c.buffer_size, 2 * period_size) {
                        Err(e) => Err(e),
                        Ok(buffer_size) => Ok(
                            HwParams { sample_rate, channels, format, period_size, buffer_size },
                        ),
                    },
                },
            },
        },
    }
}

/// Picks the sample rate: 48000, then 44100, then the lowest.
pub fn pick_rate(rates: &Option<Vec<u32>>) -> (r: Result<u32, NegotiateError>)
    ensures
        r == rate_of(*rates),
{
    match rates {
        None => Ok(48_000),
        Some(v) => {
            if v.len() == 0 {
                return Err(NegotiateError::NoRate);
            }
            let ghost all = rate_numbers(v@);
            let mut first: bool = false;
            let mut second: bool = false;
            let mut low: u32 = v[0];
            let mut i: usize = 0;
            while i < v.len()
                invariant
                    i <= v@.len(),
                    v@.len() > 0,
                    all == rate_numbers(v@),
                    first == all.take(i as int).contains(48_000),
                    second == all.take(i as int).contains(44_100),
                    low == if i == 0 {
                        all[0]
                    } else {
                        least(all.take(i as int))
                    },
                decreases v@.len() - i,
            {
                let x: u32 = v[i];
                proof {
                    let next = all.take(i + 1);
                    assert(next.drop_last() =~= all.take(i as int));
                    assert(next.last() == x);
                    assert(next =~= all.take(i as int).push(x as int));
                    lemma_push_contains(all.take(i as int), x as int, 48_000);
                    lemma_push_contains(all.take(i as int), x as int, 44_100);
                }
                if x == 48_000 {
                    first = true;
                }
                if x == 44_100 {
                    second = true;
                }
                if x < low {
                    low = x;
                }
                i = i + 1;
            }
            proof {
                assert(all.take(i as int) =~= all);
            }
            if first {
                Ok(48_000)
            } else if second {
                Ok(44_100)
            } else {
                Ok(low)
            }
        },
    }
}

proof fn lemma_push_contains(s: Seq<int>, x: int, y: int)
    ensures
        s.push(x).contains(y) == (s.contains(y) || x == y),
{
    let t = s.push(x);
    if s.contains(y) {
        let k = choose|k: int| 0 <= k < s.len() && s[k] == y;
        assert(t[k] == y);
    }
    if x == y {
        assert(t[s.len() as int] == y);
    }
    if t.contains(y) {
        let k = choose|k: int| 0 <= k < t.len() && t[k] == y;
        if k < s.len() {
            assert(s[k] == y);
        }
    }
}

/// Picks the channel count: 2, then 1, then the lowest.
pub fn pick_channels(channels: &Option<Vec<u16>>) -> (r: Result<u16, NegotiateError>)
    ensures
        r == channels_of(*channels),
{
    match channels {
        None => Ok(2),
        Some(v) => {
            if v.len() == 0 {
                return Err(NegotiateError::NoChannels);
            }
            let ghost all = channel_numbers(v@);
            let mut first: bool = false;
            let mut second: bool = false;
            let mut low: u16 = v[0];
            let mut i: usize = 0;
            while i < v.len()
                invariant
                    i <= v@.len(),
                    v@.len() > 0,
                    all == channel_numbers(v@),
                    first == all.take(i as int).contains(2),
                    second == all.take(i as int).contains(1),
                    low == if i == 0 {
                        all[0]
                    } else {
                        least(all.take(i as int))
                    },
                decreases v@.len() - i,
            {
                let x: u16 = v[i];
                proof {
                    let next = all.take(i + 1);
                    assert(next.drop_last() =~= all.take(i as int));
                    assert(next.last() == x);
                    assert(next =~= all.take(i as int).push(x as int));
                    lemma_push_contains(all.take(i as int), x as int, 2);
                    lemma_push_contains(all.take(i as int), x as int, 1);
                }
                if x == 2 {
                    first = true;
                }
                if x == 1 {
                    second = true;
                }
                if x < low {
                    low = x;
                }
                i = i + 1;
            }
            proof {
                assert(all.take(i as int) =~= all);
            }
            if first {
                Ok(2)
            } else if second {
                Ok(1)
            } else {
                Ok(low)
            }
        },
    }
}

/// Picks the sample format: the first listed.
pub fn pick_format(formats: &Option<Vec<AlsaFormat>>) -> (r: Result<AlsaFormat, NegotiateError>)
    ensures
        r == format_of(*formats),
{
    match formats {
        None => Ok(AlsaFormat::S16Le),
        Some(v) => {
            if v.len() == 0 {
                return Err(NegotiateError::NoFormat);
            }
            Ok(v[0])
        },
    }
}

/// Picks the period size: the smallest in range.
pub fn pick_period(range: &Option<RangeInclusive<u32>>) -> (r: Result<u32, NegotiateError>)
    requires
        range is Some ==> !range->0@.exhausted,
    ensures
        r == period_of(*range),
{
    match range {
        None => Ok(DEFAULT_PERIOD),
        Some(r) => {
            if *r.start() > *r.end() {
                return Err(NegotiateError::NoPeriod);
            }
            Ok(*r.start())
        },
    }
}

/// Picks the buffer size: the smallest in range that is at least `two_period`.
pub fn pick_buffer(range: &Option<RangeInclusive<u32>>, two_period: u32) -> (r: Result<
    u32,
    NegotiateError,
>)
    requires
        range is Some ==> !range->0@.exhausted,
    ensures
        r == buffer_of(*range, two_period as int),
{
    match range {
        None => Ok(two_period),
        Some(r) => {
            let start: u32 = *r.start();
            let end: u32 = *r.end();
            if start > end || end < two_period {
                return Err(NegotiateError::BufferTooSmall);
            }
            if start < two_period {
                Ok(two_period)
            } else {
                Ok(start)
            }
        },
    }
}

/// Reduces a constraint set to one configuration.
pub fn negotiate(c: &HwConstraints) -> (r: Result<HwParams, NegotiateError>)
    requires
        c.wf(),
    ensures
        r == params_of(*c),
{
    let sample_rate: u32 = match pick_rate(&c.rates) {
        Ok(v) => v,
        Err(e) => {
            return Err(e);
        },
    };
    let channels: u16 = match pick_channels(&c.channels) {
        Ok(v) => v,
        Err(e) => {
            return Err(e);
        },
    };
    let format = match pick_format(&c.formats) {
        Ok(v) => v,
        Err(e) => {
            return Err(e);
        },
    };
    let period_size: u32 = match pick_period(&c.period_size) {
        Ok(v) => v,
        Err(e) => {
            return Err(e);
        },
    };
    if period_size > u32::MAX / 2 {
        return Err(NegotiateError::BufferTooSmall);
    }
    let buffer_size: u32 = match pick_buffer(&c.buffer_size, 2 * period_size) {
        Ok(v) => v,
        Err(e) => {
            return Err(e);
        },
    };
    Ok(HwParams { sample_rate, channels, format, period_size, buffer_size })
}

/// Whether a configuration is within a constraint set.
pub open spec fn permitted(c: HwConstraints, p: HwParams) -> bool {
    &&& c.rates matches Some(v) ==> v@.contains(p.sample_rate)
    &&& c.channels matches Some(v) ==> v@.contains(p.channels)
    &&& c.formats matches Some(v) ==> v@.contains(p.format)
    &&& c.period_size matches Some(r) ==> r@.start <= p.period_size <= r@.end
    &&& c.buffer_size matches Some(r) ==> r@.start <= p.buffer_size <= r@.end
}

/// A negotiated configuration is one that the constraints permit.
pub proof fn law_negotiated_is_permitted(c: HwConstraints)
    requires
        params_of(c) is Ok,
    ensures
        permitted(c, params_of(c)->Ok_0),
{
    if let Some(v) = c.rates {
        let all = rate_numbers(v@);
        lemma_least(all);
        let x = preferred(all, 48_000, 44_100);
        let k = choose|k: int| 0 <= k < all.len() && all[k] == x;
        assert(all.contains(x));
        assert(v@[k] == x as u32);
    }
    if let Some(v) = c.channels {
        let all = channel_numbers(v@);
        lemma_least(all);
        let x = preferred(all, 2, 1);
        let k = choose|k: int| 0 <= k < all.len() && all[k] == x;
        assert(all.contains(x));
        assert(v@[k] == x as u16);
    }
    if let Some(v) = c.formats {
        assert(v@[0] == params_of(c)->Ok_0.format);
    }
}

/// A negotiated buffer holds two periods.
pub proof fn law_buffer_holds_two_periods(c: HwConstraints)
    requires
        params_of(c) is Ok,
    ensures
        params_of(c)->Ok_0.buffer_size >= 2 * params_of(c)->Ok_0.period_size,
{
}

/// Among the permitted rates 48000 wins, then 44100, then the lowest.
pub proof fn law_rate_preference(rates: Vec<u32>)
    requires
        rates@.len() > 0,
    ensures
        rates@.contains(48_000u32) ==> rate_of(Some(rates)) == Ok::<u32, NegotiateError>(48_000),
        !rates@.contains(48_000u32) && rates@.contains(44_100u32) ==> rate_of(Some(rates)) == Ok::<
            u32,
            NegotiateError,
        >(44_100),
        !rates@.contains(48_000u32) && !rates@.contains(44_100u32) ==> (rate_of(Some(rates)) is Ok
            && rates@.contains(rate_of(Some(rates))->Ok_0) && forall|i: int|
            0 <= i < rates@.len() ==> rate_of(Some(rates))->Ok_0 <= #[trigger] rates@[i]),
{
    let all = rate_numbers(rates@);
    lemma_least(all);
    lemma_same_rates(rates@, 48_000);
    lemma_same_rates(rates@, 44_100);
    let k = choose|k: int| 0 <= k < all.len() && all[k] == least(all);
    assert(rates@[k] == least(all) as u32);
    assert forall|i: int| 0 <= i < rates@.len() implies least(all) <= #[trigger] rates@[i] by {
        assert(all[i] == rates@[i]);
    }
}

proof fn lemma_same_rates(s: Seq<u32>, x: u32)
    ensures
        s.contains(x) == rate_numbers(s).contains(x as int),
{
    let all = rate_numbers(s);
    if s.contains(x) {
        let k = choose|k: int| 0 <= k < s.len() && s[k] == x;
        assert(all[k] == x as int);
    }
    if all.contains(x as int) {
        let k = choose|k: int| 0 <= k < all.len() && all[k] == x as int;
        assert(s[k] == x);
    }
}

/// Of the formats that are permitted the first one listed is picked, and `S16Le` where
/// nothing is said.
pub proof fn law_the_first_listed_format_is_picked(c: HwConstraints)
    requires
        params_of(c) is Ok,
    ensures
        c.formats matches Some(v) ==> v@.len() > 0 && params_of(c)->Ok_0.format == v@[0],
        c.formats is None ==> params_of(c)->Ok_0.format == AlsaFormat::S16Le,
{
}

/// Among the permitted rates 48000 is picked, then 44100, then the lowest; 48000 where
/// nothing is said.
pub proof fn law_the_preferred_rate_is_picked(c: HwConstraints)
    requires
        params_of(c) is Ok,
    ensures
        c.rates is None ==> params_of(c)->Ok_0.sample_rate == 48_000,
        c.rates matches Some(v) ==> {
            let rate = params_of(c)->Ok_0.sample_rate;
            &&& v@.contains(rate)
            &&& v@.contains(48_000u32) ==> rate == 48_000
            &&& !v@.contains(48_000u32) && v@.contains(44_100u32) ==> rate == 44_100
            &&& !v@.contains(48_000u32) && !v@.contains(44_100u32) ==> forall|i: int|
                0 <= i < v@.len() ==> rate <= #[trigger] v@[i]
        },
{
    if let Some(v) = c.rates {
        law_rate_preference(v);
        law_negotiated_is_permitted(c);
    }
}

/// Among the permitted channel counts 2 is picked, then 1, then the lowest; 2 where
/// nothing is said.
pub proof fn law_the_preferred_channel_count_is_picked(c: HwConstraints)
    requires
        params_of(c) is Ok,
    ensures
        c.channels is None ==> params_of(c)->Ok_0.channels == 2,
        c.channels matches Some(v) ==> {
            let n = params_of(c)->Ok_0.channels;
            &&& v@.contains(n)
            &&& v@.contains(2u16) ==> n == 2
            &&& !v@.contains(2u16) && v@.contains(1u16) ==> n == 1
            &&& !v@.contains(2u16) && !v@.contains(1u16) ==> forall|i: int|
                0 <= i < v@.len() ==> n <= #[trigger] v@[i]
        },
{
    if let Some(v) = c.channels {
        law_negotiated_is_permitted(c);
        let all = channel_numbers(v@);
        lemma_least(all);
        lemma_same_counts(v@, 2);
        lemma_same_counts(v@, 1);
        assert forall|i: int| 0 <= i < v@.len() implies least(all) <= #[trigger] v@[i] by {
            assert(all[i] == v@[i]);
        }
    }
}

proof fn lemma_same_counts(s: Seq<u16>, x: u16)
    ensures
        s.contains(x) == channel_numbers(s).contains(x as int),
{
    let all = channel_numbers(s);
    if s.contains(x) {
        let k = choose|k: int| 0 <= k < s.len() && s[k] == x;
        assert(all[k] == x as int);
    }
    if all.contains(x as int) {
        let k = choose|k: int| 0 <= k < all.len() && all[k] == x as int;
        assert(s[k] == x);
    }
}

/// The period is the smallest that is permitted, and 256 frames where nothing is said.
/// The buffer is the smallest that is permitted and holds two periods, and exactly two
/// periods where nothing is said.
pub proof fn law_the_smallest_sizes_are_picked(c: HwConstraints, other: u32)
    requires
        params_of(c) is Ok,
    ensures
        ({
            let p = params_of(c)->Ok_0;
            &&& c.period_size is None ==> p.period_size == 256
            &&& c.period_size matches Some(r) ==> {
                &&& r@.start <= p.period_size <= r@.end
                &&& r@.start <= other <= r@.end ==> p.period_size <= other
            }
            &&& p.buffer_size >= 2 * p.period_size
            &&& c.buffer_size is None ==> p.buffer_size == 2 * p.period_size
            &&& c.buffer_size matches Some(r) ==> {
                &&& r@.start <= p.buffer_size <= r@.end
                &&& r@.start <= other <= r@.end && other >= 2 * p.period_size ==> p.buffer_size
                    <= other
            }
        }),
{
}

/// Whether an axis permits nothing at all.
pub open spec fn permits_nothing<T>(allowed: Option<Vec<T>>) -> bool {
    allowed matches Some(v) && v@.len() == 0
}

/// A negotiation fails for want of a rate, a channel count, a format or a period exactly
/// where that axis permits nothing, and what is reported is the first such axis.
pub proof fn law_the_first_empty_axis_is_reported(c: HwConstraints)
    ensures
        ({
            let no_rate = permits_nothing(c.rates);
            let no_channels = permits_nothing(c.channels);
            let no_format = permits_nothing(c.formats);
            let no_period = c.period_size matches Some(r) && r@.start > r@.end;
            let outcome = params_of(c);
            &&& no_rate ==> outcome == Err::<HwParams, NegotiateError>(NegotiateError::NoRate)
            &&& !no_rate && no_channels ==> outcome == Err::<HwParams, NegotiateError>(
                NegotiateError::NoChannels,
            )
            &&& !no_rate && !no_channels && no_format ==> outcome == Err::<
                HwParams,
                NegotiateError,
            >(NegotiateError::NoFormat)
            &&& !no_rate && !no_channels && !no_format && no_period ==> outcome == Err::<
                HwParams,
                NegotiateError,
            >(NegotiateError::NoPeriod)
            &&& !no_rate && !no_channels && !no_format && !no_period ==> outcome is Ok || outcome
                == Err::<HwParams, NegotiateError>(NegotiateError::BufferTooSmall)
        }),
{
}

/// Where every axis permits something, a negotiation succeeds as soon as one buffer size
/// that is permitted holds two of the smallest periods.
pub proof fn law_a_fitting_buffer_is_found(c: HwConstraints, size: u32)
    requires
        !permits_nothing(c.rates),
        !permits_nothing(c.channels),
        !permits_nothing(c.formats),
    ensures
        ({
            let smallest: u32 = match c.period_size {
                Some(r) => r@.start,
                None => 256,
            };
            let has_period = c.period_size matches Some(r) ==> r@.start <= r@.end;
            let is_permitted = c.buffer_size matches Some(r) ==> r@.start <= size <= r@.end;
            has_period && is_permitted && size >= 2 * smallest ==> params_of(c) is Ok
        }),
{
}

/// Each axis is settled for itself: what is negotiated on one axis is what that axis alone
/// gives, and the buffer depends on the period and on nothing else.
pub proof fn law_the_axes_are_independent(c: HwConstraints, other: HwConstraints)
    requires
        params_of(c) is Ok,
        params_of(other) is Ok,
    ensures
        c.rates == other.rates ==> params_of(c)->Ok_0.sample_rate == params_of(
            other,
        )->Ok_0.sample_rate,
        c.channels == other.channels ==> params_of(c)->Ok_0.channels == params_of(
            other,
        )->Ok_0.channels,
        c.formats == other.formats ==> params_of(c)->Ok_0.format == params_of(other)->Ok_0.format,
        c.period_size == other.period_size ==> params_of(c)->Ok_0.period_size == params_of(
            other,
        )->Ok_0.period_size,
        c.period_size == other.period_size && c.buffer_size == other.buffer_size ==> params_of(
            c,
        )->Ok_0.buffer_size == params_of(other)->Ok_0.buffer_size,
{
}

/// What a negotiation settles on one axis is what picking on that axis alone gives.
pub proof fn law_negotiation_picks_on_each_axis(c: HwConstraints)
    requires
        params_of(c) is Ok,
    ensures
        rate_of(c.rates) == Ok::<u32, NegotiateError>(params_of(c)->Ok_0.sample_rate),
        channels_of(c.channels) == Ok::<u16, NegotiateError>(params_of(c)->Ok_0.channels),
        format_of(c.formats) == Ok::<AlsaFormat, NegotiateError>(params_of(c)->Ok_0.format),
        period_of(c.period_size) == Ok::<u32, NegotiateError>(params_of(c)->Ok_0.period_size),
        buffer_of(c.buffer_size, 2 * params_of(c)->Ok_0.period_size) == Ok::<u32, NegotiateError>(
            params_of(c)->Ok_0.buffer_size,
        ),
{
}

/// Picking on an axis fails exactly where the axis permits nothing. A format is the first
/// that is listed, and a period the smallest.
pub proof fn law_what_is_picked_alone(
    rates: Option<Vec<u32>>,
    channels: Option<Vec<u16>>,
    formats: Option<Vec<AlsaFormat>>,
    period: Option<RangeInclusive<u32>>,
)
    ensures
        rate_of(rates) is Err <==> permits_nothing(rates),
        channels_of(channels) is Err <==> permits_nothing(channels),
        format_of(formats) is Err <==> permits_nothing(formats),
        formats matches Some(v) ==> (v@.len() > 0 ==> format_of(formats) == Ok::<
            AlsaFormat,
            NegotiateError,
        >(v@[0])),
        period_of(period) is Err <==> (period matches Some(r) && r@.start > r@.end),
        period matches Some(r) ==> (r@.start <= r@.end ==> period_of(period) == Ok::<
            u32,
            NegotiateError,
        >(r@.start)),
{
}

/// A buffer is picked wherever the range permits a size that is not below the floor, and no
/// such size is smaller.
pub proof fn law_the_smallest_fitting_buffer(
    range: Option<RangeInclusive<u32>>,
    floor: int,
    size: u32,
)
    requires
        0 <= floor,
        range matches Some(r) ==> r@.start <= size <= r@.end,
        floor <= size,
    ensures
        buffer_of(range, floor) matches Ok(picked) && floor <= picked <= size && (
        range matches Some(r) ==> r@.start <= picked <= r@.end),
{
}

} // verus!
