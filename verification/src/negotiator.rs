//! Choosing which configurations of a device to try, and in which order.
//!
//! A device declares ranges of configurations. Each range is narrowed to one
//! candidate, the candidates are ordered by preference, and the supervisor then
//! tries them from the most preferred down until a stream opens.

use crate::format::{ConfigRange, SampleFormat, StreamConfig, FALLBACK_RATE, PREFERRED_RATE};
use vstd::prelude::*;

verus! {

impl ConfigRange {
    /// Whether the range offers the sample rate `rate`.
    pub open spec fn offers(self, rate: u32) -> bool {
        self.min_sample_rate <= rate <= self.max_sample_rate
    }

    /// The sample rate at which the range is tried: the preferred rate where
    /// the range offers it, else the fallback rate where it offers that, else
    /// the highest rate of the range.
    pub open spec fn chosen_rate(self) -> u32 {
        if self.offers(PREFERRED_RATE) {
            PREFERRED_RATE
        } else if self.offers(FALLBACK_RATE) {
            FALLBACK_RATE
        } else {
            self.max_sample_rate
        }
    }

    /// The one configuration of the range that is tried.
    pub open spec fn candidate(self) -> StreamConfig {
        StreamConfig {
            channels: self.channels,
            sample_rate: self.chosen_rate(),
            sample_format: self.sample_format,
        }
    }

    /// Narrows the range to the configuration that is tried for it.
    pub fn clamp(&self) -> (config: StreamConfig)
        ensures
            config == self.candidate(),
    {
        let sample_rate: u32 = if self.min_sample_rate <= PREFERRED_RATE && PREFERRED_RATE
            <= self.max_sample_rate {
            PREFERRED_RATE
        } else if self.min_sample_rate <= FALLBACK_RATE && FALLBACK_RATE <= self.max_sample_rate {
            FALLBACK_RATE
        } else {
            self.max_sample_rate
        };
        StreamConfig { channels: self.channels, sample_rate, sample_format: self.sample_format }
    }
}

/// What the preference between two configurations is decided by. Keys are
/// compared field by field in the order of declaration, `false` before `true`,
/// and the greater key belongs to the configuration that is preferred.
pub struct PreferenceKey {
    pub preferred_rate: bool,
    pub fallback_rate: bool,
    pub stereo: bool,
    pub mono: bool,
    pub signed_16: bool,
    pub sample_rate: u32,
}

impl StreamConfig {
    /// The key by which this configuration is ranked.
    pub open spec fn key(self) -> PreferenceKey {
        PreferenceKey {
            preferred_rate: self.sample_rate == PREFERRED_RATE,
            fallback_rate: self.sample_rate == FALLBACK_RATE,
            stereo: self.channels == 2,
            mono: self.channels == 1,
            signed_16: self.sample_format == SampleFormat::I16,
            sample_rate: self.sample_rate,
        }
    }

    /// Computes [`StreamConfig::key`].
    pub fn preference_key(&self) -> (key: PreferenceKey)
        ensures
            key == self.key(),
    {
        PreferenceKey {
            preferred_rate: self.sample_rate == PREFERRED_RATE,
            fallback_rate: self.sample_rate == FALLBACK_RATE,
            stereo: self.channels == 2,
            mono: self.channels == 1,
            signed_16: match self.sample_format {
                SampleFormat::I16 => true,
                _ => false,
            },
            sample_rate: self.sample_rate,
        }
    }
}

impl PreferenceKey {
    /// Whether `self` comes strictly before `other` in the lexicographic order
    /// of keys.
    pub open spec fn below(self, other: PreferenceKey) -> bool {
        if self.preferred_rate != other.preferred_rate {
            other.preferred_rate
        } else if self.fallback_rate != other.fallback_rate {
            other.fallback_rate
        } else if self.stereo != other.stereo {
            other.stereo
        } else if self.mono != other.mono {
            other.mono
        } else if self.signed_16 != other.signed_16 {
            other.signed_16
        } else {
            self.sample_rate < other.sample_rate
        }
    }

    /// Decides [`PreferenceKey::below`].
    pub fn is_below(&self, other: &PreferenceKey) -> (below: bool)
        ensures
            below == self.below(*other),
    {
        if self.preferred_rate != other.preferred_rate {
            other.preferred_rate
        } else if self.fallback_rate != other.fallback_rate {
            other.fallback_rate
        } else if self.stereo != other.stereo {
            other.stereo
        } else if self.mono != other.mono {
            other.mono
        } else if self.signed_16 != other.signed_16 {
            other.signed_16
        } else {
            self.sample_rate < other.sample_rate
        }
    }
}

/// Whether `a` is strictly less preferred than `b`.
pub open spec fn less_preferred(a: StreamConfig, b: StreamConfig) -> bool {
    a.key().below(b.key())
}

/// Decides [`less_preferred`].
pub fn is_less_preferred(a: &StreamConfig, b: &StreamConfig) -> (less: bool)
    ensures
        less == less_preferred(*a, *b),
{
    a.preference_key().is_below(&b.preference_key())
}

/// Whether no configuration of `configs` stands before one that is less
/// preferred: the most preferred ones are at the end.
pub open spec fn ascending(configs: Seq<StreamConfig>) -> bool {
    forall|i: int, j: int|
        0 <= i < j < configs.len() ==> !less_preferred(
            #[trigger] configs[j],
            #[trigger] configs[i],
        )
}

/// The candidates of `ranges`, one for each range, in the order of the ranges.
pub open spec fn candidates(ranges: Seq<ConfigRange>) -> Seq<StreamConfig> {
    Seq::new(ranges.len(), |i: int| ranges[i].candidate())
}

/// Where `config` goes into `configs`: behind every leading configuration
/// that it is not less preferred than.
pub open spec fn insertion_point(configs: Seq<StreamConfig>, config: StreamConfig) -> int
    decreases configs.len(),
{
    if configs.len() == 0 || less_preferred(config, configs[0]) {
        0
    } else {
        1 + insertion_point(configs.drop_first(), config)
    }
}

/// `configs` in ascending order of preference. Configurations between which
/// the key does not decide keep the order they came in.
pub open spec fn sorted(configs: Seq<StreamConfig>) -> Seq<StreamConfig>
    decreases configs.len(),
{
    if configs.len() == 0 {
        Seq::empty()
    } else {
        let head = sorted(configs.drop_last());
        head.insert(insertion_point(head, configs.last()), configs.last())
    }
}

/// The order in which the candidates of `ranges` are queued: ascending by
/// preference, so that the next one to try is the last.
pub open spec fn ranked(ranges: Seq<ConfigRange>) -> Seq<StreamConfig> {
    sorted(candidates(ranges))
}

/// The insertion point of `config` is the first position that holds a
/// configuration more preferred than `config`.
pub proof fn lemma_insertion_point(configs: Seq<StreamConfig>, config: StreamConfig, at: int)
    requires
        0 <= at <= configs.len(),
        forall|i: int| 0 <= i < at ==> !less_preferred(config, #[trigger] configs[i]),
        at < configs.len() ==> less_preferred(config, configs[at]),
    ensures
        insertion_point(configs, config) == at,
    decreases configs.len(),
{
    if at > 0 {
        let rest = configs.drop_first();
        assert(!less_preferred(config, configs[0]));
        assert forall|i: int| 0 <= i < at - 1 implies !less_preferred(
            config,
            #[trigger] rest[i],
        ) by {
            assert(rest[i] == configs[i + 1]);
        }
        lemma_insertion_point(rest, config, at - 1);
    }
}

/// The insertion point lies within the sequence or at its end, no leading
/// configuration before it is more preferred than `config`, and the one at it
/// is.
pub proof fn lemma_insertion_point_bounds(configs: Seq<StreamConfig>, config: StreamConfig)
    ensures
        0 <= insertion_point(configs, config) <= configs.len(),
        forall|i: int|
            0 <= i < insertion_point(configs, config) ==> !less_preferred(
                config,
                #[trigger] configs[i],
            ),
        insertion_point(configs, config) < configs.len() ==> less_preferred(
            config,
            configs[insertion_point(configs, config)],
        ),
    decreases configs.len(),
{
    if configs.len() == 0 || less_preferred(config, configs[0]) {
    } else {
        let rest = configs.drop_first();
        lemma_insertion_point_bounds(rest, config);
        let at = insertion_point(rest, config);
        assert forall|i: int| 0 <= i < at + 1 implies !less_preferred(
            config,
            #[trigger] configs[i],
        ) by {
            if i > 0 {
                assert(configs[i] == rest[i - 1]);
            }
        }
        if at < rest.len() {
            assert(configs[at + 1] == rest[at]);
        }
    }
}

/// The order of preference is a strict weak order: nothing is less preferred
/// than itself, the relation is transitive, and so is its complement.
pub proof fn lemma_preference_order(a: StreamConfig, b: StreamConfig, c: StreamConfig)
    ensures
        !less_preferred(a, a),
        less_preferred(a, b) ==> !less_preferred(b, a),
        less_preferred(a, b) && less_preferred(b, c) ==> less_preferred(a, c),
        !less_preferred(a, b) && !less_preferred(b, c) ==> !less_preferred(a, c),
{
}

/// Putting a configuration at its insertion point keeps an ascending sequence
/// ascending.
pub proof fn lemma_insert_keeps_ascending(configs: Seq<StreamConfig>, config: StreamConfig)
    requires
        ascending(configs),
    ensures
        ascending(configs.insert(insertion_point(configs, config), config)),
{
    let at = insertion_point(configs, config);
    lemma_insertion_point_bounds(configs, config);
    let out = configs.insert(at, config);
    assert forall|i: int, j: int| 0 <= i < j < out.len() implies !less_preferred(
        #[trigger] out[j],
        #[trigger] out[i],
    ) by {
        if j < at {
            assert(out[i] == configs[i] && out[j] == configs[j]);
        } else if j == at {
            assert(out[i] == configs[i]);
            lemma_preference_order(config, configs[i], config);
        } else if i < at {
            assert(out[i] == configs[i] && out[j] == configs[j - 1]);
        } else if i == at {
            assert(out[j] == configs[j - 1]);
            if j - 1 > at {
                assert(!less_preferred(configs[j - 1], configs[at]));
            }
            lemma_preference_order(configs[j - 1], configs[at], config);
            lemma_preference_order(config, configs[at], configs[j - 1]);
        } else {
            assert(out[i] == configs[i - 1] && out[j] == configs[j - 1]);
        }
    }
}

/// Sorting yields an ascending sequence that holds each configuration as
/// often as the input does.
pub proof fn lemma_sorted(configs: Seq<StreamConfig>)
    ensures
        ascending(sorted(configs)),
        sorted(configs).len() == configs.len(),
        sorted(configs).to_multiset() == configs.to_multiset(),
    decreases configs.len(),
{
    if configs.len() == 0 {
        assert(sorted(configs) =~= configs);
    } else {
        let init = configs.drop_last();
        let head = sorted(init);
        lemma_sorted(init);
        lemma_insertion_point_bounds(head, configs.last());
        lemma_insert_keeps_ascending(head, configs.last());
        vstd::seq_lib::to_multiset_insert(head, insertion_point(head, configs.last()), configs.last());
        vstd::seq_lib::to_multiset_build(init, configs.last());
        assert(init.push(configs.last()) =~= configs);
    }
}

/// The queue of candidates is ascending by preference and holds exactly the
/// candidates of the ranges, each as often as the ranges give it.
pub proof fn lemma_ranked(ranges: Seq<ConfigRange>)
    ensures
        ascending(ranked(ranges)),
        ranked(ranges).len() == ranges.len(),
        ranked(ranges).to_multiset() == candidates(ranges).to_multiset(),
{
    lemma_sorted(candidates(ranges));
}

/// The candidate that is tried first is one that no candidate of the device
/// is preferred to.
pub proof fn lemma_first_attempt_is_most_preferred(ranges: Seq<ConfigRange>, i: int)
    requires
        0 <= i < ranges.len(),
    ensures
        !less_preferred(ranked(ranges).last(), ranges[i].candidate()),
{
    let queue = ranked(ranges);
    let config = candidates(ranges)[i];
    lemma_ranked(ranges);
    candidates(ranges).to_multiset_ensures();
    queue.to_multiset_ensures();
    assert(candidates(ranges).contains(config));
    assert(candidates(ranges).to_multiset().count(config) > 0);
    assert(queue.to_multiset().count(config) > 0);
    assert(queue.contains(config));
    let at = choose|at: int| 0 <= at < queue.len() && queue[at] == config;
    if at < queue.len() - 1 {
        assert(!less_preferred(queue[queue.len() - 1], queue[at]));
    } else {
        lemma_preference_order(config, config, config);
    }
}

/// Where `config` goes into the ascending queue `queue`.
fn find_insertion_point(queue: &Vec<StreamConfig>, config: &StreamConfig) -> (at: usize)
    ensures
        at == insertion_point(queue@, *config),
        at <= queue.len(),
{
    let mut at: usize = 0;
    while at < queue.len() && !is_less_preferred(config, &queue[at])
        invariant
            at <= queue.len(),
            forall|i: int| 0 <= i < at ==> !less_preferred(*config, #[trigger] queue@[i]),
        decreases queue.len() - at,
    {
        at += 1;
    }
    proof {
        lemma_insertion_point(queue@, *config, at as int);
    }
    at
}

/// Narrows each range to its candidate and queues the candidates in ascending
/// order of preference: the one to try first is the last of the queue.
pub fn rank_candidates(ranges: &Vec<ConfigRange>) -> (queue: Vec<StreamConfig>)
    ensures
        queue@ == ranked(ranges@),
        ascending(queue@),
        queue@.to_multiset() == candidates(ranges@).to_multiset(),
{
    let mut queue: Vec<StreamConfig> = Vec::new();
    let mut next: usize = 0;
    while next < ranges.len()
        invariant
            next <= ranges.len(),
            queue@ == sorted(candidates(ranges@).take(next as int)),
        decreases ranges.len() - next,
    {
        let config = ranges[next].clamp();
        let at = find_insertion_point(&queue, &config);
        proof {
            let done = candidates(ranges@).take(next as int);
            let more = candidates(ranges@).take(next + 1);
            assert(more.drop_last() =~= done);
            assert(more.last() == config);
            lemma_sorted(done);
        }
        queue.insert(at, config);
        next += 1;
    }
    proof {
        assert(candidates(ranges@).take(next as int) =~= candidates(ranges@));
        lemma_ranked(ranges@);
    }
    queue
}

} // verus!
