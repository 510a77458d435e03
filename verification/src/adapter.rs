//! Fitting a source to the output format.
//!
//! A source whose sample rate or channel count differs from the output's is
//! wrapped in adapters before it is mixed. This module decides which adapters
//! are needed and in which order; building them is the caller's part.

use crate::error::EngineError;
use crate::format::AudioFormat;
use vstd::prelude::*;

verus! {

/// One adapter around a source.
#[derive(Clone, Copy, Debug, PartialEq, Eq, Structural)]
pub enum Adapter {
    /// Resamples the source to the given sample rate.
    SampleRate(u32),
    /// Remixes the source to the given channel count.
    Channels(u16),
}

impl Adapter {
    /// The format of what comes out of the adapter when `format` goes in.
    pub open spec fn apply(self, format: AudioFormat) -> AudioFormat {
        match self {
            Adapter::SampleRate(sample_rate) => AudioFormat {
                channels: format.channels,
                sample_rate,
            },
            Adapter::Channels(channels) => AudioFormat {
                channels,
                sample_rate: format.sample_rate,
            },
        }
    }
}

/// The format of a source of format `source` once the adapters of `chain` are
/// wrapped around it, the first of the chain innermost.
pub open spec fn adapted(source: AudioFormat, chain: Seq<Adapter>) -> AudioFormat
    decreases chain.len(),
{
    if chain.len() == 0 {
        source
    } else {
        chain.last().apply(adapted(source, chain.drop_last()))
    }
}

/// Whether a channel adapter can turn the one channel count into the other:
/// one of the two has to be mono.
pub open spec fn remixable(source: AudioFormat, output: AudioFormat) -> bool {
    source.channels == 1 || output.channels == 1
}

/// The adapters that a source of format `source` needs to be mixed into
/// `output`, innermost first, or the reason why it cannot be.
///
/// Equal formats need no adapter. A differing sample rate takes a sample-rate
/// adapter; a differing channel count takes a channel adapter, which exists
/// only where one side is mono. Where both differ, the sample rate is adapted
/// first.
pub open spec fn adaptation(source: AudioFormat, output: AudioFormat) -> Result<
    Seq<Adapter>,
    EngineError,
> {
    if source.sample_rate == output.sample_rate {
        if source.channels == output.channels {
            Ok(Seq::empty())
        } else if remixable(source, output) {
            Ok(seq![Adapter::Channels(output.channels)])
        } else {
            Err(EngineError::ChannelMismatch { rates_differ: false })
        }
    } else {
        if source.channels == output.channels {
            Ok(seq![Adapter::SampleRate(output.sample_rate)])
        } else if remixable(source, output) {
            Ok(seq![Adapter::SampleRate(output.sample_rate), Adapter::Channels(output.channels)])
        } else {
            Err(EngineError::ChannelMismatch { rates_differ: true })
        }
    }
}

/// What a planned chain is in contracts.
pub open spec fn plan_view(plan: Result<Vec<Adapter>, EngineError>) -> Result<
    Seq<Adapter>,
    EngineError,
> {
    match plan {
        Ok(chain) => Ok(chain@),
        Err(error) => Err(error),
    }
}

/// Decides which adapters a source of format `source` needs to be mixed into
/// `output`.
pub fn plan_adapters(source: AudioFormat, output: AudioFormat) -> (plan: Result<
    Vec<Adapter>,
    EngineError,
>)
    ensures
        plan_view(plan) == adaptation(source, output),
        plan is Ok <==> source.channels == output.channels || remixable(source, output),
        plan matches Ok(chain) ==> adapted(source, chain@) == output,
        source == output ==> (plan matches Ok(chain) && chain@.len() == 0),
{
    let rates_differ = source.sample_rate != output.sample_rate;
    let mut chain: Vec<Adapter> = Vec::new();
    if rates_differ {
        chain.push(Adapter::SampleRate(output.sample_rate));
    }
    if source.channels != output.channels {
        if source.channels == 1 || output.channels == 1 {
            chain.push(Adapter::Channels(output.channels));
        } else {
            return Err(EngineError::ChannelMismatch { rates_differ });
        }
    }
    proof {
        lemma_adaptation_fits(source, output);
        assert(chain@ =~= adaptation(source, output)->Ok_0);
    }
    Ok(chain)
}

/// A source that was adapted as planned has the format of the output.
pub proof fn lemma_adaptation_fits(source: AudioFormat, output: AudioFormat)
    ensures
        adaptation(source, output) matches Ok(chain) ==> adapted(source, chain) == output,
{
    if let Ok(chain) = adaptation(source, output) {
        reveal_with_fuel(adapted, 3);
        if chain.len() == 1 {
            assert(chain.drop_last() =~= Seq::empty());
        } else if chain.len() == 2 {
            assert(chain.drop_last() =~= seq![Adapter::SampleRate(output.sample_rate)]);
            assert(chain.drop_last().drop_last() =~= Seq::empty());
        }
    }
}

/// A source is refused exactly where its channel count differs from the
/// output's and neither is mono; the sample rates play no part in that.
pub proof fn lemma_refused_sources(source: AudioFormat, output: AudioFormat)
    ensures
        adaptation(source, output) is Err <==> source.channels != output.channels
            && source.channels != 1 && output.channels != 1,
{
}

/// A source that has the output's format already gets no adapter.
pub proof fn lemma_matching_source_is_direct(source: AudioFormat, output: AudioFormat)
    requires
        source.sample_rate == output.sample_rate,
        source.channels == output.channels,
    ensures
        adaptation(source, output) == Ok::<Seq<Adapter>, EngineError>(Seq::empty()),
{
}

} // verus!
