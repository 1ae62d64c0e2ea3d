//! The kinds of filter and the parameters that drive them.
//!
//! A low-pass and a high-pass filter are first-order: one corner frequency,
//! one coefficient, one delayed sample. A band-pass filter is second-order:
//! its bandwidth takes the place of the corner frequency, and a centre
//! frequency, a second coefficient and a second delayed sample come on top.

use vstd::prelude::*;

verus! {

/// Parameters of a filter that can be set while it runs.
#[derive(Clone, Copy, Debug, PartialEq, Eq)]
pub enum FilterParam {
    /// Sample rate.
    SampleRateHz,
    /// Cutoff frequency, or centre frequency of a band-pass filter.
    FreqHz,
    /// Bandwidth of a band-pass filter.
    BandwidthHz,
}

/// Kinds of filter.
#[derive(Clone, Copy, Debug, PartialEq, Eq)]
pub enum FilterType {
    /// Low-pass filter.
    LowPass,
    /// High-pass filter.
    HighPass,
    /// Band-pass filter.
    BandPass,
}

impl FilterType {
    /// Number of coefficients, and of delayed samples, that the kind works
    /// with.
    pub open spec fn spec_order(self) -> usize {
        match self {
            FilterType::LowPass | FilterType::HighPass => 1,
            FilterType::BandPass => 2,
        }
    }

    /// The parameter from which the allpass coefficient is derived: the
    /// cutoff frequency, and for a band-pass filter the bandwidth.
    pub open spec fn spec_corner_param(self) -> FilterParam {
        match self {
            FilterType::LowPass | FilterType::HighPass => FilterParam::FreqHz,
            FilterType::BandPass => FilterParam::BandwidthHz,
        }
    }

    #[verifier::when_used_as_spec(spec_order)]
    pub fn order(self) -> (n: usize)
        ensures
            n == self.spec_order(),
    {
        match self {
            FilterType::LowPass | FilterType::HighPass => 1,
            FilterType::BandPass => 2,
        }
    }

    #[verifier::when_used_as_spec(spec_corner_param)]
    pub fn corner_param(self) -> (param: FilterParam)
        ensures
            param == self.spec_corner_param(),
    {
        match self {
            FilterType::LowPass | FilterType::HighPass => FilterParam::FreqHz,
            FilterType::BandPass => FilterParam::BandwidthHz,
        }
    }
}

} // verus!
