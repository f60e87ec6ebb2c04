//! The frequency bands of the audio spectrum events.

use vstd::prelude::*;

verus! {

/// Samples per spectrum.
pub const FFT_SIZE: usize = 1024;

/// Samples per second.
pub const SAMPLE_RATE: usize = 48000;

/// The spectrum bin of a frequency: `frequency / SAMPLE_RATE * FFT_SIZE`,
/// rounded to the nearest bin (halves up).
pub open spec fn frequency_bin(frequency: int) -> int {
    (2 * frequency * FFT_SIZE + SAMPLE_RATE) / (2 * SAMPLE_RATE)
}

/// The bins of the `k`-th band, which spans `(k + 2)` to `(k + 3)` kHz.
pub open spec fn band_bins(k: int) -> (int, int) {
    (frequency_bin((k + 2) * 1000), frequency_bin((k + 3) * 1000))
}

/// The bin of a frequency, as `frequency_bin` says.
pub fn frequency_to_bin(frequency: usize) -> (bin: usize)
    requires
        frequency <= 20_000,
    ensures
        bin == frequency_bin(frequency as int),
{
    (2 * frequency * FFT_SIZE + SAMPLE_RATE) / (2 * SAMPLE_RATE)
}

/// The spectrum bins of the eighteen bands from 2 kHz to 20 kHz, one kHz
/// each: for each band its first bin and the bin after its last. Every
/// band is non-empty and lies within the spectrum.
pub fn fft_band_bins() -> (bands: Vec<(usize, usize)>)
    ensures
        bands@.len() == 18,
        forall|k: int|
            0 <= k < 18 ==> (#[trigger] bands@[k]).0 == band_bins(k).0 && bands@[k].1 == band_bins(
                k,
            ).1,
        forall|k: int| 0 <= k < 18 ==> (#[trigger] bands@[k]).0 < bands@[k].1 <= FFT_SIZE,
{
    let mut bands: Vec<(usize, usize)> = Vec::new();
    let mut i: usize = 2;
    while i < 20
        invariant
            2 <= i <= 20,
            bands@.len() == i - 2,
            forall|k: int|
                0 <= k < i - 2 ==> (#[trigger] bands@[k]).0 == band_bins(k).0 && bands@[k].1
                    == band_bins(k).1,
            forall|k: int| 0 <= k < i - 2 ==> (#[trigger] bands@[k]).0 < bands@[k].1 <= FFT_SIZE,
        decreases 20 - i,
    {
        let low = frequency_to_bin(i * 1000);
        let high = frequency_to_bin((i + 1) * 1000);
        assert(low as int == (2048000 * (i as int) + 48000) / 96000);
        assert(high as int == (2048000 * (i as int) + 2096000) / 96000);
        assert(low < high <= FFT_SIZE);
        bands.push((low, high));
        i = i + 1;
    }
    bands
}

} // verus!
