//! Scanning a spectrum for the strongest frequency of each bucket.

use crate::models::Sample;
use crate::rate::Rate;
use crate::scalar::Scalar;
use vstd::prelude::*;

verus! {

/// The text by which this module answers a liveness probe.
pub open spec fn probe_text() -> Seq<char> {
    "This is a test function in fft.rs"@
}

/// Answers a liveness probe with a fixed text.
pub fn test() -> (text: String)
    ensures
        text@ == probe_text(),
{
    "This is a test function in fft.rs".to_string()
}

/// The range of frequencies to scan, in Hz, and the width of a bucket.
#[derive(Clone, Copy, Debug, PartialEq, Eq, Structural)]
pub struct FftDefinition {
    start_frequency: u32,
    end_frequency: u32,
    frequency_precision: u32,
}

impl FftDefinition {
    /// The first frequency of the scan.
    pub closed spec fn start(&self) -> nat {
        self.start_frequency as nat
    }

    /// The frequency at which the scan ends; the scan does not include it.
    pub closed spec fn end(&self) -> nat {
        self.end_frequency as nat
    }

    /// The width of a bucket.
    pub closed spec fn width(&self) -> nat {
        self.frequency_precision as nat
    }

    /// A scan has a bucket width, and ends above the frequency it starts at.
    pub open spec fn valid(&self) -> bool {
        self.width() > 0 && self.start() < self.end()
    }

    /// The scan from `start_frequency` up to `end_frequency`, in buckets of
    /// `frequency_precision` Hz. Whether it is a valid scan is found out when
    /// a spectrum is scanned with it.
    pub fn new(start_frequency: u32, end_frequency: u32, frequency_precision: u32) -> (definition:
        FftDefinition)
        ensures
            definition.start() == start_frequency,
            definition.end() == end_frequency,
            definition.width() == frequency_precision,
    {
        FftDefinition { start_frequency, end_frequency, frequency_precision }
    }

    /// The scan of the audible range, from 0 Hz to 20 kHz, in buckets of
    /// `frequency_precision` Hz.
    pub fn for_frequency_precision(frequency_precision: u32) -> (definition: FftDefinition)
        ensures
            definition.start() == 0,
            definition.end() == 20_000,
            definition.width() == frequency_precision,
    {
        FftDefinition { start_frequency: 0, end_frequency: 20_000, frequency_precision }
    }

    pub fn start_frequency(&self) -> (hz: u32)
        ensures
            hz == self.start(),
    {
        self.start_frequency
    }

    pub fn end_frequency(&self) -> (hz: u32)
        ensures
            hz == self.end(),
    {
        self.end_frequency
    }

    pub fn frequency_precision(&self) -> (hz: u32)
        ensures
            hz == self.width(),
    {
        self.frequency_precision
    }
}

/// The strongest frequency of one bucket.
#[derive(Clone, Copy, Debug)]
pub struct FftResult<T> {
    frequency_window: T,
    frequency: T,
    magnitude: T,
}

/// What a result holds.
pub struct Found<T> {
    /// The first frequency of the bucket.
    pub window: T,
    /// The frequency of the peak.
    pub frequency: T,
    /// The magnitude of the peak.
    pub magnitude: T,
}

impl<T> View for FftResult<T> {
    type V = Found<T>;

    closed spec fn view(&self) -> Found<T> {
        Found {
            window: self.frequency_window,
            frequency: self.frequency,
            magnitude: self.magnitude,
        }
    }
}

/// What each of `results` holds, in their order.
pub open spec fn found_in<T>(results: Seq<FftResult<T>>) -> Seq<Found<T>> {
    results.map_values(|result: FftResult<T>| result@)
}

impl<T: Copy> FftResult<T> {
    pub fn new(frequency_window: T, frequency: T, magnitude: T) -> (result: FftResult<T>)
        ensures
            result@ == (Found { window: frequency_window, frequency, magnitude }),
    {
        FftResult { frequency_window, frequency, magnitude }
    }

    pub fn magnitude(&self) -> (magnitude: T)
        ensures
            magnitude == self@.magnitude,
    {
        self.magnitude
    }

    pub fn frequency(&self) -> (frequency: T)
        ensures
            frequency == self@.frequency,
    {
        self.frequency
    }

    pub fn frequency_window(&self) -> (frequency_window: T)
        ensures
            frequency_window == self@.window,
    {
        self.frequency_window
    }
}

/// Why a spectrum could not be scanned.
#[derive(Clone, Copy, Debug, PartialEq, Eq, Structural)]
pub enum ScanError {
    /// The bucket width is zero, or the scan does not end above the
    /// frequency it starts at.
    InvalidDefinition,
    /// The scan ends at a bin that the spectrum does not have.
    BeyondSpectrum,
}

/// The bin in which `frequency` falls, in a spectrum of `len` bins taken at
/// `rate`: `floor(frequency * len / rate)`.
pub open spec fn bin_of(frequency: nat, len: nat, rate: nat) -> nat
    recommends
        rate > 0,
{
    (frequency * len) / rate
}

/// Whether the frequency of bin `i`, which is `i * rate / len`, lies above
/// `edge`.
pub open spec fn above_edge(i: nat, len: nat, rate: nat, edge: nat) -> bool {
    i * rate > edge * len
}

/// The frequency of bin `i` as a value: `i` times the rate, over the number
/// of bins.
pub open spec fn bin_frequency<T: Scalar>(i: nat, len: nat, rate: nat) -> T {
    T::from_int_spec(i as i128).times_spec(T::from_int_spec(rate as i128)).over_spec(
        T::from_int_spec(len as i128),
    )
}

/// The running peak once bin `i` has been seen: `i` where it is the first
/// bin, or where the peak so far is below it.
pub open spec fn better<T: Scalar>(magnitudes: Seq<T>, best: Option<nat>, i: nat) -> Option<nat> {
    match best {
        None => Some(i),
        Some(b) => if magnitudes[b as int].below_spec(magnitudes[i as int]) {
            Some(i)
        } else {
            Some(b)
        },
    }
}

/// The bin with the largest magnitude among the first `n`: the first of
/// them where several are equal, and none where `n` is zero.
pub open spec fn peak_bin<T: Scalar>(magnitudes: Seq<T>, n: nat) -> Option<nat>
    decreases n,
{
    if n == 0 {
        None
    } else {
        better(magnitudes, peak_bin(magnitudes, (n - 1) as nat), (n - 1) as nat)
    }
}

/// A bucket that was found: its first frequency and the bin of its peak.
pub struct Peak {
    pub window: nat,
    pub bin: nat,
}

/// A scan under way: the first frequency of the current bucket, the bin
/// of its running peak, and the buckets found so far.
pub struct Scan {
    pub base: nat,
    pub best: Option<nat>,
    pub found: Seq<Peak>,
}

/// The scan that has visited no bin.
pub open spec fn scan_start(start: nat) -> Scan {
    Scan { base: start, best: None, found: Seq::empty() }
}

/// The scan with its current bucket closed: the bucket is found, with its
/// peak, and the next bucket starts a width further.
pub open spec fn closed_bucket(scan: Scan, width: nat) -> Scan {
    Scan {
        base: scan.base + width,
        best: None,
        found: match scan.best {
            None => scan.found,
            Some(bin) => scan.found.push(Peak { window: scan.base, bin }),
        },
    }
}

/// The scan after its visit of bin `i`, on the way to `max`. Where the
/// frequency of the bin lies above the bucket's upper edge, or the bin is
/// `max`, the bucket is closed first. A bin below `max` is then taken into
/// the current bucket.
pub open spec fn visited<T: Scalar>(
    scan: Scan,
    magnitudes: Seq<T>,
    rate: nat,
    width: nat,
    max: nat,
    i: nat,
) -> Scan {
    let turned = if above_edge(i, magnitudes.len(), rate, scan.base + width) || i == max {
        closed_bucket(scan, width)
    } else {
        scan
    };
    if i < max {
        Scan { best: better(magnitudes, turned.best, i), ..turned }
    } else {
        turned
    }
}

/// The scan that started at bin `min` and has visited the bins below `i`.
pub open spec fn scanned<T: Scalar>(
    magnitudes: Seq<T>,
    rate: nat,
    start: nat,
    width: nat,
    min: nat,
    max: nat,
    i: nat,
) -> Scan
    decreases i,
{
    if i <= min {
        scan_start(start)
    } else {
        visited(
            scanned(magnitudes, rate, start, width, min, max, (i - 1) as nat),
            magnitudes,
            rate,
            width,
            max,
            (i - 1) as nat,
        )
    }
}

/// The buckets of a spectrum: those which the scan from the bin of the
/// start frequency to the bin of the end frequency has found when it has
/// visited that last bin; none where the two bins are the same.
pub open spec fn buckets<T: Scalar>(magnitudes: Seq<T>, rate: nat, definition: FftDefinition) -> Seq<
    Peak,
> {
    let min = bin_of(definition.start(), magnitudes.len(), rate);
    let max = bin_of(definition.end(), magnitudes.len(), rate);
    if min == max {
        Seq::empty()
    } else {
        scanned(
            magnitudes,
            rate,
            definition.start(),
            definition.width(),
            min,
            max,
            max + 1,
        ).found
    }
}

/// The result that reports a bucket: its first frequency as a value, the
/// frequency of its peak bin, and the magnitude of that bin.
pub open spec fn reported<T: Scalar>(magnitudes: Seq<T>, rate: nat, peak: Peak) -> Found<T> {
    Found {
        window: T::from_int_spec(peak.window as i128),
        frequency: bin_frequency(peak.bin, magnitudes.len(), rate),
        magnitude: magnitudes[peak.bin as int],
    }
}

/// The buckets of a spectrum as results, in the order in which they were
/// found.
pub open spec fn scan_results<T: Scalar>(
    magnitudes: Seq<T>,
    rate: nat,
    definition: FftDefinition,
) -> Seq<Found<T>> {
    buckets(magnitudes, rate, definition).map_values(|peak: Peak| reported(magnitudes, rate, peak))
}

/// The frequency of bin `i` of a spectrum of `len` bins taken at `hz`.
fn frequency_of_bin<T: Scalar>(i: usize, len: usize, hz: u32) -> (frequency: T)
    ensures
        frequency == bin_frequency::<T>(i as nat, len as nat, hz as nat),
{
    T::from_int(i as i128).times(T::from_int(hz as i128)).over(T::from_int(len as i128))
}

/// Computes `floor(frequency * len / hz)`.
fn bin_index(frequency: u32, len: usize, hz: u32) -> (bin: u128)
    requires
        hz > 0,
    ensures
        bin == bin_of(frequency as nat, len as nat, hz as nat),
{
    assert((frequency as u128) * (len as u128) <= 0xffff_ffff * 0xffff_ffff_ffff_ffff)
        by (nonlinear_arith)
        requires
            frequency <= 0xffff_ffff,
            len <= 0xffff_ffff_ffff_ffff,
    ;
    (frequency as u128) * (len as u128) / (hz as u128)
}

/// Scans a spectrum for the peak of each bucket of frequencies.
///
/// `magnitudes` holds the magnitude of each bin of the forward transform of
/// a waveform that was taken at `rate`. The bins from the one of the start
/// frequency up to the one of the end frequency are visited in order. A
/// bucket is closed, and reported with the strongest of its bins, when a
/// bin's frequency lies above the bucket's upper edge, and when the last
/// bin is reached.
pub fn fft_to_frequencies<T: Scalar>(
    magnitudes: &Sample<T>,
    rate: &Rate,
    fft_definition: &FftDefinition,
) -> (result: Result<Vec<FftResult<T>>, ScanError>)
    requires
        rate.wf(),
    ensures
        match result {
            Ok(found) => {
                &&& fft_definition.valid()
                &&& bin_of(fft_definition.end(), magnitudes@.len(), rate.hz()) <= magnitudes@.len()
                &&& found_in(found@) == scan_results(magnitudes@, rate.hz(), *fft_definition)
            },
            Err(ScanError::InvalidDefinition) => !fft_definition.valid(),
            Err(ScanError::BeyondSpectrum) => {
                &&& fft_definition.valid()
                &&& bin_of(fft_definition.end(), magnitudes@.len(), rate.hz()) > magnitudes@.len()
            },
        },
{
    let len: usize = magnitudes.len();
    let hz: u32 = rate.value();
    let start: u32 = fft_definition.start_frequency();
    let end: u32 = fft_definition.end_frequency();
    let width: u32 = fft_definition.frequency_precision();
    if width == 0 || end <= start {
        return Err(ScanError::InvalidDefinition);
    }
    let min_wide: u128 = bin_index(start, len, hz);
    let max_wide: u128 = bin_index(end, len, hz);
    if max_wide > len as u128 {
        return Err(ScanError::BeyondSpectrum);
    }
    proof {
        assert((start as int) * (len as int) <= (end as int) * (len as int)) by (nonlinear_arith)
            requires
                start < end,
                len >= 0,
        ;
        vstd::arithmetic::div_mod::lemma_div_is_ordered(
            (start as int) * (len as int),
            (end as int) * (len as int),
            hz as int,
        );
    }
    let min: usize = min_wide as usize;
    let max: usize = max_wide as usize;
    let mut found: Vec<FftResult<T>> = Vec::new();
    if min == max {
        assert(found_in(found@) =~= scan_results(magnitudes@, rate.hz(), *fft_definition));
        return Ok(found);
    }
    let mut base: u32 = start;
    let mut best: usize = min;
    let mut has_best: bool = false;
    let mut i: usize = min;
    while i < max
        invariant
            min <= i <= max <= len,
            len == magnitudes@.len(),
            hz > 0,
            has_best ==> best < i,
            scanned(magnitudes@, hz as nat, start as nat, width as nat, min as nat, max as nat, i as nat).base
                == base,
            scanned(magnitudes@, hz as nat, start as nat, width as nat, min as nat, max as nat, i as nat).best
                == (if has_best {
                Some(best as nat)
            } else {
                None
            }),
            found_in(found@) == scanned(
                magnitudes@,
                hz as nat,
                start as nat,
                width as nat,
                min as nat,
                max as nat,
                i as nat,
            ).found.map_values(|peak: Peak| reported(magnitudes@, hz as nat, peak)),
        decreases max - i,
    {
        let ghost before = scanned(
            magnitudes@,
            hz as nat,
            start as nat,
            width as nat,
            min as nat,
            max as nat,
            i as nat,
        );
        let edge: u64 = base as u64 + width as u64;
        assert((i as u128) * (hz as u128) <= 0xffff_ffff_ffff_ffff * 0xffff_ffff
            && (edge as u128) * (len as u128) <= 0x1_ffff_fffe * 0xffff_ffff_ffff_ffff)
            by (nonlinear_arith)
            requires
                i <= 0xffff_ffff_ffff_ffff,
                hz <= 0xffff_ffff,
                len <= 0xffff_ffff_ffff_ffff,
                edge <= 0x1_ffff_fffe,
        ;
        if (i as u128) * (hz as u128) > (edge as u128) * (len as u128) {
            assert(edge < hz) by (nonlinear_arith)
                requires
                    (i as int) * (hz as int) > (edge as int) * (len as int),
                    0 <= i <= len,
                    hz > 0,
                    edge >= 0,
            ;
            if has_best {
                let ghost earlier = found@;
                found.push(
                    FftResult::new(
                        T::from_int(base as i128),
                        frequency_of_bin(best, len, hz),
                        magnitudes.value(best),
                    ),
                );
                assert(found_in(found@) =~= found_in(earlier).push(
                    reported(magnitudes@, hz as nat, Peak { window: base as nat, bin: best as nat }),
                ));
            }
            base = edge as u32;
            has_best = false;
        }
        if !has_best || magnitudes.value(best).below(magnitudes.value(i)) {
            best = i;
            has_best = true;
        }
        i += 1;
        proof {
            let after = scanned(
                magnitudes@,
                hz as nat,
                start as nat,
                width as nat,
                min as nat,
                max as nat,
                i as nat,
            );
            assert(after == visited(
                before,
                magnitudes@,
                hz as nat,
                width as nat,
                max as nat,
                (i - 1) as nat,
            ));
            assert(found_in(found@) =~= after.found.map_values(
                |peak: Peak| reported(magnitudes@, hz as nat, peak),
            ));
        }
    }
    let ghost before = scanned(
        magnitudes@,
        hz as nat,
        start as nat,
        width as nat,
        min as nat,
        max as nat,
        max as nat,
    );
    if has_best {
        let ghost earlier = found@;
        found.push(
            FftResult::new(
                T::from_int(base as i128),
                frequency_of_bin(best, len, hz),
                magnitudes.value(best),
            ),
        );
        assert(found_in(found@) =~= found_in(earlier).push(
            reported(magnitudes@, hz as nat, Peak { window: base as nat, bin: best as nat }),
        ));
    }
    proof {
        let after = scanned(
            magnitudes@,
            hz as nat,
            start as nat,
            width as nat,
            min as nat,
            max as nat,
            (max + 1) as nat,
        );
        assert(after == visited(before, magnitudes@, hz as nat, width as nat, max as nat, max as nat));
        assert(found_in(found@) =~= after.found.map_values(
            |peak: Peak| reported(magnitudes@, hz as nat, peak),
        ));
        assert(found_in(found@) =~= scan_results(magnitudes@, rate.hz(), *fft_definition));
    }
    Ok(found)
}

/// The frequency of the strongest bin below half the rate: of the bins of
/// the lower half of the spectrum, the first with the largest magnitude.
/// A spectrum of fewer than two bins has none.
pub fn peak_frequency<T: Scalar>(magnitudes: &Sample<T>, rate: &Rate) -> (peak: Option<T>)
    ensures
        peak == match peak_bin(magnitudes@, magnitudes@.len() / 2) {
            None => None::<T>,
            Some(bin) => Some(bin_frequency::<T>(bin, magnitudes@.len(), rate.hz())),
        },
        peak is None <==> magnitudes@.len() < 2,
{
    let len: usize = magnitudes.len();
    let half: usize = len / 2;
    if half == 0 {
        return None;
    }
    let mut best: usize = 0;
    let mut i: usize = 1;
    assert(peak_bin(magnitudes@, 1) == better(magnitudes@, peak_bin(magnitudes@, 0), 0));
    while i < half
        invariant
            1 <= i <= half,
            half == len / 2,
            len == magnitudes@.len(),
            best < i,
            peak_bin(magnitudes@, i as nat) == Some(best as nat),
        decreases half - i,
    {
        if magnitudes.value(best).below(magnitudes.value(i)) {
            best = i;
        }
        i += 1;
    }
    Some(frequency_of_bin(best, len, rate.value()))
}

/// What holds of a scan from bin `min` that has visited the bins below
/// `i`: its buckets follow one another from the start frequency on, a width
/// apart; their peaks are bins that were visited, in rising order; and from
/// the first visit on the current bucket holds a bin that lies above them.
pub open spec fn orderly(scan: Scan, start: nat, width: nat, min: nat, max: nat, i: nat) -> bool {
    &&& scan.base == start + scan.found.len() * width
    &&& forall|k: int|
        0 <= k < scan.found.len() ==> (#[trigger] scan.found[k]).window == start + k * width && min
            <= scan.found[k].bin < i && scan.found[k].bin < max
    &&& forall|k: int, m: int|
        0 <= k < m < scan.found.len() ==> (#[trigger] scan.found[k]).bin < (
        #[trigger] scan.found[m]).bin
    &&& (i <= max ==> match scan.best {
        None => i == min,
        Some(b) => i > min && min <= b < i && forall|k: int|
            0 <= k < scan.found.len() ==> (#[trigger] scan.found[k]).bin < b,
    })
    &&& (i == max + 1 ==> scan.found.len() > 0)
}

/// A scan is orderly at every bin on its way.
proof fn scan_is_orderly<T: Scalar>(
    magnitudes: Seq<T>,
    rate: nat,
    start: nat,
    width: nat,
    min: nat,
    max: nat,
    i: nat,
)
    requires
        min < max,
        min <= i <= max + 1,
        !above_edge(min, magnitudes.len(), rate, start + width),
    ensures
        orderly(scanned(magnitudes, rate, start, width, min, max, i), start, width, min, max, i),
    decreases i,
{
    if i > min {
        let j = (i - 1) as nat;
        scan_is_orderly(magnitudes, rate, start, width, min, max, j);
        let before = scanned(magnitudes, rate, start, width, min, max, j);
        let after = visited(before, magnitudes, rate, width, max, j);
        assert(after == scanned(magnitudes, rate, start, width, min, max, i));
        let closes = above_edge(j, magnitudes.len(), rate, before.base + width) || j == max;
        if closes {
            assert(j > min);
            let b = before.best->Some_0;
            let shut = closed_bucket(before, width);
            assert(shut.found == before.found.push(Peak { window: before.base, bin: b }));
            assert(shut.base == start + shut.found.len() * width) by (nonlinear_arith)
                requires
                    shut.base == before.base + width,
                    before.base == start + before.found.len() * width,
                    shut.found.len() == before.found.len() + 1,
            ;
            assert(before.base == start + (before.found.len() as int) * width);
        }
    }
}

/// The buckets of a scan that visits a bin are reported in the order of
/// their first frequencies: the first starts at the start frequency, and each
/// further one a width above the one before it. There is at least one. The
/// peak of each is a bin of the scan, and the peaks rise from bucket to
/// bucket.
pub proof fn buckets_are_consecutive<T: Scalar>(magnitudes: Seq<T>, rate: nat, definition: FftDefinition)
    requires
        rate > 0,
        definition.valid(),
        bin_of(definition.start(), magnitudes.len(), rate) != bin_of(
            definition.end(),
            magnitudes.len(),
            rate,
        ),
    ensures
        buckets(magnitudes, rate, definition).len() > 0,
        forall|k: int|
            0 <= k < buckets(magnitudes, rate, definition).len() ==> {
                &&& (#[trigger] buckets(magnitudes, rate, definition)[k]).window
                    == definition.start() + k * definition.width()
                &&& bin_of(definition.start(), magnitudes.len(), rate) <= buckets(
                    magnitudes,
                    rate,
                    definition,
                )[k].bin < bin_of(definition.end(), magnitudes.len(), rate)
            },
        forall|k: int, m: int|
            0 <= k < m < buckets(magnitudes, rate, definition).len() ==> (#[trigger] buckets(
                magnitudes,
                rate,
                definition,
            )[k]).bin < (#[trigger] buckets(magnitudes, rate, definition)[m]).bin,
{
    let len = magnitudes.len();
    let start = definition.start();
    let end = definition.end();
    let width = definition.width();
    let min = bin_of(start, len, rate);
    let max = bin_of(end, len, rate);
    assert((start * len) as int <= (end * len) as int) by (nonlinear_arith)
        requires
            start < end,
            len >= 0,
    ;
    vstd::arithmetic::div_mod::lemma_div_is_ordered(
        (start * len) as int,
        (end * len) as int,
        rate as int,
    );
    assert(min < max);
    vstd::arithmetic::div_mod::lemma_fundamental_div_mod((start * len) as int, rate as int);
    vstd::arithmetic::div_mod::lemma_mod_bound((start * len) as int, rate as int);
    assert(min * rate <= (start + width) * len) by (nonlinear_arith)
        requires
            (start * len) as int == rate * min + ((start * len) as int) % (rate as int),
            ((start * len) as int) % (rate as int) >= 0,
            width >= 0,
            len >= 0,
    ;
    scan_is_orderly(magnitudes, rate, start, width, min, max, max + 1);
}

/// The number of widths that the range of a scan holds, a part of a width
/// counting as a whole one.
pub open spec fn bucket_total(definition: FftDefinition) -> nat {
    ((definition.end() - definition.start() + definition.width() - 1) / (
    definition.width() as int)) as nat
}

/// Whether a scan that has visited the bins below `i` has kept pace with
/// them: the frequency of the bin it visited last lies within the current
/// bucket, above its first frequency unless it is the first bucket, and not
/// above its upper edge.
pub open spec fn paced(scan: Scan, width: nat, len: nat, rate: nat, i: nat) -> bool {
    &&& (i - 1) * rate <= (scan.base + width) * len
    &&& (scan.found.len() > 0 ==> scan.base * len < (i - 1) * rate)
}

/// Where the bins lie no further apart than a bucket is wide, a scan keeps
/// pace with the bins.
proof fn scan_keeps_pace<T: Scalar>(
    magnitudes: Seq<T>,
    rate: nat,
    start: nat,
    width: nat,
    min: nat,
    max: nat,
    i: nat,
)
    requires
        min < i <= max,
        !above_edge(min, magnitudes.len(), rate, start + width),
        0 < rate <= width * magnitudes.len(),
    ensures
        paced(
            scanned(magnitudes, rate, start, width, min, max, i),
            width,
            magnitudes.len(),
            rate,
            i,
        ),
    decreases i,
{
    let len = magnitudes.len();
    let j = (i - 1) as nat;
    let before = scanned(magnitudes, rate, start, width, min, max, j);
    let after = visited(before, magnitudes, rate, width, max, j);
    assert(after == scanned(magnitudes, rate, start, width, min, max, i));
    if j == min {
        assert(before == scan_start(start));
    } else {
        scan_keeps_pace(magnitudes, rate, start, width, min, max, j);
        scan_is_orderly(magnitudes, rate, start, width, min, max, j);
        let edge = before.base + width;
        if above_edge(j, len, rate, edge) {
            assert(j * rate <= (edge + width) * len) by (nonlinear_arith)
                requires
                    (j - 1) * rate <= edge * len,
                    rate <= width * len,
            ;
        } else {
            assert((j - 1) * rate < j * rate) by (nonlinear_arith)
                requires
                    rate > 0,
            ;
        }
    }
}

/// Where the bins lie no further apart than a bucket is wide, and the last
/// bin that the scan takes in lies above the first frequency of the last
/// bucket of the range, the scan finds as many buckets as the range holds
/// widths, a part of a width counting as a whole one.
pub proof fn bucket_count<T: Scalar>(magnitudes: Seq<T>, rate: nat, definition: FftDefinition)
    requires
        0 < rate <= definition.width() * magnitudes.len(),
        definition.valid(),
        bin_of(definition.end(), magnitudes.len(), rate) >= 1,
        (definition.start() + (bucket_total(definition) - 1) * definition.width())
            * magnitudes.len() < (bin_of(definition.end(), magnitudes.len(), rate) - 1) * rate,
    ensures
        buckets(magnitudes, rate, definition).len() == bucket_total(definition),
{
    let len = magnitudes.len();
    let start = definition.start();
    let end = definition.end();
    let width = definition.width();
    let min = bin_of(start, len, rate);
    let max = bin_of(end, len, rate);
    let total = bucket_total(definition);
    // the range holds more than `total - 1` widths, and no more than `total`
    let span = end - start;
    vstd::arithmetic::div_mod::lemma_fundamental_div_mod(span + width - 1, width as int);
    vstd::arithmetic::div_mod::lemma_mod_bound(span + width - 1, width as int);
    assert(total >= 1 && (total - 1) * width < span <= total * width) by (nonlinear_arith)
        requires
            span + width - 1 == width * total + (span + width - 1) % (width as int),
            0 <= (span + width - 1) % (width as int) < width,
            span > 0,
            width > 0,
            total >= 0,
    ;
    // the bins of the start and of the end frequency
    vstd::arithmetic::div_mod::lemma_fundamental_div_mod((start * len) as int, rate as int);
    vstd::arithmetic::div_mod::lemma_mod_bound((start * len) as int, rate as int);
    vstd::arithmetic::div_mod::lemma_fundamental_div_mod((end * len) as int, rate as int);
    vstd::arithmetic::div_mod::lemma_mod_bound((end * len) as int, rate as int);
    assert(min * rate <= start * len && max * rate <= end * len) by (nonlinear_arith)
        requires
            (start * len) as int == rate * min + ((start * len) as int) % (rate as int),
            ((start * len) as int) % (rate as int) >= 0,
            (end * len) as int == rate * max + ((end * len) as int) % (rate as int),
            ((end * len) as int) % (rate as int) >= 0,
    ;
    assert(min * rate <= (start + width) * len) by (nonlinear_arith)
        requires
            min * rate <= start * len,
            width >= 0,
            len >= 0,
    ;
    assert(min < max) by (nonlinear_arith)
        requires
            (start * len) as int == rate * min + ((start * len) as int) % (rate as int),
            ((start * len) as int) % (rate as int) < rate,
            (start + (total - 1) * width) * len < (max - 1) * rate,
            total >= 1,
            width > 0,
            len >= 0,
            rate > 0,
    ;
    scan_is_orderly(magnitudes, rate, start, width, min, max, max);
    scan_keeps_pace(magnitudes, rate, start, width, min, max, max);
    let before = scanned(magnitudes, rate, start, width, min, max, max);
    let after = visited(before, magnitudes, rate, width, max, max);
    assert(after == scanned(magnitudes, rate, start, width, min, max, max + 1));
    let found = before.found.len();
    assert(after.found.len() == found + 1);
    // the current bucket starts below the end of the range
    assert(found < total) by (nonlinear_arith)
        requires
            before.base == start + found * width,
            found > 0 ==> before.base * len < (max - 1) * rate,
            max * rate <= end * len,
            rate > 0,
            len >= 0,
            end - start <= total * width,
            total >= 1,
            width > 0,
    ;
    // and the last bucket of the range starts below its upper edge
    assert(total - 1 < found + 1) by (nonlinear_arith)
        requires
            before.base == start + found * width,
            (max - 1) * rate <= (before.base + width) * len,
            (start + (total - 1) * width) * len < (max - 1) * rate,
            width > 0,
            len >= 0,
    ;
}

} // verus!
