//! Assembly of the game's sound effects and background music into WAV files.
//!
//! The waveforms themselves (sine tones and square-wave chiptune notes) are
//! synthesized by the caller; this module decides how the pieces are laid out
//! in time (notes, rests, gaps, repeats), shapes each note's volume envelope,
//! and encodes the result.
use vstd::prelude::*;
use crate::wav::{build_wav, lemma_wav_samples_read_back, read_sample, wav_bytes, wav_fits};

verus! {

/// Samples per second of every sound the game makes.
pub const SAMPLE_RATE: u32 = 44_100;

/// How many times the melody bar is repeated in the music loop.
pub const BGM_REPEATS: usize = 4;

/// `n` samples of silence.
pub open spec fn silence(n: nat) -> Seq<i16> {
    Seq::new(n, |i: int| 0i16)
}

/// One step of the background melody: a synthesized note, or a rest lasting
/// the given number of samples.
pub enum BgmSlot {
    Note(Vec<i16>),
    Rest(usize),
}

/// The samples one melody step contributes.
pub open spec fn slot_samples(slot: BgmSlot) -> Seq<i16> {
    match slot {
        BgmSlot::Note(v) => v@,
        BgmSlot::Rest(n) => silence(n as nat),
    }
}

/// The samples of a whole bar: its steps one after another.
pub open spec fn bar_samples(bar: Seq<BgmSlot>) -> Seq<i16>
    decreases bar.len(),
{
    if bar.len() == 0 {
        Seq::empty()
    } else {
        bar_samples(bar.drop_last()) + slot_samples(bar.last())
    }
}

/// `s` played `times` times in a row.
pub open spec fn repeated(s: Seq<i16>, times: nat) -> Seq<i16>
    decreases times,
{
    if times == 0 {
        Seq::empty()
    } else {
        repeated(s, (times - 1) as nat) + s
    }
}

/// The samples of the music loop built from `bar`.
pub open spec fn bgm_samples(bar: Seq<BgmSlot>) -> Seq<i16> {
    repeated(bar_samples(bar), BGM_REPEATS as nat)
}

/// Appends `count` silent samples.
pub fn append_silence(samples: &mut Vec<i16>, count: usize)
    requires
        old(samples)@.len() + count <= usize::MAX,
    ensures
        final(samples)@ == old(samples)@ + silence(count as nat),
{
    let ghost start = samples@;
    let mut k: usize = 0;
    while k < count
        invariant
            k <= count,
            start.len() + count <= usize::MAX,
            samples@ == start + silence(k as nat),
        decreases count - k,
    {
        samples.push(0);
        k = k + 1;
        assert(samples@ =~= start + silence(k as nat));
    }
}

/// Appends a copy of `more`.
fn append_samples(samples: &mut Vec<i16>, more: &[i16])
    requires
        old(samples)@.len() + more@.len() <= usize::MAX,
    ensures
        final(samples)@ == old(samples)@ + more@,
{
    let ghost start = samples@;
    let mut k: usize = 0;
    while k < more.len()
        invariant
            k <= more@.len(),
            start.len() + more@.len() <= usize::MAX,
            samples@ == start + more@.take(k as int),
        decreases more@.len() - k,
    {
        samples.push(more[k]);
        k = k + 1;
        assert(samples@ =~= start + more@.take(k as int));
    }
    assert(more@.take(more@.len() as int) =~= more@);
}

/// The volume envelope of one sample of a note: a linear rise over the attack,
/// full volume, then a linear fall over the release. A ramp gives its gain as
/// the fraction `num / den`.
#[derive(Clone, Copy, Debug, PartialEq, Eq, Structural)]
pub enum Envelope {
    Rise { num: usize, den: usize },
    Hold,
    Fall { num: usize, den: usize },
}

/// `a - b`, or 0 where `b > a`.
pub open spec fn sat_sub(a: int, b: int) -> int {
    if a >= b {
        a - b
    } else {
        0
    }
}

/// The larger of `x` and 1.
pub open spec fn at_least_one(x: int) -> int {
    if x >= 1 {
        x
    } else {
        1
    }
}

/// The envelope of sample `i` of a note of `sample_count` samples, with an
/// attack of `attack` samples and a release of `release` samples (each taken
/// as at least 1).
pub open spec fn envelope_at(i: int, sample_count: int, attack: int, release: int) -> Envelope {
    let a = at_least_one(attack);
    let r = at_least_one(release);
    if i < a {
        Envelope::Rise { num: i as usize, den: a as usize }
    } else if i > sat_sub(sample_count, r) {
        Envelope::Fall { num: sat_sub(sample_count, i) as usize, den: r as usize }
    } else {
        Envelope::Hold
    }
}

/// The volume envelope of sample `i` of a note; see [`envelope_at`].
pub fn envelope(i: usize, sample_count: usize, attack: usize, release: usize) -> (e: Envelope)
    ensures
        e == envelope_at(i as int, sample_count as int, attack as int, release as int),
{
    let a: usize = if attack >= 1 {
        attack
    } else {
        1
    };
    let r: usize = if release >= 1 {
        release
    } else {
        1
    };
    if i < a {
        Envelope::Rise { num: i, den: a }
    } else if i > sample_count.saturating_sub(r) {
        Envelope::Fall { num: sample_count.saturating_sub(i), den: r }
    } else {
        Envelope::Hold
    }
}

/// Law: a ramp never exceeds full volume: the gain fraction of a rise or a fall
/// is below 1.
pub proof fn lemma_envelope_below_full(i: usize, sample_count: usize, attack: usize, release: usize)
    ensures
        match envelope_at(i as int, sample_count as int, attack as int, release as int) {
            Envelope::Rise { num, den } => num < den,
            Envelope::Fall { num, den } => num < den,
            Envelope::Hold => true,
        },
{
}

/// The flap sound: one short tone.
pub fn make_flap_bytes(tone: &[i16]) -> (bytes: Vec<u8>)
    requires
        wav_fits(tone@.len() as int, SAMPLE_RATE as int),
    ensures
        bytes@ == wav_bytes(tone@, SAMPLE_RATE as int),
{
    build_wav(tone, SAMPLE_RATE)
}

/// A two-tone sound: `first`, then `gap` samples of silence, then `second`.
fn two_tone_bytes(first: &[i16], gap: usize, second: &[i16]) -> (bytes: Vec<u8>)
    requires
        wav_fits(first@.len() + gap + second@.len(), SAMPLE_RATE as int),
    ensures
        bytes@ == wav_bytes(first@ + silence(gap as nat) + second@, SAMPLE_RATE as int),
{
    let mut samples: Vec<i16> = Vec::new();
    append_samples(&mut samples, first);
    append_silence(&mut samples, gap);
    append_samples(&mut samples, second);
    assert(samples@ =~= first@ + silence(gap as nat) + second@);
    build_wav(samples.as_slice(), SAMPLE_RATE)
}

/// The score chime: a high tone, a short gap of `gap` silent samples, then a
/// higher tone.
pub fn make_score_bytes(high: &[i16], gap: usize, higher: &[i16]) -> (bytes: Vec<u8>)
    requires
        wav_fits(high@.len() + gap + higher@.len(), SAMPLE_RATE as int),
    ensures
        bytes@ == wav_bytes(high@ + silence(gap as nat) + higher@, SAMPLE_RATE as int),
{
    two_tone_bytes(high, gap, higher)
}

/// The game-over sound: a low tone, a gap of `gap` silent samples, then a
/// lower tone.
pub fn make_game_over_bytes(low: &[i16], gap: usize, lower: &[i16]) -> (bytes: Vec<u8>)
    requires
        wav_fits(low@.len() + gap + lower@.len(), SAMPLE_RATE as int),
    ensures
        bytes@ == wav_bytes(low@ + silence(gap as nat) + lower@, SAMPLE_RATE as int),
{
    two_tone_bytes(low, gap, lower)
}

proof fn lemma_bar_prefix(bar: Seq<BgmSlot>, k: int)
    requires
        0 <= k < bar.len(),
    ensures
        bar_samples(bar.take(k + 1)) == bar_samples(bar.take(k)) + slot_samples(bar[k]),
{
    assert(bar.take(k + 1).drop_last() =~= bar.take(k));
}

proof fn lemma_bar_prefix_len(bar: Seq<BgmSlot>, k: int)
    requires
        0 <= k <= bar.len(),
    ensures
        bar_samples(bar.take(k)).len() <= bar_samples(bar).len(),
    decreases bar.len() - k,
{
    if k < bar.len() {
        lemma_bar_prefix(bar, k);
        lemma_bar_prefix_len(bar, k + 1);
    } else {
        assert(bar.take(k) =~= bar);
    }
}

proof fn lemma_repeated_len(s: Seq<i16>, times: nat)
    ensures
        repeated(s, times).len() == times * s.len(),
    decreases times,
{
    if times > 0 {
        lemma_repeated_len(s, (times - 1) as nat);
        assert(times * s.len() == (times - 1) * s.len() + s.len()) by (nonlinear_arith)
            requires
                times > 0,
        ;
    } else {
        assert(times * s.len() == 0) by (nonlinear_arith)
            requires
                times == 0,
        ;
    }
}

proof fn lemma_bar_prefix_agrees(bar: Seq<BgmSlot>, m: int, i: int)
    requires
        0 <= m <= bar.len(),
        0 <= i < bar_samples(bar.take(m)).len(),
    ensures
        i < bar_samples(bar).len(),
        bar_samples(bar)[i] == bar_samples(bar.take(m))[i],
    decreases bar.len() - m,
{
    if m < bar.len() {
        lemma_bar_prefix(bar, m);
        lemma_bar_prefix_agrees(bar, m + 1, i);
    } else {
        assert(bar.take(m) =~= bar);
    }
}

proof fn lemma_repeated_index(s: Seq<i16>, times: nat, r: int, i: int)
    requires
        0 <= r < times,
        0 <= i < s.len(),
    ensures
        r * s.len() + i < repeated(s, times).len(),
        repeated(s, times)[r * s.len() + i] == s[i],
    decreases times,
{
    lemma_repeated_len(s, (times - 1) as nat);
    lemma_repeated_len(s, times);
    if r < times - 1 {
        lemma_repeated_index(s, (times - 1) as nat, r, i);
        assert(r * s.len() + i < (times - 1) * s.len()) by (nonlinear_arith)
            requires
                r < times - 1,
                i < s.len(),
        ;
    } else {
        assert(r * s.len() == (times - 1) * s.len());
    }
}

/// The position in one bar at which step `k` of `bar` starts.
pub open spec fn step_start(bar: Seq<BgmSlot>, k: int) -> int {
    bar_samples(bar.take(k)).len() as int
}

/// Law: every repeat of the music loop holds each note's samples exactly as
/// synthesized, and each rest as silence, at the step's place in the bar; and
/// they read back so from the WAV file.
pub proof fn lemma_bgm_plays_each_step(bar: Seq<BgmSlot>, k: int, r: int, j: int)
    requires
        0 <= k < bar.len(),
        0 <= r < BGM_REPEATS,
        0 <= j,
        match bar[k] {
            BgmSlot::Note(v) => j < v@.len(),
            BgmSlot::Rest(n) => j < n,
        },
    ensures
        ({
            let at = r * bar_samples(bar).len() + step_start(bar, k) + j;
            &&& at < bgm_samples(bar).len()
            &&& bgm_samples(bar)[at] == match bar[k] {
                BgmSlot::Note(v) => v@[j],
                BgmSlot::Rest(n) => 0i16,
            }
            &&& read_sample(wav_bytes(bgm_samples(bar), SAMPLE_RATE as int), 44 + 2 * at)
                == bgm_samples(bar)[at]
        }),
{
    let one = bar_samples(bar);
    let i = step_start(bar, k) + j;
    lemma_bar_prefix(bar, k);
    let slot = slot_samples(bar[k]);
    assert(j < slot.len());
    assert(bar_samples(bar.take(k + 1))[i] == slot[j]);
    lemma_bar_prefix_agrees(bar, k + 1, i);
    lemma_repeated_index(one, BGM_REPEATS as nat, r, i);
    let at = r * one.len() + i;
    lemma_wav_samples_read_back(bgm_samples(bar), SAMPLE_RATE as int, at);
}

/// Law: the music loop lasts exactly [`BGM_REPEATS`] bars.
pub proof fn lemma_bgm_length(bar: Seq<BgmSlot>)
    ensures
        bgm_samples(bar).len() == BGM_REPEATS * bar_samples(bar).len(),
{
    lemma_repeated_len(bar_samples(bar), BGM_REPEATS as nat);
}

/// The background music: the melody `bar` played [`BGM_REPEATS`] times, each
/// note as synthesized and each rest as silence.
pub fn make_bgm_bytes(bar: &[BgmSlot]) -> (bytes: Vec<u8>)
    requires
        wav_fits(BGM_REPEATS * bar_samples(bar@).len(), SAMPLE_RATE as int),
    ensures
        bytes@ == wav_bytes(bgm_samples(bar@), SAMPLE_RATE as int),
{
    let ghost one_bar = bar_samples(bar@);
    let mut samples: Vec<i16> = Vec::new();
    let mut r: usize = 0;
    while r < BGM_REPEATS
        invariant
            r <= BGM_REPEATS,
            one_bar == bar_samples(bar@),
            wav_fits(BGM_REPEATS * one_bar.len(), SAMPLE_RATE as int),
            samples@ == repeated(one_bar, r as nat),
        decreases BGM_REPEATS - r,
    {
        proof {
            lemma_repeated_len(one_bar, r as nat);
        }
        let ghost before = samples@;
        assert(bar@.take(0) =~= Seq::<BgmSlot>::empty());
        let mut k: usize = 0;
        while k < bar.len()
            invariant
                k <= bar@.len(),
                r < BGM_REPEATS,
                one_bar == bar_samples(bar@),
                wav_fits(BGM_REPEATS * one_bar.len(), SAMPLE_RATE as int),
                before.len() == r * one_bar.len(),
                samples@ == before + bar_samples(bar@.take(k as int)),
            decreases bar@.len() - k,
        {
            proof {
                lemma_bar_prefix(bar@, k as int);
                lemma_bar_prefix_len(bar@, k + 1);
                assert((r + 1) * one_bar.len() <= BGM_REPEATS * one_bar.len()) by (nonlinear_arith)
                    requires
                        r < BGM_REPEATS,
                ;
                assert(r * one_bar.len() + one_bar.len() == (r + 1) * one_bar.len())
                    by (nonlinear_arith);
            }
            match &bar[k] {
                BgmSlot::Note(note) => {
                    append_samples(&mut samples, note.as_slice());
                },
                BgmSlot::Rest(n) => {
                    append_silence(&mut samples, *n);
                },
            }
            k = k + 1;
            assert(samples@ =~= before + bar_samples(bar@.take(k as int)));
        }
        assert(bar@.take(bar@.len() as int) =~= bar@);
        r = r + 1;
        assert(samples@ =~= repeated(one_bar, r as nat));
    }
    proof {
        lemma_repeated_len(one_bar, BGM_REPEATS as nat);
    }
    build_wav(samples.as_slice(), SAMPLE_RATE)
}

} // verus!
