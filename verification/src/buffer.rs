use crate::error::StretchError;
use vstd::arithmetic::div_mod::{lemma_fundamental_div_mod, lemma_fundamental_div_mod_converse};
use vstd::prelude::*;

verus! {

/// The samples that fall to channel `c` when `data` is dealt out round-robin
/// over `n` channels: sample `i` belongs to channel `i % n`.
pub open spec fn channel_of(data: Seq<u32>, n: int, c: int) -> Seq<u32> {
    Seq::new((data.len() as int / n) as nat, |j: int| data[j * n + c])
}

/// `data` dealt out over `n` channels.
pub open spec fn deinterleave(data: Seq<u32>, n: int) -> Seq<Seq<u32>> {
    Seq::new(n as nat, |c: int| channel_of(data, n, c))
}

/// The channels woven back into one sequence: position `i` holds sample
/// `i / n` of channel `i % n`, with `n` the number of channels.
pub open spec fn interleave(rows: Seq<Seq<u32>>) -> Seq<u32> {
    Seq::new(
        rows.len() * rows[0].len(),
        |i: int| rows[i % (rows.len() as int)][i / (rows.len() as int)],
    )
}

/// Each channel of `rows` followed by its share of `data`.
pub open spec fn append_interleaved(rows: Seq<Seq<u32>>, data: Seq<u32>) -> Seq<Seq<u32>> {
    Seq::new(rows.len(), |c: int| rows[c] + channel_of(data, rows.len() as int, c))
}

/// `n` channels of `size` zero samples each.
pub open spec fn silence(n: nat, size: nat) -> Seq<Seq<u32>> {
    Seq::new(n, |c: int| Seq::new(size, |j: int| 0u32))
}

/// At least one channel, and all channels equally long.
pub open spec fn rectangular(rows: Seq<Seq<u32>>) -> bool {
    &&& rows.len() >= 1
    &&& forall|c: int| 0 <= c < rows.len() ==> (#[trigger] rows[c]).len() == rows[0].len()
}

/// The channels of a vector of vectors, as sequences.
pub open spec fn rows_of(channels: Vec<Vec<u32>>) -> Seq<Seq<u32>> {
    Seq::new(channels@.len(), |c: int| channels@[c]@)
}

/// A sequence whose length is a multiple of `n` is `n` times its frame count long.
pub proof fn lemma_frames(len: int, n: int)
    requires
        n >= 1,
        len >= 0,
        len % n == 0,
    ensures
        (len / n) * n == len,
        len / n >= 0,
{
    lemma_fundamental_div_mod(len, n);
    assert((len / n) * n == n * (len / n)) by (nonlinear_arith);
    assert(len / n >= 0) by (nonlinear_arith)
        requires
            n >= 1,
            len >= 0,
    ;
}

/// Position `f * n + c` lies in frame `f`, at channel `c`.
pub proof fn lemma_position(f: int, n: int, c: int, frames: int)
    requires
        0 <= f < frames,
        0 <= c < n,
    ensures
        0 <= f * n + c < frames * n,
        (f * n + c) / n == f,
        (f * n + c) % n == c,
{
    assert(0 <= f * n + c < frames * n) by (nonlinear_arith)
        requires
            0 <= f < frames,
            0 <= c < n,
    ;
    lemma_fundamental_div_mod_converse(f * n + c, n, f, c);
}

/// Dealing samples out over the channels and weaving them back gives the
/// samples again, for every channel count from one up and every sequence
/// whose length is a multiple of it.
pub proof fn lemma_interleave_deinterleave(data: Seq<u32>, n: int)
    requires
        n >= 1,
        data.len() as int % n == 0,
    ensures
        rectangular(deinterleave(data, n)),
        interleave(deinterleave(data, n)) == data,
{
    let rows = deinterleave(data, n);
    let frames = data.len() as int / n;
    lemma_frames(data.len() as int, n);
    assert(rows.len() * rows[0].len() == data.len()) by (nonlinear_arith)
        requires
            rows.len() == n,
            rows[0].len() == frames,
            frames * n == data.len(),
    ;
    assert forall|i: int| 0 <= i < data.len() implies #[trigger] interleave(rows)[i] == data[i] by {
        lemma_fundamental_div_mod(i, n);
        assert(0 <= i / n < frames) by (nonlinear_arith)
            requires
                0 <= i < frames * n,
                n >= 1,
        ;
        assert((i / n) * n == n * (i / n)) by (nonlinear_arith);
    }
    assert(interleave(rows) =~= data);
}

/// Weaving equally long channels together and dealing the result out again
/// gives the channels again.
pub proof fn lemma_deinterleave_interleave(rows: Seq<Seq<u32>>)
    requires
        rectangular(rows),
    ensures
        interleave(rows).len() % rows.len() == 0,
        deinterleave(interleave(rows), rows.len() as int) == rows,
{
    let n = rows.len() as int;
    let size = rows[0].len() as int;
    let data = interleave(rows);
    assert(data.len() == size * n) by (nonlinear_arith)
        requires
            data.len() == n * size,
    ;
    lemma_fundamental_div_mod_converse(data.len() as int, n, size, 0);
    let back = deinterleave(data, n);
    assert forall|c: int| 0 <= c < n implies #[trigger] back[c] =~= rows[c] by {
        assert forall|j: int| 0 <= j < size implies back[c][j] == rows[c][j] by {
            lemma_position(j, n, c, size);
        }
    }
    assert(back =~= rows);
}

/// Appending keeps the order of the samples: the channels with their
/// shares of `data` appended, woven together, are the channels woven
/// together, followed by `data`.
pub proof fn lemma_append_interleaved(rows: Seq<Seq<u32>>, data: Seq<u32>)
    requires
        rectangular(rows),
        data.len() % rows.len() == 0,
    ensures
        rectangular(append_interleaved(rows, data)),
        interleave(append_interleaved(rows, data)) == interleave(rows) + data,
{
    let n = rows.len() as int;
    let size = rows[0].len() as int;
    let more = data.len() as int / n;
    let after = append_interleaved(rows, data);
    lemma_frames(data.len() as int, n);
    assert forall|c: int| 0 <= c < n implies (#[trigger] after[c]).len() == size + more by {
        assert(rows[c].len() == size);
    }
    assert(n * (size + more) == n * size + more * n) by (nonlinear_arith);
    let woven = interleave(after);
    let wanted = interleave(rows) + data;
    assert(woven.len() == wanted.len());
    assert forall|i: int| 0 <= i < woven.len() implies woven[i] == wanted[i] by {
        let f = i / n;
        let c = i % n;
        lemma_fundamental_div_mod(i, n);
        assert(n * f == f * n) by (nonlinear_arith);
        assert(0 <= f < size + more) by (nonlinear_arith)
            requires
                0 <= i < n * (size + more),
                i == f * n + c,
                0 <= c < n,
        ;
        assert(rows[c].len() == size);
        if f < size {
            assert(i < n * size) by (nonlinear_arith)
                requires
                    i == f * n + c,
                    0 <= c < n,
                    0 <= f < size,
            ;
        } else {
            assert(i >= n * size) by (nonlinear_arith)
                requires
                    i == f * n + c,
                    0 <= c,
                    f >= size,
                    n >= 1,
            ;
            assert((f - size) * n + c == i - n * size) by (nonlinear_arith)
                requires
                    i == f * n + c,
            ;
        }
    }
    assert(woven =~= wanted);
}

/// Appends to each channel its share of `data`, frame by frame.
fn push_frames(channels: &mut Vec<Vec<u32>>, data: &[u32])
    requires
        old(channels).len() >= 1,
        data@.len() % old(channels)@.len() == 0,
    ensures
        rows_of(*final(channels)) == append_interleaved(rows_of(*old(channels)), data@),
{
    let n: usize = channels.len();
    let len: usize = data.len();
    let frames: usize = len / n;
    let ghost before = rows_of(*channels);
    proof {
        lemma_frames(data@.len() as int, n as int);
    }
    let mut f: usize = 0;
    while f < frames
        invariant
            n >= 1,
            channels.len() == n,
            before.len() == n,
            frames == data@.len() as int / (n as int),
            frames * n == data@.len(),
            data@.len() <= usize::MAX,
            f <= frames,
            forall|k: int|
                0 <= k < n ==> (#[trigger] channels@[k])@ == before[k] + channel_of(
                    data@,
                    n as int,
                    k,
                ).take(f as int),
        decreases frames - f,
    {
        let mut c: usize = 0;
        while c < n
            invariant
                n >= 1,
                channels.len() == n,
                before.len() == n,
                frames == data@.len() as int / (n as int),
                frames * n == data@.len(),
                data@.len() <= usize::MAX,
                f < frames,
                c <= n,
                forall|k: int|
                    0 <= k < c ==> (#[trigger] channels@[k])@ == before[k] + channel_of(
                        data@,
                        n as int,
                        k,
                    ).take(f as int + 1),
                forall|k: int|
                    c <= k < n ==> (#[trigger] channels@[k])@ == before[k] + channel_of(
                        data@,
                        n as int,
                        k,
                    ).take(f as int),
            decreases n - c,
        {
            proof {
                lemma_position(f as int, n as int, c as int, frames as int);
                assert(0 <= f * n) by (nonlinear_arith);
            }
            let v: u32 = data[f * n + c];
            channels[c].push(v);
            proof {
                let share = channel_of(data@, n as int, c as int);
                assert(share.take(f as int).push(v) =~= share.take(f as int + 1));
                assert(channels@[c as int]@ =~= before[c as int] + share.take(f as int + 1));
            }
            c += 1;
        }
        f += 1;
    }
    proof {
        let after = rows_of(*channels);
        let wanted = append_interleaved(before, data@);
        assert forall|k: int| 0 <= k < n implies #[trigger] after[k] == wanted[k] by {
            let share = channel_of(data@, n as int, k);
            assert(share.take(frames as int) =~= share);
        }
        assert(after =~= wanted);
    }
}

/// Samples of several channels, one sequence for each channel, all of one
/// length. A sample is the bit pattern of a 32-bit IEEE-754 number; the
/// buffer only moves samples and never computes with them.
#[derive(Debug)]
pub struct AudioBuffer {
    channels: Vec<Vec<u32>>,
}

impl View for AudioBuffer {
    type V = Seq<Seq<u32>>;

    closed spec fn view(&self) -> Seq<Seq<u32>> {
        rows_of(self.channels)
    }
}

impl AudioBuffer {
    #[verifier::type_invariant]
    spec fn well_formed(self) -> bool {
        rectangular(rows_of(self.channels))
    }

    /// A buffer of `num_channels` channels, each holding `size` zero samples.
    pub fn new_sized(num_channels: u32, size: usize) -> (buffer: AudioBuffer)
        requires
            num_channels > 0,
        ensures
            buffer@ == silence(num_channels as nat, size as nat),
    {
        let mut channels: Vec<Vec<u32>> = Vec::new();
        let mut c: u32 = 0;
        while c < num_channels
            invariant
                c <= num_channels,
                channels.len() == c,
                forall|k: int|
                    0 <= k < c ==> (#[trigger] channels@[k])@ == Seq::new(
                        size as nat,
                        |j: int| 0u32,
                    ),
            decreases num_channels - c,
        {
            let mut zeros: Vec<u32> = Vec::new();
            let mut j: usize = 0;
            while j < size
                invariant
                    j <= size,
                    zeros.len() == j,
                    forall|i: int| 0 <= i < j ==> zeros@[i] == 0u32,
                decreases size - j,
            {
                zeros.push(0u32);
                j += 1;
            }
            assert(zeros@ =~= Seq::new(size as nat, |j: int| 0u32));
            channels.push(zeros);
            c += 1;
        }
        assert(rows_of(channels) =~= silence(num_channels as nat, size as nat));
        AudioBuffer { channels }
    }

    /// A buffer of `num_channels` empty channels.
    pub fn new(num_channels: u32) -> (buffer: AudioBuffer)
        requires
            num_channels > 0,
        ensures
            buffer@ == silence(num_channels as nat, 0),
    {
        Self::new_sized(num_channels, 0)
    }

    /// Deals an interleaved block out over `num_channels` channels. The block
    /// is refused exactly when its length is no multiple of the channel count.
    pub fn from_interleafed(num_channels: u32, sample_block: &[u32]) -> (result: Result<
        AudioBuffer,
        StretchError,
    >)
        requires
            num_channels > 0,
        ensures
            result is Ok <==> sample_block@.len() % (num_channels as nat) == 0,
            result matches Ok(buffer) ==> buffer@ == deinterleave(
                sample_block@,
                num_channels as int,
            ) && interleave(buffer@) == sample_block@,
            result matches Err(e) ==> e == (StretchError::InvalidLayout {
                samples: sample_block@.len() as usize,
                channels: num_channels as usize,
            }),
    {
        let mut buffer = Self::new(num_channels);
        match buffer.push(sample_block) {
            Ok(()) => {
                proof {
                    let n = num_channels as int;
                    let got = append_interleaved(silence(num_channels as nat, 0), sample_block@);
                    let wanted = deinterleave(sample_block@, n);
                    assert forall|c: int| 0 <= c < n implies #[trigger] got[c] == wanted[c] by {
                        assert(got[c] =~= channel_of(sample_block@, n, c));
                    }
                    assert(got =~= wanted);
                    lemma_interleave_deinterleave(sample_block@, n);
                }
                Ok(buffer)
            },
            Err(e) => Err(e),
        }
    }

    /// Takes over channels that were filled elsewhere. They are refused
    /// exactly when there is none or when two of them differ in length.
    pub fn from_channels(channels: Vec<Vec<u32>>) -> (result: Result<AudioBuffer, StretchError>)
        ensures
            result is Ok <==> rectangular(rows_of(channels)),
            result matches Ok(buffer) ==> buffer@ == rows_of(channels),
            result matches Err(e) ==> e == StretchError::UnevenChannels,
    {
        if channels.len() == 0 {
            return Err(StretchError::UnevenChannels);
        }
        let size: usize = channels[0].len();
        let mut c: usize = 1;
        while c < channels.len()
            invariant
                1 <= c <= channels.len(),
                size == channels@[0]@.len(),
                forall|k: int| 0 <= k < c ==> (#[trigger] channels@[k])@.len() == size,
            decreases channels.len() - c,
        {
            if channels[c].len() != size {
                assert(rows_of(channels)[c as int].len() != rows_of(channels)[0].len());
                return Err(StretchError::UnevenChannels);
            }
            c += 1;
        }
        assert forall|k: int| 0 <= k < rows_of(channels).len() implies (#[trigger] rows_of(
            channels,
        )[k]).len() == rows_of(channels)[0].len() by {
            assert(channels@[k]@.len() == size);
        }
        Ok(AudioBuffer { channels })
    }

    /// The number of channels. There is at least one, and all channels are
    /// equally long.
    pub fn num_channels(&self) -> (n: usize)
        ensures
            n == self@.len(),
            rectangular(self@),
    {
        proof {
            use_type_invariant(self);
        }
        self.channels.len()
    }

    /// The number of samples that each channel holds.
    pub fn num_samples(&self) -> (n: usize)
        ensures
            n == self@[0].len(),
    {
        proof {
            use_type_invariant(self);
        }
        self.channels[0].len()
    }

    /// Appends an interleaved block, each channel keeping the order of its
    /// samples. The block is refused, and the buffer left as it was, exactly
    /// when its length is no multiple of the channel count.
    pub fn push(&mut self, sample: &[u32]) -> (result: Result<(), StretchError>)
        ensures
            result is Ok <==> sample@.len() % old(self)@.len() == 0,
            result is Ok ==> final(self)@ == append_interleaved(old(self)@, sample@),
            result is Ok ==> interleave(final(self)@) == interleave(old(self)@) + sample@,
            result matches Err(e) ==> final(self)@ == old(self)@ && e == (StretchError::InvalidLayout {
                samples: sample@.len() as usize,
                channels: old(self)@.len() as usize,
            }),
    {
        proof {
            use_type_invariant(&*self);
        }
        if sample.len() % self.channels.len() != 0 {
            return Err(
                StretchError::InvalidLayout {
                    samples: sample.len(),
                    channels: self.channels.len(),
                },
            );
        }
        let ghost before = rows_of(self.channels);
        let mut channels: Vec<Vec<u32>> = Vec::new();
        channels.push(Vec::new());
        core::mem::swap(&mut channels, &mut self.channels);
        push_frames(&mut channels, sample);
        self.channels = channels;
        proof {
            lemma_append_interleaved(before, sample@);
        }
        Ok(())
    }

    /// Empties every channel; the number of channels stays.
    pub fn clear(&mut self)
        ensures
            final(self)@ == silence(old(self)@.len(), 0),
    {
        proof {
            use_type_invariant(&*self);
        }
        let n: usize = self.channels.len();
        let mut emptied: Vec<Vec<u32>> = Vec::new();
        let mut c: usize = 0;
        while c < n
            invariant
                c <= n,
                emptied.len() == c,
                forall|k: int| 0 <= k < c ==> (#[trigger] emptied@[k])@.len() == 0,
            decreases n - c,
        {
            emptied.push(Vec::new());
            c += 1;
        }
        proof {
            let after = rows_of(emptied);
            let wanted = silence(n as nat, 0);
            assert forall|k: int| 0 <= k < n implies #[trigger] after[k] == wanted[k] by {
                assert(emptied@[k]@ =~= wanted[k]);
            }
            assert(after =~= wanted);
        }
        self.channels = emptied;
    }

    /// Puts an interleaved block in place of what the buffer holds. The
    /// block is refused, and the buffer left as it was, exactly when its
    /// length is no multiple of the channel count.
    pub fn replace(&mut self, sample: &[u32]) -> (result: Result<(), StretchError>)
        ensures
            result is Ok <==> sample@.len() % old(self)@.len() == 0,
            result is Ok ==> final(self)@ == deinterleave(sample@, old(self)@.len() as int),
            result matches Err(e) ==> final(self)@ == old(self)@ && e == (StretchError::InvalidLayout {
                samples: sample@.len() as usize,
                channels: old(self)@.len() as usize,
            }),
    {
        proof {
            use_type_invariant(&*self);
        }
        if sample.len() % self.channels.len() != 0 {
            return Err(
                StretchError::InvalidLayout {
                    samples: sample.len(),
                    channels: self.channels.len(),
                },
            );
        }
        let ghost n = self@.len() as int;
        self.clear();
        let pushed = self.push(sample);
        proof {
            let got = append_interleaved(silence(n as nat, 0), sample@);
            let wanted = deinterleave(sample@, n);
            assert forall|c: int| 0 <= c < n implies #[trigger] got[c] == wanted[c] by {
                assert(got[c] =~= channel_of(sample@, n, c));
            }
            assert(got =~= wanted);
        }
        pushed
    }

    /// The samples of channel `i`.
    pub fn channel(&self, i: usize) -> (samples: &Vec<u32>)
        requires
            i < self@.len(),
        ensures
            samples@ == self@[i as int],
    {
        &self.channels[i]
    }

    /// The channels woven into one interleaved sequence, frame by frame.
    pub fn to_interleaved(&self) -> (output: Vec<u32>)
        ensures
            output@ == interleave(self@),
    {
        proof {
            use_type_invariant(self);
        }
        let n: usize = self.channels.len();
        let size: usize = self.channels[0].len();
        let ghost rows = rows_of(self.channels);
        let mut output: Vec<u32> = Vec::new();
        let mut s: usize = 0;
        while s < size
            invariant
                n >= 1,
                n == self.channels.len(),
                rows == rows_of(self.channels),
                rectangular(rows),
                size == rows[0].len(),
                s <= size,
                output@.len() == s * n,
                forall|i: int|
                    0 <= i < output@.len() ==> #[trigger] output@[i] == rows[i % (n as int)][i / (
                    n as int)],
            decreases size - s,
        {
            let mut c: usize = 0;
            while c < n
                invariant
                    n >= 1,
                    n == self.channels.len(),
                    rows == rows_of(self.channels),
                    rectangular(rows),
                    size == rows[0].len(),
                    s < size,
                    c <= n,
                    output@.len() == s * n + c,
                    forall|i: int|
                        0 <= i < output@.len() ==> #[trigger] output@[i] == rows[i % (
                        n as int)][i / (n as int)],
                decreases n - c,
            {
                proof {
                    lemma_position(s as int, n as int, c as int, size as int);
                    assert(rows[c as int].len() == rows[0].len());
                }
                let v: u32 = self.channels[c][s];
                output.push(v);
                c += 1;
            }
            assert((s + 1) * n == s * n + n) by (nonlinear_arith);
            s += 1;
        }
        proof {
            assert(n * size == size * n) by (nonlinear_arith);
            assert(output@ =~= interleave(rows));
        }
        output
    }
}

} // verus!
