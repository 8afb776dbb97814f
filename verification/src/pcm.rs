//! Raw sound: a stream of bytes cut into frames, and bytes read as samples.
use crate::buffer;
use bytes::BytesMut;
use vstd::prelude::*;

verus! {

/// The bytes of a stream that are not handed out yet.
pub struct FrameBuffer {
    frame_bytes: usize,
    data: BytesMut,
}

/// The bytes of a stream that are not handed out yet, apart from how they are stored.
#[verifier::ext_equal]
pub struct FrameBufferModel {
    pub frame_bytes: usize,
    pub data: Seq<u8>,
}

impl View for FrameBuffer {
    type V = FrameBufferModel;

    closed spec fn view(&self) -> FrameBufferModel {
        FrameBufferModel { frame_bytes: self.frame_bytes, data: buffer::held(self.data) }
    }
}

impl FrameBuffer {
    /// Nothing has come yet of a stream that is cut into frames of some length.
    pub fn new(frame_bytes: usize) -> (r: FrameBuffer)
        ensures
            r@ == (FrameBufferModel { frame_bytes, data: Seq::empty() }),
    {
        FrameBuffer { frame_bytes, data: buffer::new_buffer() }
    }

    /// Drops what is not handed out yet.
    pub fn clear(&mut self)
        ensures
            final(self)@ == (FrameBufferModel { data: Seq::empty(), ..old(self)@ }),
    {
        buffer::buffer_clear(&mut self.data);
    }

    /// Takes in more of the stream.
    pub fn push(&mut self, bytes: &[u8])
        requires
            old(self)@.data.len() + bytes@.len() <= isize::MAX,
        ensures
            final(self)@ == (FrameBufferModel { data: old(self)@.data + bytes@, ..old(self)@ }),
    {
        buffer::buffer_extend(&mut self.data, bytes);
    }

    /// Hands out the next frame, where it is there in full.
    pub fn next_pcm_frame(&mut self) -> (r: Option<Vec<u8>>)
        ensures
            match r {
                Some(frame) => {
                    &&& old(self)@.data.len() >= old(self)@.frame_bytes
                    &&& frame@ == old(self)@.data.take(old(self)@.frame_bytes as int)
                    &&& final(self)@ == (FrameBufferModel {
                        data: old(self)@.data.skip(old(self)@.frame_bytes as int),
                        ..old(self)@
                    })
                },
                None => old(self)@.data.len() < old(self)@.frame_bytes && final(self)@ == old(
                    self,
                )@,
            },
            old(self)@.frame_bytes > 0 ==> {
                let n = old(self)@.frame_bytes as nat;
                &&& leftover(final(self)@.data, n) == leftover(old(self)@.data, n)
                &&& match r {
                    Some(frame) => frames(old(self)@.data, n) == seq![frame@] + frames(
                        final(self)@.data,
                        n,
                    ),
                    None => frames(old(self)@.data, n).len() == 0,
                }
            },
    {
        if buffer::buffer_slice(&self.data).len() < self.frame_bytes {
            return None;
        }
        let front = buffer::buffer_split_to(&mut self.data, self.frame_bytes);
        Some(vstd::slice::slice_to_vec(buffer::buffer_slice(&front)))
    }
}

/// The whole frames of a stream.
pub open spec fn frames(data: Seq<u8>, n: nat) -> Seq<Seq<u8>>
    decreases data.len(),
{
    if n == 0 || data.len() < n {
        Seq::empty()
    } else {
        seq![data.take(n as int)] + frames(data.skip(n as int), n)
    }
}

/// What is left of a stream behind its last whole frame.
pub open spec fn leftover(data: Seq<u8>, n: nat) -> Seq<u8>
    decreases data.len(),
{
    if n == 0 || data.len() < n {
        data
    } else {
        leftover(data.skip(n as int), n)
    }
}

/// Wherever a stream is cut on its way in, the frames that come out are those of the whole.
pub proof fn law_frames_do_not_depend_on_cuts(a: Seq<u8>, b: Seq<u8>, n: nat)
    requires
        n > 0,
    ensures
        frames(a + b, n) == frames(a, n) + frames(leftover(a, n) + b, n),
        leftover(a + b, n) == leftover(leftover(a, n) + b, n),
    decreases a.len(),
{
    if a.len() >= n {
        assert((a + b).take(n as int) =~= a.take(n as int));
        assert((a + b).skip(n as int) =~= a.skip(n as int) + b);
        law_frames_do_not_depend_on_cuts(a.skip(n as int), b, n);
        assert(frames(a + b, n) =~= frames(a, n) + frames(leftover(a, n) + b, n));
    } else {
        assert(frames(a + b, n) =~= frames(a, n) + frames(leftover(a, n) + b, n));
    }
}

/// The frames of a stream and what is left behind them are the stream.
pub proof fn law_frames_lose_nothing(data: Seq<u8>, n: nat)
    requires
        n > 0,
    ensures
        data.len() == frames(data, n).len() * n + leftover(data, n).len(),
        leftover(data, n).len() < n,
        forall|i: int|
            0 <= i < frames(data, n).len() ==> #[trigger] frames(data, n)[i] == data.subrange(
                i * n,
                (i + 1) * n,
            ),
    decreases data.len(),
{
    if data.len() >= n {
        let rest = data.skip(n as int);
        law_frames_lose_nothing(rest, n);
        let count = frames(rest, n).len() as int;
        assert(frames(data, n).len() == count + 1);
        assert((count + 1) * n == count * n + n) by (nonlinear_arith);
        assert forall|i: int| 0 <= i < frames(data, n).len() implies #[trigger] frames(data, n)[i]
            == data.subrange(i * n, (i + 1) * n) by {
            assert((i + 1) * n == i * n + n) by (nonlinear_arith);
            if i == 0 {
                assert(data.subrange(0, n as int) =~= data.take(n as int));
            } else {
                let j = i - 1;
                assert(frames(rest, n)[j] == rest.subrange(j * n, (j + 1) * n));
                assert(i * n == j * n + n) by (nonlinear_arith)
                    requires
                        i == j + 1,
                ;
                assert((j + 1) * n <= count * n) by (nonlinear_arith)
                    requires
                        j + 1 <= count,
                        n > 0,
                ;
                assert(j * n >= 0) by (nonlinear_arith)
                    requires
                        j >= 0,
                        n > 0,
                ;
                assert(rest.subrange(j * n, (j + 1) * n) =~= data.subrange(i * n, (i + 1) * n));
            }
        }
    } else {
        assert(0 * n == 0) by (nonlinear_arith);
    }
}

/// A sample of 16 bits, the low byte first.
pub open spec fn sample(lo: u8, hi: u8) -> i16 {
    if hi < 0x80 {
        (hi * 0x100 + lo) as i16
    } else {
        (hi * 0x100 + lo - 0x1_0000) as i16
    }
}

/// The samples in a run of bytes; a byte too many is left out.
pub open spec fn samples(data: Seq<u8>) -> Seq<i16> {
    Seq::new(data.len() / 2, |i: int| sample(data[2 * i], data[2 * i + 1]))
}

fn read_sample(lo: u8, hi: u8) -> (r: i16)
    ensures
        r == sample(lo, hi),
{
    let v: i32 = hi as i32 * 0x100 + lo as i32;
    if hi < 0x80 {
        v as i16
    } else {
        (v - 0x1_0000) as i16
    }
}

/// Reads the samples in a run of bytes.
pub fn pcm_to_samples(data: &[u8]) -> (r: Vec<i16>)
    ensures
        r@ == samples(data@),
{
    let mut out: Vec<i16> = Vec::new();
    let count: usize = data.len() / 2;
    let mut i: usize = 0;
    while i < count
        invariant
            i <= count,
            count == data.len() / 2,
            data.len() == data@.len(),
            out@ == samples(data@).take(i as int),
        decreases count - i,
    {
        out.push(read_sample(data[2 * i], data[2 * i + 1]));
        i += 1;
        assert(samples(data@).take(i as int) =~= samples(data@).take(i - 1).push(
            samples(data@)[i - 1],
        ));
    }
    assert(samples(data@).take(i as int) =~= samples(data@));
    out
}

/// The sum of the squares of samples.
pub open spec fn energy(s: Seq<i16>) -> nat
    decreases s.len(),
{
    if s.len() == 0 {
        0
    } else {
        energy(s.drop_last()) + (s.last() * s.last()) as nat
    }
}

proof fn lemma_square(x: i16)
    ensures
        0 <= x * x <= 0x4000_0000,
{
    assert(0 <= x * x <= 0x4000_0000) by (nonlinear_arith)
        requires
            -0x8000 <= x <= 0x7fff,
    ;
}

/// Adds up the squares of samples.
pub fn sample_energy(s: &Vec<i16>) -> (r: u64)
    requires
        s@.len() <= 0xffff_ffff,
    ensures
        r == energy(s@),
{
    let mut sum: u64 = 0;
    let mut i: usize = 0;
    assert(s@.take(0) =~= Seq::empty());
    while i < s.len()
        invariant
            i <= s.len() <= 0xffff_ffff,
            sum == energy(s@.take(i as int)),
            sum <= i * 0x4000_0000,
        decreases s.len() - i,
    {
        let x: i64 = s[i] as i64;
        proof {
            lemma_square(s@[i as int]);
            assert(s@.take(i + 1).drop_last() =~= s@.take(i as int));
            assert(x * x == s@[i as int] * s@[i as int]);
        }
        let square: u64 = (x * x) as u64;
        sum = sum + square;
        i += 1;
    }
    assert(s@.take(i as int) =~= s@);
    sum
}

/// A sample is the number that its two bytes make, the low byte first, in two's complement.
pub proof fn law_sample_is_its_bytes(lo: u8, hi: u8)
    ensures
        sample(lo, hi) == hi * 0x100 + lo || sample(lo, hi) == hi * 0x100 + lo - 0x1_0000,
        sample(lo, hi) < 0 <==> hi >= 0x80,
{
}

/// The samples of a stream that is cut between two samples are those of its parts.
pub proof fn law_samples_do_not_depend_on_cuts(a: Seq<u8>, b: Seq<u8>)
    requires
        a.len() % 2 == 0,
    ensures
        samples(a + b) == samples(a) + samples(b),
        samples(a).len() * 2 == a.len(),
{
    assert(samples(a + b) =~= samples(a) + samples(b));
}

/// Every sample adds its square to the energy, wherever it stands; only silence has none.
pub proof fn law_energy_adds_up(a: Seq<i16>, b: Seq<i16>, x: i16)
    ensures
        energy(a + b) == energy(a) + energy(b),
        energy(seq![x]) == x * x,
        energy(a) == 0 <==> forall|i: int| 0 <= i < a.len() ==> #[trigger] a[i] == 0,
    decreases b.len(), a.len(),
{
    lemma_square(x);
    assert(seq![x].drop_last() =~= Seq::<i16>::empty());
    assert(energy(Seq::<i16>::empty()) == 0);
    if b.len() > 0 {
        law_energy_adds_up(a, b.drop_last(), x);
        assert((a + b).drop_last() =~= a + b.drop_last());
    } else {
        assert(a + b =~= a);
        if a.len() > 0 {
            law_energy_adds_up(a.drop_last(), b, x);
            let last = a.last();
            lemma_square(last);
            assert(last * last == 0 <==> last == 0) by (nonlinear_arith);
            if energy(a) == 0 {
                assert forall|i: int| 0 <= i < a.len() implies #[trigger] a[i] == 0 by {
                    if i < a.len() - 1 {
                        assert(a.drop_last()[i] == a[i]);
                    }
                }
            }
            if forall|i: int| 0 <= i < a.len() ==> #[trigger] a[i] == 0 {
                assert forall|i: int| 0 <= i < a.drop_last().len() implies #[trigger]
                    a.drop_last()[i] == 0 by {
                    assert(a.drop_last()[i] == a[i]);
                }
                assert(a[a.len() - 1] == 0);
            }
        }
    }
}

} // verus!
