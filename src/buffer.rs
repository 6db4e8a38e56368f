//! A multi-channel sample buffer. Channels are stored one after the other in
//! a single vector (not interleaved): channel `c` occupies the index range
//! `[c * frames, (c + 1) * frames)` of the storage.

use vstd::arithmetic::div_mod::{lemma_fundamental_div_mod, lemma_mod_pos_bound};
use vstd::laws_eq::{obeys_eq, obeys_eq_spec_properties};
use vstd::prelude::*;
use vstd::std_specs::cmp::PartialEqSpec;

use crate::units::{Channels, Samples};

verus! {

/// `v` is a value that `T::default()` may return.
pub open spec fn is_default_value<T: Default>(v: T) -> bool {
    call_ensures(T::default, (), v)
}

/// `==` on `T` is symmetric and transitive, and any two values that
/// `T::default()` returns compare equal, as with integer or floating-point
/// samples.
pub open spec fn lawful_default<T: Default + PartialEq>() -> bool {
    &&& obeys_eq::<T>()
    &&& forall|a: T, b: T|
        is_default_value(a) && is_default_value(b) ==> #[trigger] a.eq_spec(&b)
}

/// Multi-channel buffer for any type of audio. It has some utility
/// functions that make common audio related tasks simpler.
#[derive(Clone, Debug)]
pub struct Buffer<T> {
    /// The stored data, channels one after the other (not interleaved).
    data: Vec<T>,
    num_channels: Channels,
    num_samples: Samples,
}

impl<T> Buffer<T> {
    /// The number of channels.
    pub closed spec fn channel_count(&self) -> nat {
        self.num_channels.0 as nat
    }

    /// The number of samples in each channel (frames).
    pub closed spec fn frame_count(&self) -> nat {
        self.num_samples.0 as nat
    }

    /// The whole storage, channel after channel.
    pub closed spec fn samples(&self) -> Seq<T> {
        self.data@
    }

    /// The storage holds exactly `channels * frames` samples, and that number
    /// fits in `usize`, as does a channel's length.
    pub open spec fn wf(&self) -> bool {
        &&& self.frame_count() <= usize::MAX
        &&& self.samples().len() <= usize::MAX
        &&& self.samples().len() == self.channel_count() * self.frame_count()
    }

    /// The sample of channel `c` at frame `f`.
    pub open spec fn sample_at(&self, c: int, f: int) -> T {
        self.samples()[c * self.frame_count() + f]
    }

    /// The samples of channel `c`, in frame order.
    pub open spec fn channel_view(&self, c: int) -> Seq<T> {
        self.samples().subrange(c * self.frame_count(), c * self.frame_count() + self.frame_count())
    }

    /// Both buffers have the same number of channels and frames.
    pub open spec fn same_shape(&self, other: &Buffer<T>) -> bool {
        &&& self.channel_count() == other.channel_count()
        &&& self.frame_count() == other.frame_count()
    }

    /// `self` holds, at each place, a result of `func` on what `before` held
    /// there.
    pub open spec fn is_mapped_from<F: Fn(T) -> T>(&self, before: &Buffer<T>, func: F) -> bool {
        &&& self.samples().len() == before.samples().len()
        &&& forall|i: int|
            0 <= i < self.samples().len() ==> func.ensures((before.samples()[i],), #[trigger] self.samples()[i])
    }
}

impl<T: Default> Buffer<T> {
    /// Every stored sample is a default value.
    pub open spec fn all_default_values(&self) -> bool {
        forall|i: int| 0 <= i < self.samples().len() ==> is_default_value(#[trigger] self.samples()[i])
    }
}

impl<T: Default + PartialEq> Buffer<T> {
    /// Every stored sample compares equal to the default value.
    pub open spec fn is_silent(&self) -> bool {
        forall|i: int, d: T|
            0 <= i < self.samples().len() && is_default_value(d) ==> #[trigger] self.samples()[i].eq_spec(&d)
    }
}

/// A buffer whose samples are all default values, as `allocate` and
/// `fill_default` leave it, is reported by `is_default_filled` as filled with
/// the default value, for any sample type whose `==` is lawful.
pub proof fn lemma_default_values_are_silent<T: Default + PartialEq>(b: Buffer<T>)
    requires
        lawful_default::<T>(),
        b.all_default_values(),
    ensures
        b.is_silent(),
{
    assert forall|i: int, d: T| 0 <= i < b.samples().len() && is_default_value(d) implies #[trigger] b.samples()[i].eq_spec(&d) by {
        assert(is_default_value(b.samples()[i]));
    }
}

/// Mapping every sample through a function that always returns `v` leaves
/// `v` at every frame of every channel.
pub proof fn lemma_map_to_constant<T, F: Fn(T) -> T>(before: Buffer<T>, after: Buffer<T>, func: F, v: T)
    requires
        after.wf(),
        after.is_mapped_from(&before, func),
        forall|x: T, y: T| #[trigger] func.ensures((x,), y) ==> y == v,
    ensures
        forall|c: int, f: int|
            0 <= c < after.channel_count() && 0 <= f < after.frame_count() ==> #[trigger] after.channel_view(c)[f] == v,
{
    assert forall|c: int, f: int|
        0 <= c < after.channel_count() && 0 <= f < after.frame_count() implies #[trigger] after.channel_view(c)[f] == v by {
        lemma_channel_in_bounds(c, after.channel_count() as int, after.frame_count() as int);
        let i = c * after.frame_count() + f;
        assert(after.channel_view(c)[f] == after.samples()[i]);
        assert(func.ensures((before.samples()[i],), after.samples()[i]));
    }
}

/// Channel `c` of a buffer with `channels` channels of `frames` samples lies
/// inside the storage.
proof fn lemma_channel_in_bounds(c: int, channels: int, frames: int)
    requires
        0 <= c < channels,
        0 <= frames,
    ensures
        0 <= c * frames,
        c * frames + frames <= channels * frames,
{
    assert(c * frames + frames <= channels * frames) by (nonlinear_arith)
        requires
            0 <= c < channels,
            0 <= frames,
    ;
    assert(0 <= c * frames) by (nonlinear_arith)
        requires
            0 <= c,
            0 <= frames,
    ;
}

/// Frame `f` of channel `c` has a place of its own in the storage.
proof fn lemma_flat_index(c: int, f: int, channels: int, frames: int)
    requires
        0 <= c < channels,
        0 <= f < frames,
    ensures
        0 <= c * frames + f < channels * frames,
        forall|c2: int, f2: int|
            0 <= f2 < frames && #[trigger] (c2 * frames + f2) == c * frames + f ==> c2 == c && f2 == f,
{
    lemma_channel_in_bounds(c, channels, frames);
    assert forall|c2: int, f2: int|
        0 <= f2 < frames && #[trigger] (c2 * frames + f2) == c * frames + f implies c2 == c && f2 == f by {
        assert(c2 == c) by (nonlinear_arith)
            requires
                0 <= f < frames,
                0 <= f2 < frames,
                c2 * frames + f2 == c * frames + f,
        ;
    }
}

impl<T> Buffer<T> where T: Copy + Default + PartialEq {
    /// Tells you whether the buffer is filled with the default value of the contained type.
    /// This is useful to check if the complete buffer is silent for example.
    pub fn is_default_filled(&self) -> (r: bool)
        requires
            self.wf(),
        ensures
            lawful_default::<T>() ==> r == self.is_silent(),
    {
        let d = T::default();
        let n = self.data.len();
        let mut i: usize = 0;
        while i < n
            invariant
                self.wf(),
                n == self.samples().len(),
                is_default_value(d),
                0 <= i <= n,
                T::obeys_eq_spec() ==> forall|j: int| 0 <= j < i ==> #[trigger] self.samples()[j].eq_spec(&d),
            decreases n - i,
        {
            if !(self.data[i] == d) {
                return false;
            }
            i += 1;
        }
        proof {
            if lawful_default::<T>() {
                reveal(obeys_eq_spec_properties);
                assert forall|j: int, e: T| 0 <= j < n && is_default_value(e) implies #[trigger] self.samples()[j].eq_spec(&e) by {
                    assert(self.samples()[j].eq_spec(&d));
                    assert(d.eq_spec(&e));
                }
            }
        }
        true
    }
}

impl<T> Buffer<T> where T: Copy + Default {
    /// Allocates a new buffer with the given number of channels and samples
    /// per channel, every sample set to the default value of `T`.
    pub fn allocate(num_channels: Channels, num_samples: Samples) -> (r: Self)
        requires
            num_samples.0 <= usize::MAX,
            num_channels.0 as int * num_samples.0 as int <= usize::MAX,
        ensures
            r.wf(),
            r.channel_count() == num_channels.0,
            r.frame_count() == num_samples.0,
            r.all_default_values(),
    {
        assert(num_samples.0 as int * num_channels.0 as int <= usize::MAX) by (nonlinear_arith)
            requires
                num_channels.0 as int * num_samples.0 as int <= usize::MAX,
        ;
        let total_num_samples = num_samples.as_usize() * num_channels.as_usize();
        let mut data: Vec<T> = Vec::with_capacity(total_num_samples);
        let d = T::default();
        let mut i: usize = 0;
        while i < total_num_samples
            invariant
                0 <= i <= total_num_samples,
                data@.len() == i,
                is_default_value(d),
                forall|j: int| 0 <= j < i ==> data@[j] == d,
            decreases total_num_samples - i,
        {
            data.push(d);
            i += 1;
        }
        Buffer { data, num_channels, num_samples }
    }

    /// Returns a reference to the given channel (indexing starts at 0).
    pub fn chan(&self, index: usize) -> (r: &[T])
        requires
            self.wf(),
            index < self.channel_count(),
        ensures
            r@ == self.channel_view(index as int),
            r@.len() == self.frame_count(),
    {
        proof {
            lemma_channel_in_bounds(index as int, self.channel_count() as int, self.frame_count() as int);
        }
        let frames = self.num_samples.as_usize();
        let start = index * frames;
        let end = start + frames;
        &self.data[start..end]
    }

    /// Returns a mutable reference to the given channel (indexing starts at 0).
    /// What is written through it lands in that channel's range of the
    /// storage; the rest of the buffer is left as it was.
    pub fn chan_mut(&mut self, index: usize) -> (r: &mut [T])
        requires
            old(self).wf(),
            index < old(self).channel_count(),
        ensures
            r@ == old(self).channel_view(index as int),
            r@.len() == old(self).frame_count(),
            final(self).channel_count() == old(self).channel_count(),
            final(self).frame_count() == old(self).frame_count(),
            final(r)@.len() == r@.len() ==> final(self).wf(),
            final(self).samples() == old(self).samples().subrange(
                0,
                index * old(self).frame_count(),
            ) + final(r)@ + old(self).samples().subrange(
                index * old(self).frame_count() + old(self).frame_count(),
                old(self).samples().len() as int,
            ),
    {
        proof {
            lemma_channel_in_bounds(index as int, self.channel_count() as int, self.frame_count() as int);
        }
        let frames = self.num_samples.as_usize();
        let start = index * frames;
        let whole = self.data.as_mut_slice();
        let (_before, rest) = whole.split_at_mut(start);
        let (channel, _after) = rest.split_at_mut(frames);
        channel
    }

    /// Writes `value` at frame `frame` of channel `channel`, through `chan_mut`.
    fn write_sample(&mut self, channel: usize, frame: usize, value: T)
        requires
            old(self).wf(),
            channel < old(self).channel_count(),
            frame < old(self).frame_count(),
        ensures
            final(self).wf(),
            final(self).same_shape(old(self)),
            final(self).samples() == old(self).samples().update(
                channel * old(self).frame_count() + frame,
                value,
            ),
    {
        proof {
            lemma_channel_in_bounds(channel as int, self.channel_count() as int, self.frame_count() as int);
        }
        let ghost before = *self;
        self.chan_mut(channel)[frame] = value;
        proof {
            let start = channel * before.frame_count();
            let end = start + before.frame_count();
            assert(self.samples() =~= before.samples().update(start + frame, value)) by {
                assert(before.samples() =~= before.samples().subrange(0, start) + before.channel_view(channel as int)
                    + before.samples().subrange(end, before.samples().len() as int));
            }
        }
    }

    /// Creates a new buffer with the given size, copying all data from self
    /// that fits into it. Samples beyond the old size are default values.
    pub fn clone_resized(&self, num_channels: Channels, num_samples: Samples) -> (r: Self)
        requires
            self.wf(),
            num_samples.0 <= usize::MAX,
            num_channels.0 as int * num_samples.0 as int <= usize::MAX,
        ensures
            r.wf(),
            r.channel_count() == num_channels.0,
            r.frame_count() == num_samples.0,
            forall|c: int, f: int|
                0 <= c < r.channel_count() && 0 <= f < r.frame_count() ==> {
                    if c < self.channel_count() && f < self.frame_count() {
                        #[trigger] r.sample_at(c, f) == self.sample_at(c, f)
                    } else {
                        is_default_value(r.sample_at(c, f))
                    }
                },
    {
        let mut target = Self::allocate(num_channels, num_samples);
        let chans = if self.num_channels.0 < num_channels.0 {
            self.num_channels.as_usize()
        } else {
            num_channels.as_usize()
        };
        let samps = if self.num_samples.0 < num_samples.0 {
            self.num_samples.as_usize()
        } else {
            num_samples.as_usize()
        };
        let ghost new_c = num_channels.0 as int;
        let ghost new_f = num_samples.0 as int;
        assert forall|c: int, f: int| 0 <= c < new_c && 0 <= f < new_f implies
            is_default_value(#[trigger] target.sample_at(c, f)) by {
            lemma_flat_index(c, f, new_c, new_f);
        }
        let mut channel: usize = 0;
        while channel < chans
            invariant
                self.wf(),
                target.wf(),
                target.channel_count() == new_c,
                target.frame_count() == new_f,
                chans <= self.channel_count() && chans <= new_c,
                samps <= self.frame_count() && samps <= new_f,
                chans == self.channel_count() || chans == new_c,
                samps == self.frame_count() || samps == new_f,
                0 <= channel <= chans,
                forall|c: int, f: int|
                    0 <= c < new_c && 0 <= f < new_f ==> {
                        if c < channel && f < samps {
                            #[trigger] target.sample_at(c, f) == self.sample_at(c, f)
                        } else {
                            is_default_value(target.sample_at(c, f))
                        }
                    },
            decreases chans - channel,
        {
            let mut sample: usize = 0;
            while sample < samps
                invariant
                    self.wf(),
                    target.wf(),
                    target.channel_count() == new_c,
                    target.frame_count() == new_f,
                    chans <= self.channel_count() && chans <= new_c,
                    samps <= self.frame_count() && samps <= new_f,
                    0 <= channel < chans,
                    0 <= sample <= samps,
                    forall|c: int, f: int|
                        0 <= c < new_c && 0 <= f < new_f ==> {
                            if (c < channel || (c == channel && f < sample)) && f < samps {
                                #[trigger] target.sample_at(c, f) == self.sample_at(c, f)
                            } else {
                                is_default_value(target.sample_at(c, f))
                            }
                        },
                decreases samps - sample,
            {
                proof {
                    lemma_flat_index(channel as int, sample as int, self.channel_count() as int, self.frame_count() as int);
                    lemma_flat_index(channel as int, sample as int, new_c, new_f);
                }
                let source = self.chan(channel);
                let value = source[sample];
                assert(value == self.sample_at(channel as int, sample as int)) by {
                    lemma_channel_in_bounds(channel as int, self.channel_count() as int, self.frame_count() as int);
                    assert(source@[sample as int] == self.channel_view(channel as int)[sample as int]);
                }
                let ghost before = target;
                target.write_sample(channel, sample, value);
                proof {
                    assert forall|c: int, f: int| 0 <= c < new_c && 0 <= f < new_f implies {
                        if (c < channel || (c == channel && f <= sample)) && f < samps {
                            #[trigger] target.sample_at(c, f) == self.sample_at(c, f)
                        } else {
                            is_default_value(target.sample_at(c, f))
                        }
                    } by {
                        lemma_flat_index(c, f, new_c, new_f);
                        if c != channel || f != sample {
                            assert(target.sample_at(c, f) == before.sample_at(c, f));
                        }
                    }
                }
                sample += 1;
            }
            channel += 1;
        }
        target
    }

    /// Copies the content of self into the given target buffer, which must
    /// have the same number of channels and samples.
    pub fn copy_into(&self, dest: &mut Self)
        requires
            self.wf(),
            old(dest).wf(),
            self.same_shape(old(dest)),
        ensures
            final(dest).wf(),
            final(dest).same_shape(old(dest)),
            final(dest).samples() == self.samples(),
    {
        let n = self.data.len();
        let mut i: usize = 0;
        while i < n
            invariant
                self.wf(),
                dest.wf(),
                dest.same_shape(self),
                n == self.samples().len(),
                0 <= i <= n,
                forall|j: int| 0 <= j < i ==> #[trigger] dest.samples()[j] == self.samples()[j],
            decreases n - i,
        {
            dest.data[i] = self.data[i];
            i += 1;
        }
        assert(dest.samples() =~= self.samples());
    }

    /// Fills the buffer with the default value of the given type `T`. This can be useful to
    /// make the buffer silent for example.
    pub fn fill_default(&mut self)
        requires
            old(self).wf(),
        ensures
            final(self).wf(),
            final(self).same_shape(old(self)),
            final(self).all_default_values(),
    {
        let d = T::default();
        let n = self.data.len();
        let mut i: usize = 0;
        while i < n
            invariant
                self.wf(),
                self.same_shape(old(self)),
                n == self.samples().len(),
                is_default_value(d),
                0 <= i <= n,
                forall|j: int| 0 <= j < i ==> #[trigger] self.samples()[j] == d,
            decreases n - i,
        {
            self.data[i] = d;
            i += 1;
        }
    }

    /// Applies the given map function to all samples in the buffer, in storage
    /// order (channel after channel). This can be useful for multiplying all
    /// samples by some value, for example.
    pub fn map_samples<F: Fn(T) -> T>(&mut self, func: F)
        requires
            old(self).wf(),
            forall|i: int| 0 <= i < old(self).samples().len() ==> #[trigger] func.requires((old(self).samples()[i],)),
        ensures
            final(self).wf(),
            final(self).same_shape(old(self)),
            final(self).is_mapped_from(old(self), func),
    {
        let n = self.data.len();
        let mut i: usize = 0;
        while i < n
            invariant
                self.wf(),
                self.same_shape(old(self)),
                n == self.samples().len(),
                n == old(self).samples().len(),
                0 <= i <= n,
                forall|j: int| 0 <= j < n ==> #[trigger] func.requires((old(self).samples()[j],)),
                forall|j: int| 0 <= j < i ==> func.ensures((old(self).samples()[j],), #[trigger] self.samples()[j]),
                forall|j: int| i <= j < n ==> #[trigger] self.samples()[j] == old(self).samples()[j],
            decreases n - i,
        {
            let mapped = func(self.data[i]);
            self.data[i] = mapped;
            i += 1;
        }
    }

    /// Returns a reference to the internal buffer. Channels are stored one after the other,
    /// so **not** interleaved!
    pub fn data(&self) -> (r: &[T])
        ensures
            r@ == self.samples(),
    {
        self.data.as_slice()
    }

    /// Returns a mutable reference to the internal buffer. Channels are stored one after the other,
    /// so **not** interleaved!
    pub fn data_mut(&mut self) -> (r: &mut [T])
        ensures
            r@ == old(self).samples(),
            final(self).same_shape(old(self)),
            final(self).samples() == final(r)@,
    {
        self.data.as_mut_slice()
    }

    /// Gives you the channel numbers as a range. This can be useful when you want to iterate over
    /// the channel indices.
    pub fn channel_indices(&self) -> (r: std::ops::Range<usize>)
        ensures
            r.start == 0,
            r.end == self.channel_count(),
    {
        0..self.num_channels.as_usize()
    }

    /// Gives you the sample indices as a range. This can be useful when you want to use the
    /// sample index in the loop for some reason.
    pub fn sample_indices(&self) -> (r: std::ops::Range<usize>)
        requires
            self.wf(),
        ensures
            r.start == 0,
            r.end == self.frame_count(),
    {
        0..self.num_samples.as_usize()
    }

    /// Returns the number of channels in the buffer.
    pub fn num_channels(&self) -> (r: Channels)
        ensures
            r.0 == self.channel_count(),
    {
        self.num_channels
    }

    /// Returns the number of samples that each channel contains
    /// (**not the total number of samples in the buffer**).
    pub fn num_samples(&self) -> (r: Samples)
        ensures
            r.0 == self.frame_count(),
    {
        self.num_samples
    }

    /// Returns a cursor over the channels in the buffer, first to last.
    pub fn iter_chans(&self) -> (r: ChannelIterator<'_, T>)
        ensures
            r.buffer() == *self,
            r.position() == 0,
    {
        ChannelIterator { buffer: self, current_channel: 0 }
    }

    /// Returns a cursor that hands out each channel of the buffer as a mutable
    /// slice, first to last.
    pub fn iter_chans_mut(&mut self) -> (r: MutChannelIterator<'_, T>)
        requires
            old(self).wf(),
        ensures
            r.wf(),
            r.rest is Some,
            r.rest() == old(self).samples(),
            r.frames() == old(self).frame_count(),
            r.remaining() == old(self).channel_count(),
            final(self).same_shape(old(self)),
            final(self).samples() == final(r.rest.unwrap())@,
    {
        let frames = self.num_samples.as_usize();
        let remaining = self.num_channels.as_usize();
        MutChannelIterator { rest: Some(self.data.as_mut_slice()), frames, remaining }
    }

    /// Returns a cursor over all samples in the buffer that visits them as if the buffer
    /// were interleaved: frame after frame, and within a frame channel after channel.
    pub fn iter_interleaved(&self) -> (r: InterleavedIterator<'_, T>)
        ensures
            r.buffer() == *self,
            r.position() == 0,
    {
        InterleavedIterator { buffer: self, index: 0 }
    }
}

/// Walks the channels of a buffer, first to last, one call of `next` each.
pub struct ChannelIterator<'a, T> {
    buffer: &'a Buffer<T>,
    current_channel: usize,
}

impl<'a, T> ChannelIterator<'a, T> {
    /// The buffer walked.
    pub closed spec fn buffer(&self) -> Buffer<T> {
        *self.buffer
    }

    /// The index of the channel that the next call hands out.
    pub closed spec fn position(&self) -> nat {
        self.current_channel as nat
    }
}

impl<'a, T: Copy + Default> ChannelIterator<'a, T> {
    /// Hands out the next channel, or `None` once every channel was handed out.
    pub fn next(&mut self) -> (r: Option<&'a [T]>)
        requires
            old(self).buffer().wf(),
        ensures
            final(self).buffer() == old(self).buffer(),
            old(self).position() < old(self).buffer().channel_count() ==> {
                &&& r matches Some(s)
                &&& s@ == old(self).buffer().channel_view(old(self).position() as int)
                &&& final(self).position() == old(self).position() + 1
            },
            old(self).position() >= old(self).buffer().channel_count() ==> {
                &&& r is None
                &&& final(self).position() == old(self).position()
            },
    {
        if self.current_channel >= self.buffer.num_channels.as_usize() {
            return None;
        }
        let channel = self.buffer.chan(self.current_channel);
        self.current_channel += 1;
        Some(channel)
    }
}

/// The samples of a buffer in interleaved order: the `k`th is frame `k / channels`
/// of channel `k % channels`.
pub open spec fn interleaved<T>(b: Buffer<T>) -> Seq<T> {
    Seq::new(
        b.channel_count() * b.frame_count(),
        |k: int| b.sample_at(k % (b.channel_count() as int), k / (b.channel_count() as int)),
    )
}

/// Position `k` of the interleaved order falls on frame `k / channels` of
/// channel `k % channels`, which lie inside the buffer.
proof fn lemma_interleaved_position(k: int, channels: int, frames: int)
    requires
        0 <= k < channels * frames,
        0 < channels,
    ensures
        0 <= k % channels < channels,
        0 <= k / channels < frames,
        k == (k / channels) * channels + k % channels,
{
    lemma_fundamental_div_mod(k, channels);
    lemma_mod_pos_bound(k, channels);
    let q = k / channels;
    let m = k % channels;
    assert(0 <= q < frames) by (nonlinear_arith)
        requires
            k == channels * q + m,
            0 <= m < channels,
            0 <= k < channels * frames,
    ;
    assert(k == q * channels + m) by (nonlinear_arith)
        requires
            k == channels * q + m,
    ;
}

/// Walks all samples of a buffer in interleaved order, one call of `next` each.
pub struct InterleavedIterator<'a, T> {
    buffer: &'a Buffer<T>,
    index: usize,
}

impl<'a, T> InterleavedIterator<'a, T> {
    /// The buffer walked.
    pub closed spec fn buffer(&self) -> Buffer<T> {
        *self.buffer
    }

    /// How many samples were handed out so far.
    pub closed spec fn position(&self) -> nat {
        self.index as nat
    }
}

impl<'a, T: Copy + Default> InterleavedIterator<'a, T> {
    /// Hands out the next sample in interleaved order, or `None` once all
    /// were handed out.
    pub fn next(&mut self) -> (r: Option<T>)
        requires
            old(self).buffer().wf(),
        ensures
            final(self).buffer() == old(self).buffer(),
            old(self).position() < interleaved(old(self).buffer()).len() ==> {
                &&& r == Some(interleaved(old(self).buffer())[old(self).position() as int])
                &&& final(self).position() == old(self).position() + 1
            },
            old(self).position() >= interleaved(old(self).buffer()).len() ==> {
                &&& r is None
                &&& final(self).position() == old(self).position()
            },
    {
        let num_channels = self.buffer.num_channels().as_usize();
        let num_samples = self.buffer.num_samples().as_usize();
        assert(num_samples as int * num_channels as int == num_channels as int * num_samples as int) by (nonlinear_arith);
        let total_num_samples = num_samples * num_channels;
        if self.index >= total_num_samples {
            None
        } else {
            let ghost k = self.index as int;
            proof {
                lemma_interleaved_position(k, num_channels as int, num_samples as int);
            }
            let sample_index = self.index / num_channels;
            let channel_index = self.index - (sample_index * num_channels);
            let ghost b = *self.buffer;
            self.index += 1;
            let channel = self.buffer.chan(channel_index);
            proof {
                lemma_channel_in_bounds(channel_index as int, num_channels as int, num_samples as int);
                assert(channel@[sample_index as int] == b.sample_at(channel_index as int, sample_index as int));
            }
            Some(channel[sample_index])
        }
    }
}

/// Walks the channels of a buffer, first to last, handing out each as a
/// mutable slice. The slices never overlap: each is split off the front of
/// what is left of the storage. The fields are public so that contracts can
/// follow what is written through the slices back into the buffer.
pub struct MutChannelIterator<'a, T> {
    /// The part of the storage not handed out yet; `None` once released.
    pub rest: Option<&'a mut [T]>,
    /// The number of samples in each channel.
    pub frames: usize,
    /// The number of channels not handed out yet.
    pub remaining: usize,
}

impl<'a, T> MutChannelIterator<'a, T> {
    /// The part of the storage that was not handed out yet.
    pub open spec fn rest(&self) -> Seq<T> {
        match self.rest {
            Some(s) => s@,
            None => Seq::empty(),
        }
    }

    /// The number of samples in each channel.
    pub open spec fn frames(&self) -> nat {
        self.frames as nat
    }

    /// The number of channels not handed out yet.
    pub open spec fn remaining(&self) -> nat {
        self.remaining as nat
    }

    /// The rest of the storage holds exactly the remaining channels; it is
    /// released once none remain.
    pub open spec fn wf(&self) -> bool {
        &&& self.remaining > 0 ==> self.rest is Some
        &&& self.rest().len() == self.remaining() * self.frames()
    }
}

impl<'a, T: Copy + Default> MutChannelIterator<'a, T> {
    /// Hands out the next channel, or `None` once every channel was handed out.
    pub fn next(&mut self) -> (r: Option<&'a mut [T]>)
        requires
            old(self).wf(),
        ensures
            final(self).wf(),
            final(self).frames() == old(self).frames(),
            old(self).remaining() > 0 ==> {
                &&& r matches Some(s)
                &&& s@ == old(self).rest().subrange(0, old(self).frames() as int)
                &&& final(self).rest() == old(self).rest().subrange(
                    old(self).frames() as int,
                    old(self).rest().len() as int,
                )
                &&& final(self).remaining() == old(self).remaining() - 1
                &&& final(self).rest is Some
                &&& final(old(self).rest.unwrap())@ == final(s)@ + final(final(self).rest.unwrap())@
            },
            old(self).remaining() == 0 ==> {
                &&& r is None
                &&& final(self).rest is None
                &&& final(self).remaining() == 0
                &&& old(self).rest().len() == 0
                &&& old(self).rest matches Some(s) ==> final(s)@ == s@
            },
    {
        if self.remaining == 0 {
            assert(self.rest().len() == 0) by (nonlinear_arith)
                requires
                    self.rest().len() == self.remaining() * self.frames(),
                    self.remaining() == 0,
            ;
            self.rest = None;
            return None;
        }
        let rest = self.rest.take().unwrap();
        assert(self.frames as int <= self.remaining as int * self.frames as int) by (nonlinear_arith)
            requires
                self.remaining > 0,
        ;
        let (channel, tail) = rest.split_at_mut(self.frames);
        assert(tail@.len() == (self.remaining as int - 1) * self.frames as int) by (nonlinear_arith)
            requires
                tail@.len() == self.remaining as int * self.frames as int - self.frames as int,
        ;
        self.rest = Some(tail);
        self.remaining -= 1;
        Some(channel)
    }
}

} // verus!
