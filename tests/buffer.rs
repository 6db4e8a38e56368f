use rabu::buffer::Buffer;
use rabu::units::{Channels, Samples};

#[test]
fn interleaved_iterator() {
    let mut buffer = Buffer::allocate(Channels(2), Samples(3));
    buffer.chan_mut(0)[0] = 1.0;
    buffer.chan_mut(0)[1] = 1.0;
    buffer.chan_mut(0)[2] = 1.0;

    let mut result = Vec::new();
    let mut samples = buffer.iter_interleaved();
    while let Some(sample) = samples.next() {
        result.push(sample);
    }

    assert_eq!(result, &[1.0, 0.0, 1.0, 0.0, 1.0, 0.0]);
}

#[test]
fn correct_num_samples_and_channels() {
    let buffer = Buffer::<f32>::allocate(Channels(2), Samples(10));
    assert_eq!(buffer.num_samples(), Samples(10));
    assert_eq!(buffer.num_channels(), Channels(2));
}

#[test]
fn index_into_channels() {
    let buffer = Buffer::<f32>::allocate(Channels(2), Samples(10));

    assert_eq!(buffer.chan(0).len(), buffer.num_samples().as_usize());
}

#[test]
fn iterate_channels() {
    let buffer = Buffer::<f32>::allocate(Channels(2), Samples(10));
    let mut num = 0;
    let mut chans = buffer.iter_chans();
    while let Some(_chan) = chans.next() {
        num += 1;
    }

    assert_eq!(Channels(num), buffer.num_channels());
}

#[test]
fn map_samples() {
    let mut buffer = Buffer::<f32>::allocate(Channels(2), Samples(3));
    buffer.map_samples(|_| 0.5);
    assert_eq!(buffer.chan(1)[2], 0.5);
}

#[test]
fn clone_with_new_bigger_size() {
    let mut buffer = Buffer::<f32>::allocate(Channels(2), Samples(3));
    for chan in buffer.channel_indices() {
        for samp in buffer.sample_indices() {
            buffer.chan_mut(chan)[samp] = samp as f32;
        }
    }

    let resized = buffer.clone_resized(Channels(3), Samples(4));

    assert_eq!(resized.chan(0)[1], 1.0);
    assert_eq!(resized.chan(0)[3], 0.0);

    assert_eq!(resized.chan(1)[1], 1.0);
    assert_eq!(resized.chan(1)[3], 0.0);

    assert_eq!(resized.chan(2)[1], 0.0);
}

#[test]
fn clone_with_new_smaller_size() {
    let mut buffer = Buffer::<f32>::allocate(Channels(2), Samples(3));
    for chan in buffer.channel_indices() {
        for samp in buffer.sample_indices() {
            buffer.chan_mut(chan)[samp] = samp as f32;
        }
    }

    let resized = buffer.clone_resized(Channels(1), Samples(2));

    assert_eq!(resized.chan(0)[1], 1.0);
    assert_eq!(resized.chan(0)[0], 0.0);
}

#[test]
fn allocated_buffer_is_default_filled() {
    for (channels, samples) in [(0u32, 0u64), (0, 5), (3, 0), (1, 1), (2, 7)] {
        let buffer = Buffer::<f32>::allocate(Channels(channels), Samples(samples));
        assert!(buffer.is_default_filled());
        assert_eq!(buffer.data().len(), (channels as usize) * (samples as usize));
    }
    let ints = Buffer::<i16>::allocate(Channels(4), Samples(3));
    assert!(ints.is_default_filled());
    assert_eq!(ints.data(), &[0i16; 12]);
}

#[test]
fn written_sample_breaks_silence_and_fill_default_restores_it() {
    let mut buffer = Buffer::<f32>::allocate(Channels(2), Samples(4));
    buffer.chan_mut(1)[3] = -0.25;
    assert!(!buffer.is_default_filled());
    buffer.fill_default();
    assert!(buffer.is_default_filled());
    assert_eq!(buffer.num_channels(), Channels(2));
    assert_eq!(buffer.num_samples(), Samples(4));
}

#[test]
fn channels_are_stored_one_after_the_other() {
    let mut buffer = Buffer::<u8>::allocate(Channels(3), Samples(2));
    buffer.chan_mut(0)[1] = 1;
    buffer.chan_mut(1)[0] = 2;
    buffer.chan_mut(2)[1] = 3;
    assert_eq!(buffer.data(), &[0, 1, 2, 0, 0, 3]);
    assert_eq!(buffer.chan(1), &[2, 0]);
    buffer.data_mut()[4] = 9;
    assert_eq!(buffer.chan(2), &[9, 3]);
}

#[test]
fn index_ranges_match_shape() {
    let buffer = Buffer::<f32>::allocate(Channels(3), Samples(5));
    assert_eq!(buffer.channel_indices(), 0..3);
    assert_eq!(buffer.sample_indices(), 0..5);
}

#[test]
fn copy_into_copies_every_sample() {
    let mut source = Buffer::<i32>::allocate(Channels(2), Samples(3));
    source.map_samples(|_| 4);
    source.chan_mut(1)[2] = -7;
    let mut dest = Buffer::<i32>::allocate(Channels(2), Samples(3));
    dest.chan_mut(0)[0] = 11;
    source.copy_into(&mut dest);
    assert_eq!(dest.data(), &[4, 4, 4, 4, 4, -7]);
    assert_eq!(source.data(), &[4, 4, 4, 4, 4, -7]);
}

#[test]
fn map_samples_to_constant_reaches_every_channel_and_frame() {
    let mut buffer = Buffer::<f32>::allocate(Channels(3), Samples(4));
    buffer.chan_mut(2)[1] = 3.0;
    buffer.map_samples(|_| 0.5);
    for chan in buffer.channel_indices() {
        for samp in buffer.sample_indices() {
            assert_eq!(buffer.chan(chan)[samp], 0.5);
        }
    }
}

#[test]
fn map_samples_sees_each_old_value() {
    let mut buffer = Buffer::<i64>::allocate(Channels(2), Samples(2));
    buffer.chan_mut(0)[1] = 5;
    buffer.chan_mut(1)[0] = -3;
    buffer.map_samples(|x| 2 * x + 1);
    assert_eq!(buffer.data(), &[1, 11, -5, 1]);
}

#[test]
fn interleaved_order_over_three_channels() {
    let mut buffer = Buffer::<u32>::allocate(Channels(3), Samples(2));
    for chan in buffer.channel_indices() {
        for samp in buffer.sample_indices() {
            buffer.chan_mut(chan)[samp] = (10 * chan + samp) as u32;
        }
    }
    let mut result = Vec::new();
    let mut samples = buffer.iter_interleaved();
    while let Some(sample) = samples.next() {
        result.push(sample);
    }
    assert_eq!(result, vec![0, 10, 20, 1, 11, 21]);
    assert_eq!(samples.next(), None);
}

#[test]
fn interleaved_over_empty_buffers_yields_nothing() {
    let no_channels = Buffer::<f32>::allocate(Channels(0), Samples(4));
    assert_eq!(no_channels.iter_interleaved().next(), None);
    let no_samples = Buffer::<f32>::allocate(Channels(2), Samples(0));
    assert_eq!(no_samples.iter_interleaved().next(), None);
}

#[test]
fn channel_iterator_hands_out_channels_in_order() {
    let mut buffer = Buffer::<u8>::allocate(Channels(2), Samples(2));
    buffer.chan_mut(1)[1] = 6;
    let mut chans = buffer.iter_chans();
    assert_eq!(chans.next(), Some(&[0u8, 0][..]));
    assert_eq!(chans.next(), Some(&[0u8, 6][..]));
    assert_eq!(chans.next(), None);
}

#[test]
fn mutable_channel_iterator_writes_into_the_buffer() {
    let mut buffer = Buffer::<f32>::allocate(Channels(2), Samples(4));
    let mut count = 0;
    let mut chans = buffer.iter_chans_mut();
    while let Some(channel) = chans.next() {
        assert_eq!(channel.len(), 4);
        for sample in channel.iter_mut() {
            *sample = 1.0 + count as f32;
        }
        count += 1;
    }
    assert_eq!(count, 2);
    assert_eq!(buffer.chan(0), &[1.0, 1.0, 1.0, 1.0]);
    assert_eq!(buffer.chan(1), &[2.0, 2.0, 2.0, 2.0]);
}

#[test]
fn clone_resized_keeps_overlap_and_defaults_the_rest() {
    let mut buffer = Buffer::<u16>::allocate(Channels(2), Samples(3));
    for chan in buffer.channel_indices() {
        for samp in buffer.sample_indices() {
            buffer.chan_mut(chan)[samp] = (1 + 3 * chan + samp) as u16;
        }
    }
    let wider = buffer.clone_resized(Channels(1), Samples(5));
    assert_eq!(wider.data(), &[1, 2, 3, 0, 0]);
    let taller = buffer.clone_resized(Channels(3), Samples(2));
    assert_eq!(taller.data(), &[1, 2, 4, 5, 0, 0]);
    let same = buffer.clone_resized(Channels(2), Samples(3));
    assert_eq!(same.data(), buffer.data());
    let empty = buffer.clone_resized(Channels(0), Samples(3));
    assert!(empty.data().is_empty());
}
