use vrc_stt::audio::resampler::{fits_in_chunk, plan_resampling, process_channels, ChunkOverflow, FrameQueue};
use vrc_stt::config::ChannelMixMode;

#[test]
fn no_plan_for_16khz_mono() {
    assert!(plan_resampling(16000, 1, ChannelMixMode::MixToMono).is_none());
    let p = plan_resampling(16000, 2, ChannelMixMode::FirstChannel).unwrap();
    assert!(!p.needs_rate_conversion);
    assert_eq!(p.input_chunk_frames, 160);
    let p = plan_resampling(44100, 1, ChannelMixMode::MixToMono).unwrap();
    assert!(p.needs_rate_conversion);
    assert_eq!(p.input_chunk_frames, 441);
    assert_eq!(p.input_channels, 1);
}

#[test]
fn channel_selection() {
    let input = [1.0f32, 2.0, 3.0, 4.0, 5.0, 6.0, 7.0];
    let mut out = Vec::new();
    process_channels(&input, 2, ChannelMixMode::FirstChannel, &mut out);
    assert_eq!(out, vec![1.0, 3.0, 5.0]);
    let mut out = vec![0.5];
    process_channels(&input, 2, ChannelMixMode::SecondChannel, &mut out);
    assert_eq!(out, vec![0.5, 2.0, 4.0, 6.0]);
    let mut out = Vec::new();
    process_channels(&input, 3, ChannelMixMode::SecondChannel, &mut out);
    assert_eq!(out, vec![2.0, 5.0]);
    let mut out = Vec::new();
    process_channels(&input, 1, ChannelMixMode::MixToMono, &mut out);
    assert_eq!(out, input.to_vec());
}

#[test]
fn frame_queue_hands_out_blocks() {
    let mut q: FrameQueue<i32> = FrameQueue::new(4);
    q.push_frames(&[1, 2, 3]);
    assert!(!q.has_block());
    assert_eq!(q.take_passthrough(), Ok(vec![]));
    q.push_frames(&[4, 5]);
    assert!(q.has_block());
    assert_eq!(q.take_block(), vec![1, 2, 3, 4]);
    assert_eq!(q.len(), 1);
    q.push_frames(&[6, 7, 8]);
    assert_eq!(q.take_passthrough(), Ok(vec![5, 6, 7, 8]));
    assert_eq!(q.len(), 0);
}

#[test]
fn oversized_passthrough_block_is_refused() {
    let mut q: FrameQueue<i32> = FrameQueue::new(200);
    q.push_frames(&vec![0; 250]);
    assert_eq!(q.take_passthrough(), Err(ChunkOverflow { frames: 200 }));
    assert_eq!(q.len(), 250);
}

#[test]
fn chunk_fit() {
    assert_eq!(fits_in_chunk(160), Ok(()));
    assert_eq!(fits_in_chunk(161), Err(ChunkOverflow { frames: 161 }));
}

#[test]
fn passthrough_pushes_then_hands_out_a_block() {
    let mut q: FrameQueue<i32> = FrameQueue::new(4);
    assert_eq!(q.push_and_take_passthrough(&[1, 2, 3]), Ok(vec![]));
    assert_eq!(q.push_and_take_passthrough(&[4, 5]), Ok(vec![1, 2, 3, 4]));
    assert_eq!(q.len(), 1);
    let mut big: FrameQueue<i32> = FrameQueue::new(200);
    assert_eq!(big.push_and_take_passthrough(&vec![0; 150]), Ok(vec![]));
    assert_eq!(big.push_and_take_passthrough(&vec![0; 60]), Err(ChunkOverflow { frames: 200 }));
    assert_eq!(big.len(), 210);
}

#[test]
fn successive_passthrough_calls_keep_every_frame_in_order() {
    let mut q: FrameQueue<i32> = FrameQueue::new(160);
    let sizes = [100usize, 160, 7, 150, 160, 160, 1, 159, 80];
    let mut taken: Vec<i32> = Vec::new();
    let mut out: Vec<i32> = Vec::new();
    let mut blocks = 0;
    let mut next = 0;
    for &n in sizes.iter() {
        let frames: Vec<i32> = (next..next + n as i32).collect();
        next += n as i32;
        taken.extend_from_slice(&frames);
        let v = q.push_and_take_passthrough(&frames).unwrap();
        assert!(v.is_empty() || v.len() == 160);
        if !v.is_empty() {
            blocks += 1;
        }
        out.extend(v);
        assert!(q.len() < 160);
    }
    assert_eq!(blocks, taken.len() / 160);
    assert_eq!(&out[..], &taken[..blocks * 160]);
    assert_eq!(q.len(), taken.len() - blocks * 160);
}
