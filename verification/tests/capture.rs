use vrc_stt::audio::capture::{exact_chunks, process_direct, process_with_resampling, send_chunk_to_vad, ChunkBuffer};
use vrc_stt::audio::CHUNK_SIZE;
use vrc_stt::config::{Config, ConfigManager};
use vrc_stt::vad::VadWrapper;

fn detector_with_tolerance(debounce_times: usize) -> VadWrapper {
    let mut config = Config::default();
    config.vad.debounce_times = debounce_times;
    let manager = ConfigManager::new(config, std::path::PathBuf::from("config.json"));
    VadWrapper::new(&manager)
}

fn detector() -> VadWrapper {
    detector_with_tolerance(0)
}

#[test]
fn chunk_buffer_cuts_whole_chunks_in_order() {
    let mut buf = ChunkBuffer::new();
    let first: Vec<i16> = (0..100).collect();
    assert!(buf.feed(&first).is_empty());
    assert_eq!(buf.len(), 100);
    let second: Vec<i16> = (100..260).collect();
    let chunks = buf.feed(&second);
    assert_eq!(chunks.len(), 1);
    assert_eq!(chunks[0], (0..160).collect::<Vec<i16>>());
    assert_eq!(buf.len(), 100);
    let third: Vec<i16> = (260..600).collect();
    let chunks = buf.feed(&third);
    assert_eq!(chunks.len(), 2);
    assert_eq!(chunks[0], (160..320).collect::<Vec<i16>>());
    assert_eq!(chunks[1], (320..480).collect::<Vec<i16>>());
    assert_eq!(buf.len(), 120);
}

#[test]
fn chunk_buffer_handles_input_larger_than_its_capacity() {
    let mut buf = ChunkBuffer::new();
    let data: Vec<i16> = (0..1000).collect();
    let chunks = buf.feed(&data);
    assert_eq!(chunks.len(), 6);
    for (i, c) in chunks.iter().enumerate() {
        assert_eq!(c.len(), CHUNK_SIZE);
        assert_eq!(c[0], (i * CHUNK_SIZE) as i16);
    }
    assert_eq!(buf.len(), 40);
}

#[test]
fn exact_chunks_drop_partial_tail() {
    let data: Vec<i16> = (0..500).collect();
    let chunks = exact_chunks(&data);
    assert_eq!(chunks.len(), 3);
    assert_eq!(chunks[2], (320..480).collect::<Vec<i16>>());
    assert!(exact_chunks(&data[..159]).is_empty());
}

#[test]
fn wrong_sized_chunk_is_ignored() {
    let mut vad = detector();
    assert!(send_chunk_to_vad(&[0; 100], &mut vad).is_none());
}

#[test]
fn silence_forwards_no_events() {
    let mut vad = detector();
    assert!(process_direct(&vec![0i16; 1600], &mut vad).is_empty());
    let mut buf = ChunkBuffer::new();
    assert!(process_with_resampling(&vec![0i16; 160], &mut buf, &mut vad).is_empty());
    assert!(process_with_resampling(&vec![0i16; 100], &mut buf, &mut vad).is_empty());
    assert_eq!(buf.len(), 100);
}

#[test]
fn initial_silence_forwards_nothing_with_default_tolerance() {
    let mut vad = detector_with_tolerance(160);
    assert!(process_direct(&vec![0i16; 1600], &mut vad).is_empty());
    let mut buf = ChunkBuffer::new();
    assert!(process_with_resampling(&vec![0i16; 480], &mut buf, &mut vad).is_empty());
}

#[test]
fn successive_feeds_hand_out_every_whole_chunk_in_order() {
    let mut buf = ChunkBuffer::new();
    let sizes = [37usize, 160, 1, 300, 0, 159, 640, 3, 200];
    let mut fed: Vec<i16> = Vec::new();
    let mut out: Vec<i16> = Vec::new();
    let mut next: i16 = 0;
    for &n in sizes.iter() {
        let piece: Vec<i16> = (0..n).map(|k| next.wrapping_add(k as i16)).collect();
        next = next.wrapping_add(n as i16);
        fed.extend_from_slice(&piece);
        for chunk in buf.feed(&piece) {
            assert_eq!(chunk.len(), CHUNK_SIZE);
            out.extend(chunk);
        }
    }
    let m = fed.len() / CHUNK_SIZE;
    assert_eq!(out.len(), m * CHUNK_SIZE);
    assert_eq!(&out[..], &fed[..m * CHUNK_SIZE]);
    assert_eq!(buf.len(), fed.len() - m * CHUNK_SIZE);
}
