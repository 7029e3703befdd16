use rolling::{all_checksums, AdditiveSum, ByteSource, ByteStream, Hasher, Rolling};

fn run(width: usize, data: Vec<u8>) -> Option<Vec<u8>> {
    let mut engine = Rolling::start(AdditiveSum::new(width), ByteStream::new(data))?;
    let mut out = Vec::new();
    while let Some(c) = engine.next() {
        out.push(c);
    }
    Some(out)
}

#[test]
fn additive_width_four_over_six_bytes() {
    assert_eq!(run(4, vec![1, 2, 3, 4, 5, 6]), Some(vec![10, 14, 18]));
}

#[test]
fn stream_shorter_than_window_gives_no_engine() {
    assert!(Rolling::start(AdditiveSum::new(4), ByteStream::new(vec![1, 2, 3])).is_none());
    assert!(all_checksums(AdditiveSum::new(4), ByteStream::new(vec![1, 2, 3])).is_empty());
}

#[test]
fn empty_stream_gives_no_engine() {
    assert!(Rolling::start(AdditiveSum::new(1), ByteStream::new(vec![])).is_none());
}

#[test]
fn width_one_gives_one_checksum_per_byte() {
    assert_eq!(run(1, vec![7, 8, 9]), Some(vec![7, 8, 9]));
}

#[test]
fn stream_of_exactly_width_gives_one_checksum() {
    assert_eq!(run(3, vec![5, 6, 7]), Some(vec![18]));
}

#[test]
fn exhausted_engine_keeps_returning_none() {
    let mut engine = Rolling::start(AdditiveSum::new(2), ByteStream::new(vec![1, 2, 3])).unwrap();
    assert_eq!(engine.next(), Some(3));
    assert_eq!(engine.next(), Some(5));
    assert_eq!(engine.next(), None);
    assert_eq!(engine.next(), None);
    assert_eq!(engine.next(), None);
}

#[test]
fn window_count_is_length_minus_width_plus_one() {
    let data: Vec<u8> = (0..10).collect();
    let sums = all_checksums(AdditiveSum::new(3), ByteStream::new(data));
    assert_eq!(sums.len(), 8);
    assert_eq!(sums, vec![3, 6, 9, 12, 15, 18, 21, 24]);
}

#[test]
fn checksum_at_index_matches_its_window() {
    let data: Vec<u8> = vec![9, 1, 250, 17, 3, 200, 64, 0, 128];
    let width = 4;
    let sums = all_checksums(AdditiveSum::new(width), ByteStream::new(data.clone()));
    assert_eq!(sums.len(), data.len() - width + 1);
    for (i, c) in sums.iter().enumerate() {
        let expected = data[i..i + width].iter().map(|&b| b as u32).sum::<u32>() % 256;
        assert_eq!(*c as u32, expected);
    }
}

#[test]
fn sums_wrap_modulo_256() {
    assert_eq!(run(2, vec![200, 100, 50]), Some(vec![44, 150]));
}

#[test]
fn replaying_the_same_stream_gives_the_same_checksums() {
    let data: Vec<u8> = vec![3, 1, 4, 1, 5, 9, 2, 6, 5, 3, 5];
    let a = all_checksums(AdditiveSum::new(5), ByteStream::new(data.clone()));
    let b = all_checksums(AdditiveSum::new(5), ByteStream::new(data));
    assert_eq!(a, b);
}

#[test]
fn checksums_after_partial_iteration_holds_the_rest() {
    let mut engine =
        Rolling::start(AdditiveSum::new(4), ByteStream::new(vec![1, 2, 3, 4, 5, 6])).unwrap();
    assert_eq!(engine.next(), Some(10));
    assert_eq!(engine.checksums(), vec![14, 18]);
    assert_eq!(engine.next(), None);
    assert!(engine.checksums().is_empty());
}

#[test]
fn start_consumes_exactly_width_bytes() {
    let mut engine =
        Rolling::start(AdditiveSum::new(2), ByteStream::new(vec![10, 20, 30])).unwrap();
    assert_eq!(engine.next(), Some(30));
    assert_eq!(engine.next(), Some(50));
    assert_eq!(engine.next(), None);
}

#[test]
fn byte_stream_yields_bytes_in_order() {
    let mut s = ByteStream::new(vec![4, 5]);
    assert_eq!(s.pull(), Some(4));
    assert_eq!(s.pull(), Some(5));
    assert_eq!(s.pull(), None);
    assert_eq!(s.pull(), None);
}

#[test]
fn process_byte_evicts_and_admits() {
    let h = AdditiveSum::new(4);
    assert_eq!(h.process_byte(10, 1, 5), (14, 14));
    assert_eq!(h.process_byte(0, 3, 1), (254, 254));
    assert_eq!(h.width(), 4);
    assert_eq!(AdditiveSum::initial_state(), 0);
    assert_eq!(AdditiveSum::empty_checksum(), 0);
}

#[test]
fn batch_update_equals_sequential_updates() {
    let h = AdditiveSum::new(3);
    let old = [1u8, 2, 3, 4, 5];
    let new = [9u8, 8, 7, 6, 250];
    let mut state = 100u8;
    let mut last = AdditiveSum::empty_checksum();
    for k in 0..old.len() {
        let (c, s) = h.process_byte(state, old[k], new[k]);
        last = c;
        state = s;
    }
    assert_eq!(h.process_slice(100, &old, &new), (last, state));
    assert_eq!(h.process_slice(100, &old, &new), (109, 109));
}

#[test]
fn batch_update_over_empty_input_keeps_state() {
    let h = AdditiveSum::new(3);
    assert_eq!(h.process_slice(42, &[], &[]), (0, 42));
}

#[test]
fn batch_update_stops_at_shorter_input() {
    let h = AdditiveSum::new(3);
    assert_eq!(h.process_slice(0, &[1, 2, 3], &[5]), (4, 4));
    assert_eq!(h.process_slice(0, &[1], &[5, 6, 7]), (4, 4));
}

#[test]
fn block_updates_match_slice_updates() {
    let h = AdditiveSum::new(8);
    let old8: [u8; 8] = [1, 2, 3, 4, 5, 6, 7, 8];
    let new8: [u8; 8] = [8, 8, 8, 8, 8, 8, 8, 8];
    assert_eq!(h.process_chunk64(36, &old8, &new8), (64, 64));
    assert_eq!(h.process_chunk64(36, &old8, &new8), h.process_slice(36, &old8, &new8));
    let old16 = [3u8; 16];
    let new16 = [5u8; 16];
    assert_eq!(h.process_chunk128(0, &old16, &new16), (32, 32));
    let old32 = [0u8; 32];
    let new32 = [255u8; 32];
    assert_eq!(h.process_chunk256(0, &old32, &new32), h.process_slice(0, &old32, &new32));
    assert_eq!(h.process_chunk256(0, &old32, &new32), (224, 224));
    let old64 = [1u8; 64];
    let new64 = [2u8; 64];
    assert_eq!(h.process_chunk512(7, &old64, &new64), (71, 71));
}
