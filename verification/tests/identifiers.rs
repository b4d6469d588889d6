use small_uid::generation::{
    assemble, generate, random_gen, timestamp_gen, timestamp_of_millis,
};
use small_uid::SmallUid;

#[test]
fn test_generation() {
    let start = std::time::Instant::now();
    let smalluid = SmallUid::new().unwrap();
    let elapsed = start.elapsed();
    println!("Generation took {:?}", elapsed);
    let time = smalluid.get_timestamp();
    let random = smalluid.get_random();
    let reassembled = SmallUid::from_parts(time, random);
    assert!(smalluid.get_random() > 0);
    assert!(smalluid.get_timestamp() > 0);
    assert_eq!(smalluid, reassembled);
}

#[test]
fn test_generation_monotonic() {
    let mut generator = SmallUid::init_monotonic();
    let smalluid = generator.generate().unwrap();
    let time = smalluid.get_timestamp();
    let random = smalluid.get_random();
    let reassembled = SmallUid::from_parts(time, random);
    assert!(smalluid.get_random() > 0);
    assert!(smalluid.get_timestamp() > 0);
    assert_eq!(smalluid, reassembled);
}

#[test]
fn test_batch() {
    let start = std::time::Instant::now();
    let smalluids = SmallUid::batch_new(1024).unwrap();
    let elapsed = start.elapsed();
    println!("Batch generation took {:?}", elapsed);
    for smalluid in smalluids {
        let time = smalluid.get_timestamp();
        let random = smalluid.get_random();
        let reassembled = SmallUid::from_parts(time, random);
        assert!(random > 0);
        assert!(time > 0);
        assert_eq!(smalluid, reassembled);
    }
}

#[test]
fn test_batch_monotonic() {
    let mut generator = SmallUid::init_monotonic();
    let smalluids = generator.generate_batch(10).unwrap();
    for smalluid in smalluids {
        let time = smalluid.get_timestamp();
        let random = smalluid.get_random();
        let reassembled = SmallUid::from_parts(time, random);
        assert!(random > 0);
        assert!(time > 0);
        assert_eq!(smalluid, reassembled);
    }
}

#[test]
fn test_from_timestamp() {
    let timestamp = timestamp_gen().unwrap();
    let start = std::time::Instant::now();
    let smalluid = SmallUid::from_timestamp(timestamp);
    let elapsed = start.elapsed();
    println!("Generation took {:?}", elapsed);
    assert!(smalluid.get_timestamp() == timestamp);
}

#[test]
fn test_from_random() {
    let random = random_gen();
    let start = std::time::Instant::now();
    let smalluid = SmallUid::from_random(random).unwrap();
    let elapsed = start.elapsed();
    println!("Generation took {:?}", elapsed);
    assert!(smalluid.get_random() == random);
}

#[test]
fn test_random_gen() {
    let start = std::time::Instant::now();
    let random = random_gen();
    let elapsed = start.elapsed();
    println!("Generation took {:?}", elapsed);
    assert!(random > 0);
}

#[test]
fn test_random_gen_100() {
    let start = std::time::Instant::now();
    let randoms: Vec<u64> = (0..100).map(|_| random_gen()).collect();
    let elapsed = start.elapsed();
    println!("Generation took {:?}", elapsed);
    assert!(randoms.len() == 100);
    for random in randoms {
        assert!(random > 0);
    }
}

#[test]
fn test_from_parts() {
    let random = random_gen();
    let timestamp = timestamp_gen().unwrap();
    let assembled = SmallUid::from_parts(timestamp, random);
    let part_random = assembled.get_random();
    let part_timestamp = assembled.get_timestamp();
    assert_eq!(random, part_random);
    assert_eq!(timestamp, part_timestamp);
}

#[test]
fn test_serde_feature_not_enabled() {
    assert!(true);
}

#[test]
fn parts_of_five_and_three() {
    let id = SmallUid::from_parts(5, 3);
    assert_eq!(id.to_u64(), 5242883);
    assert_eq!(id.to_u64(), (5 << 20) | 3);
    assert_eq!(id.get_timestamp(), 5);
    assert_eq!(id.get_random(), 3);
    assert_eq!(id, SmallUid(5242883));
    assert_eq!(assemble(5, 3), id);
}

#[test]
fn parts_at_their_limits_are_read_back() {
    let timestamp = (1u64 << 44) - 1;
    let tail = (1u64 << 20) - 1;
    let id = SmallUid::from_parts(timestamp, tail);
    assert_eq!(id.to_u64(), u64::MAX);
    assert_eq!(id.get_timestamp(), timestamp);
    assert_eq!(id.get_random(), tail);
    let zero = SmallUid::from_parts(0, 0);
    assert_eq!(zero.to_u64(), 0);
    assert_eq!(zero.get_timestamp(), 0);
    assert_eq!(zero.get_random(), 0);
}

#[test]
fn a_tail_beyond_twenty_bits_keeps_its_lower_bits() {
    assert_eq!(SmallUid::from_parts(7, 1 << 20).to_u64(), 7 << 20);
    assert_eq!(SmallUid::from_parts(7, 1 << 20).get_random(), 0);
    assert_eq!(SmallUid::from_parts(7, (1 << 21) - 1).get_random(), 0xFFFFF);
    assert_eq!(SmallUid::from_parts(7, (1 << 21) - 1).get_timestamp(), 7);
    assert_eq!(SmallUid::from_parts(7, u64::MAX).to_u64(), (7 << 20) | 0xFFFFF);
}

#[test]
fn a_timestamp_beyond_forty_four_bits_loses_its_upper_bits() {
    assert_eq!(SmallUid::from_parts(1 << 44, 9).to_u64(), 9);
    assert_eq!(SmallUid::from_parts((1 << 44) | 6, 9).get_timestamp(), 6);
    assert_eq!(SmallUid::from_parts(u64::MAX, 0).get_timestamp(), (1 << 44) - 1);
}

#[test]
fn every_identifier_is_made_of_its_parts() {
    for raw in [0u64, 1, 5242883, 0xFFFFF, 0x100000, 0xDEAD_BEEF_CAFE_F00D, u64::MAX] {
        let id = SmallUid(raw);
        assert_eq!(id.get_timestamp(), raw >> 20);
        assert_eq!(id.get_random(), raw & 0xFFFFF);
        assert_eq!(SmallUid::from_parts(id.get_timestamp(), id.get_random()), id);
    }
}

#[test]
fn identifiers_are_ordered_by_timestamp_then_tail() {
    assert!(SmallUid::from_parts(5, 3) < SmallUid::from_parts(5, 4));
    assert!(SmallUid::from_parts(5, 0xFFFFF) < SmallUid::from_parts(6, 0));
    assert!(SmallUid::from_parts(6, 0) > SmallUid::from_parts(5, 3));
    assert_eq!(SmallUid::from_parts(5, 3), SmallUid::from_parts(5, 3));
}

#[test]
fn from_timestamp_keeps_the_timestamp() {
    for _ in 0..100 {
        let id = SmallUid::from_timestamp(123456789);
        assert_eq!(id.get_timestamp(), 123456789);
        assert!(id.get_random() < (1 << 20));
    }
    assert_eq!(SmallUid::from_timestamp((1 << 44) | 3).get_timestamp(), 3);
}

#[test]
fn from_random_keeps_the_tail() {
    let before = timestamp_gen().unwrap();
    let id = SmallUid::from_random(0x12345).unwrap();
    let after = timestamp_gen().unwrap();
    assert_eq!(id.get_random(), 0x12345);
    assert!(before <= id.get_timestamp() && id.get_timestamp() <= after);
    assert_eq!(SmallUid::from_random((1 << 20) | 2).unwrap().get_random(), 2);
}

#[test]
fn random_tails_have_twenty_bits() {
    for _ in 0..10000 {
        assert!(random_gen() < (1 << 20));
    }
}

#[test]
fn generated_identifiers_carry_the_clock() {
    let before = timestamp_gen().unwrap();
    let id = generate().unwrap();
    let after = timestamp_gen().unwrap();
    assert!(before <= id.get_timestamp() && id.get_timestamp() <= after);
}

#[test]
fn batch_has_the_count_asked_for() {
    assert_eq!(SmallUid::batch_new(0).unwrap().len(), 0);
    assert_eq!(SmallUid::batch_new(1).unwrap().len(), 1);
    assert_eq!(SmallUid::batch_new(37).unwrap().len(), 37);
}

#[test]
fn conversions_with_u64() {
    let id = SmallUid::from(5242883u64);
    assert_eq!(id, SmallUid::from_parts(5, 3));
    assert_eq!(u64::from(id), 5242883);
    let raw: u64 = id.into();
    assert_eq!(raw, id.to_u64());
    assert_eq!(SmallUid::default(), SmallUid(0));
}

#[test]
fn random_tails_in_number() {
    assert_eq!(small_uid::rng::generate(None).len(), 1);
    assert_eq!(small_uid::rng::generate(Some(1)).len(), 1);
    assert_eq!(small_uid::rng::generate(Some(0)).len(), 0);
    let tails = small_uid::rng::generate(Some(500));
    assert_eq!(tails.len(), 500);
    for tail in tails {
        assert!(tail < (1 << 20));
    }
}

#[test]
fn a_count_of_milliseconds_keeps_its_lower_64_bits() {
    assert_eq!(timestamp_of_millis(0), 0);
    assert_eq!(timestamp_of_millis(1_700_000_000_000), 1_700_000_000_000);
    assert_eq!(timestamp_of_millis(u64::MAX as u128), u64::MAX);
    assert_eq!(timestamp_of_millis((1u128 << 64) + 7), 7);
    assert_eq!(timestamp_of_millis(u128::MAX), u64::MAX);
}

#[test]
fn an_empty_batch_is_always_given() {
    assert_eq!(SmallUid::batch_new(0), Ok(Vec::new()));
}
