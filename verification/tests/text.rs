use small_uid::codec::{decode, encode, from_be_bytes, to_be_bytes};
use small_uid::generation::timestamp_gen;
use small_uid::{SmallUid, SmallUidError};

#[test]
fn test_string() {
    let timestamp = timestamp_gen().unwrap();
    let smalluid = SmallUid::from_timestamp(timestamp);
    let smalluidstr = smalluid.to_string();
    let smalluidfromstr = SmallUid::try_from(smalluidstr).unwrap();
    assert!(smalluid == smalluidfromstr);
}

#[test]
fn test_from_broken_string() {
    // Using a valid base64url string
    let uidstr = "AAAAAAAAAAA=".to_string(); // This represents a sequence of zeros when decoded
    let smalluid = SmallUid::try_from(uidstr).unwrap();
    println!("From string: {:?}", smalluid);
}

#[test]
fn test_invalid_base64url() {
    let uidstr = "XxXxXxXxXx".to_string();
    let result = SmallUid::try_from(uidstr);
    assert!(result.is_err()); // We expect this to fail because it's not valid base64url
}

#[test]
fn test_try_from() {
    let uidstr = SmallUid::new().unwrap();
    let smalluid = SmallUid::try_from(uidstr.to_string()).unwrap();
    assert!(smalluid == uidstr);
}

#[test]
fn zero_is_eleven_times_a() {
    assert_eq!(SmallUid(0).to_string(), "AAAAAAAAAAA");
    assert_eq!(SmallUid(0).to_string().len(), 11);
    assert_eq!(SmallUid::try_from("AAAAAAAAAAA".to_string()), Ok(SmallUid(0)));
    assert_eq!(decode("AAAAAAAAAAA"), Ok(SmallUid(0)));
}

#[test]
fn known_tokens() {
    let cases: [(u64, &str); 7] = [
        (0, "AAAAAAAAAAA"),
        (1, "AAAAAAAAAAE"),
        (5242883, "AAAAAABQAAM"),
        (0xDEAD_BEEF_CAFE_F00D, "3q2-78r-8A0"),
        (u64::MAX, "__________8"),
        (1 << 63, "gAAAAAAAAAA"),
        (0x0123_4567_89AB_CDEF, "ASNFZ4mrze8"),
    ];
    for (raw, text) in cases {
        assert_eq!(SmallUid(raw).to_string(), text);
        assert_eq!(encode(SmallUid(raw)), text);
        assert_eq!(String::from(SmallUid(raw)), text);
        assert_eq!(decode(text), Ok(SmallUid(raw)));
        assert_eq!(SmallUid::try_from(text.to_string()), Ok(SmallUid(raw)));
    }
}

#[test]
fn text_round_trip() {
    let mut raw: u64 = 0x9E37_79B9_7F4A_7C15;
    for _ in 0..2000 {
        raw = raw.wrapping_mul(6364136223846793005).wrapping_add(1442695040888963407);
        let id = SmallUid(raw);
        let text = id.to_string();
        assert_eq!(text.len(), 11);
        assert!(text.chars().all(|c| c.is_ascii_alphanumeric() || c == '-' || c == '_'));
        assert_eq!(decode(&text), Ok(id));
    }
}

#[test]
fn ten_characters_are_not_a_token() {
    assert_eq!(decode("XxXxXxXxXx"), Err(SmallUidError::NotABase64Url));
    assert_eq!(
        SmallUid::try_from("XxXxXxXxXx".to_string()),
        Err(SmallUidError::NotABase64Url)
    );
    assert_eq!(decode(""), Err(SmallUidError::NotABase64Url));
    assert_eq!(decode("AAAAAAAAAA="), Err(SmallUidError::NotABase64Url));
    assert_eq!(decode("==========="), Err(SmallUidError::NotABase64Url));
}

#[test]
fn a_star_is_an_invalid_character() {
    assert_eq!(decode("AAAAA*AAAAA"), Err(SmallUidError::InvalidChar));
    assert_eq!(decode("*"), Err(SmallUidError::InvalidChar));
    assert_eq!(decode("AAAAAAAAAA "), Err(SmallUidError::InvalidChar));
    assert_eq!(decode("AAAAAAAAAA\u{e9}"), Err(SmallUidError::InvalidChar));
    assert_eq!(
        SmallUid::try_from("AAAAA*AAAAA".to_string()),
        Err(SmallUidError::InvalidChar)
    );
}

#[test]
fn an_invalid_character_counts_before_the_length() {
    assert_eq!(decode("A*"), Err(SmallUidError::InvalidChar));
    assert_eq!(decode("AAAAAAAAAAAAAAA*"), Err(SmallUidError::InvalidChar));
    assert_eq!(decode("AAAAAAAAAAB*"), Err(SmallUidError::InvalidChar));
}

#[test]
fn older_symbols_are_read_as_their_synonyms() {
    assert_eq!(decode("-_-_-_-_-_A"), Ok(SmallUid(0xFBFF_BFFB_FFBF_FBF0)));
    assert_eq!(decode("+/+/+/+/+/A"), Ok(SmallUid(0xFBFF_BFFB_FFBF_FBF0)));
    assert_eq!(decode("+/+/+/+/+/A="), Ok(SmallUid(0xFBFF_BFFB_FFBF_FBF0)));
    assert_eq!(decode("//////////8"), Ok(SmallUid(u64::MAX)));
    assert_eq!(decode("3q2+78r+8A0"), Ok(SmallUid(0xDEAD_BEEF_CAFE_F00D)));
}

#[test]
fn padding_is_dropped_wherever_it_stands() {
    assert_eq!(decode("AAAAAAAAAAE="), Ok(SmallUid(1)));
    assert_eq!(decode("=AAAAA==AAAAAE=="), Ok(SmallUid(1)));
    assert_eq!(decode("AAAAA=AAAAA"), Err(SmallUidError::NotABase64Url));
}

#[test]
fn what_follows_the_eleventh_symbol_is_not_decoded() {
    assert_eq!(decode("AAAAAAAAAAEAAAA"), Ok(SmallUid(1)));
    assert_eq!(decode("AAAAAABQAAMzzzzzzzzzzzzzzzzzz"), Ok(SmallUid(5242883)));
    assert_eq!(decode("__________8_"), Ok(SmallUid(u64::MAX)));
}

#[test]
fn a_last_symbol_with_spare_bits_is_no_token() {
    assert_eq!(decode("AAAAAAAAAAB"), Err(SmallUidError::NotABase64Url));
    assert_eq!(decode("AAAAAAAAAAC"), Err(SmallUidError::NotABase64Url));
    assert_eq!(decode("AAAAAAAAAAD"), Err(SmallUidError::NotABase64Url));
    assert_eq!(decode("__________9"), Err(SmallUidError::NotABase64Url));
    assert_eq!(decode("___________"), Err(SmallUidError::NotABase64Url));
}

#[test]
fn bytes_most_significant_first() {
    assert_eq!(to_be_bytes(0x0123_4567_89AB_CDEF), [0x01, 0x23, 0x45, 0x67, 0x89, 0xAB, 0xCD, 0xEF]);
    assert_eq!(to_be_bytes(1), [0, 0, 0, 0, 0, 0, 0, 1]);
    assert_eq!(to_be_bytes(u64::MAX), [0xFF; 8]);
    assert_eq!(
        from_be_bytes(&[0x01, 0x23, 0x45, 0x67, 0x89, 0xAB, 0xCD, 0xEF]),
        Ok(SmallUid(0x0123_4567_89AB_CDEF))
    );
    assert_eq!(from_be_bytes(&[0, 0, 0, 0, 0, 0x50, 0, 3]), Ok(SmallUid(5242883)));
    for raw in [0u64, 1, 255, 256, 0xDEAD_BEEF_CAFE_F00D, u64::MAX] {
        assert_eq!(to_be_bytes(raw), raw.to_be_bytes());
        assert_eq!(from_be_bytes(&raw.to_be_bytes()), Ok(SmallUid(raw)));
    }
}

#[test]
fn other_than_eight_bytes_are_no_identifier() {
    assert_eq!(from_be_bytes(&[]), Err(SmallUidError::VecToArray));
    assert_eq!(from_be_bytes(&[1, 2, 3, 4, 5, 6, 7]), Err(SmallUidError::VecToArray));
    assert_eq!(from_be_bytes(&[1, 2, 3, 4, 5, 6, 7, 8, 9]), Err(SmallUidError::VecToArray));
}

#[test]
fn the_last_symbol_decides_with_its_two_lowest_bits() {
    let alphabet = "ABCDEFGHIJKLMNOPQRSTUVWXYZabcdefghijklmnopqrstuvwxyz0123456789-_";
    for (value, symbol) in alphabet.chars().enumerate() {
        let text = format!("AAAAAAAAAA{}", symbol);
        if value % 4 == 0 {
            assert_eq!(decode(&text), Ok(SmallUid((value / 4) as u64)));
        } else {
            assert_eq!(decode(&text), Err(SmallUidError::NotABase64Url));
        }
    }
}

#[test]
fn every_symbol_is_read_at_every_place() {
    let alphabet = "ABCDEFGHIJKLMNOPQRSTUVWXYZabcdefghijklmnopqrstuvwxyz0123456789-_";
    for place in 0..10usize {
        for (value, symbol) in alphabet.chars().enumerate() {
            let mut text = String::new();
            for at in 0..11usize {
                text.push(if at == place { symbol } else { 'A' });
            }
            let expected = (value as u64) << (58 - 6 * place);
            assert_eq!(decode(&text), Ok(SmallUid(expected)));
            assert_eq!(SmallUid(expected).to_string(), text);
        }
    }
}

#[test]
fn what_reads_as_an_identifier_is_its_text() {
    let alphabet: Vec<char> =
        "ABCDEFGHIJKLMNOPQRSTUVWXYZabcdefghijklmnopqrstuvwxyz0123456789-_".chars().collect();
    let mut state: u64 = 0x2545_F491_4F6C_DD1D;
    let mut read = 0;
    for _ in 0..4000 {
        let mut text = String::new();
        for _ in 0..11 {
            state = state.wrapping_mul(6364136223846793005).wrapping_add(1442695040888963407);
            text.push(alphabet[(state >> 58) as usize]);
        }
        match decode(&text) {
            Ok(id) => {
                assert_eq!(id.to_string(), text);
                read += 1;
            }
            Err(e) => {
                assert_eq!(e, SmallUidError::NotABase64Url);
                let last = alphabet.iter().position(|c| *c == text.chars().last().unwrap());
                assert!(last.unwrap() % 4 != 0);
            }
        }
    }
    assert!(read > 0);
}
