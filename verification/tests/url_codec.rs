use python_ide::base64url::can_encode;
use python_ide::deflate::inflate;
use python_ide::url_codec::{
    decode_from_url, encode_for_url, get_code_from_hash, set_code_in_hash, text_from_data,
    token_from_stream, DecodeError, EncodeError,
};

const SAMPLES: [&str; 6] = [
    "",
    "a",
    "print('hi')",
    "for i in range(5):\n    print(f\"Count: {i}\")\n",
    "héllo wörld ✓ 🎉",
    "# комментарий\nprint('日本語')\t\u{0}\u{10FFFF}",
];

fn is_url_safe(c: char) -> bool {
    c.is_ascii_alphanumeric() || c == '-' || c == '_'
}

#[test]
fn empty_text_has_a_fixed_token() {
    assert_eq!(encode_for_url(""), Ok("AwA".to_string()));
    assert_eq!(decode_from_url("AwA"), Ok(String::new()));
}

#[test]
fn no_sample_has_a_shorter_token_than_the_empty_text() {
    let shortest = encode_for_url("").unwrap();
    assert!(!shortest.is_empty());
    for text in SAMPLES {
        assert!(encode_for_url(text).unwrap().len() >= shortest.len());
    }
}

#[test]
fn tokens_have_the_length_of_an_unpadded_encoding() {
    for text in SAMPLES {
        assert_ne!(encode_for_url(text).unwrap().len() % 4, 1);
    }
    let mut text = String::new();
    for i in 0..40 {
        text.push(char::from(b'a' + (i % 26) as u8));
        assert_ne!(encode_for_url(&text).unwrap().len() % 4, 1);
    }
}

#[test]
fn round_trip_gives_the_text_back() {
    for text in SAMPLES {
        let token = encode_for_url(text).unwrap();
        assert_eq!(decode_from_url(&token), Ok(text.to_string()));
    }
}

#[test]
fn round_trip_of_a_long_text() {
    let mut text = String::new();
    for i in 0..5000 {
        text.push_str("line ");
        text.push_str(&i.to_string());
        text.push_str(" ✓\n");
    }
    let token = encode_for_url(&text).unwrap();
    assert!(token.len() < text.len());
    assert_eq!(decode_from_url(&token), Ok(text));
}

#[test]
fn tokens_hold_only_url_safe_characters() {
    for text in SAMPLES {
        let token = encode_for_url(text).unwrap();
        assert!(token.chars().all(is_url_safe), "{:?}", token);
        assert!(!token.contains('='));
        assert!(!token.contains('+'));
        assert!(!token.contains('/'));
        assert!(!token.contains('#'));
    }
}

#[test]
fn encoding_is_a_function_of_the_text() {
    for text in SAMPLES {
        assert_eq!(encode_for_url(text), encode_for_url(text));
    }
    assert_ne!(encode_for_url("a"), encode_for_url("b"));
}

#[test]
fn token_is_compressed_not_only_recoded() {
    assert_ne!(encode_for_url("hello"), Ok("aGVsbG8".to_string()));
    assert_ne!(encode_for_url("hello"), Ok("hello".to_string()));
}

#[test]
fn token_from_stream_writes_base64url() {
    assert_eq!(token_from_stream(Some(vec![])), Ok(String::new()));
    assert_eq!(token_from_stream(Some(vec![0xfb])), Ok("-w".to_string()));
    assert_eq!(token_from_stream(Some(vec![0xfb, 0xf0])), Ok("-_A".to_string()));
    assert_eq!(token_from_stream(Some(vec![0xff, 0xfe, 0xfd])), Ok("__79".to_string()));
    assert_eq!(token_from_stream(Some(b"abc".to_vec())), Ok("YWJj".to_string()));
    assert_eq!(token_from_stream(Some(b"hello".to_vec())), Ok("aGVsbG8".to_string()));
}

#[test]
fn token_from_stream_without_a_stream_fails() {
    assert_eq!(token_from_stream(None), Err(EncodeError::CompressionFailed));
}

#[test]
fn text_from_data_reads_utf8() {
    assert_eq!(text_from_data(Some(vec![])), Ok(String::new()));
    assert_eq!(text_from_data(Some("héllo ✓".as_bytes().to_vec())), Ok("héllo ✓".to_string()));
    assert_eq!(text_from_data(Some(vec![0x68, 0xff])), Err(DecodeError::InvalidUtf8));
    assert_eq!(text_from_data(Some(vec![0xc3])), Err(DecodeError::InvalidUtf8));
    assert_eq!(text_from_data(Some(vec![0xed, 0xa0, 0x80])), Err(DecodeError::InvalidUtf8));
    assert_eq!(text_from_data(None), Err(DecodeError::CorruptStream));
}

#[test]
fn inflate_reads_complete_streams_only() {
    assert_eq!(inflate(&[0x03, 0x00]), Some(vec![]));
    assert_eq!(inflate(&[0x01, 0x02, 0x00, 0xfd, 0xff, 0x68, 0x69]), Some(b"hi".to_vec()));
    assert_eq!(inflate(&[0x01, 0x02, 0x00, 0xfd, 0xff, 0x68]), None);
    assert_eq!(inflate(&[0x01, 0x02, 0x00, 0xfd, 0xfe, 0x68, 0x69]), None);
    assert_eq!(inflate(&[]), None);
    assert_eq!(inflate(&[0x07]), None);
}

#[test]
fn inflate_rejects_bytes_after_the_end_of_the_stream() {
    assert_eq!(inflate(&[0x03, 0x00, 0x00]), None);
    assert_eq!(inflate(&[0x03, 0x00, 0xff]), None);
    assert_eq!(inflate(&[0x03, 0x00, 0x03, 0x00]), None);
    assert_eq!(inflate(&[0x01, 0x02, 0x00, 0xfd, 0xff, 0x68, 0x69, 0x00]), None);
    assert_eq!(inflate(&[0x01, 0x02, 0x00, 0xfd, 0xff, 0x68, 0x69, 0x03, 0x00]), None);
}

#[test]
fn can_encode_accepts_what_fits() {
    let longest = isize::MAX as usize;
    assert!(can_encode(0));
    assert!(can_encode(1_000_000));
    // The longest string holds `longest / 4` whole groups and three characters more,
    // which is room for two bytes beyond the groups.
    assert!(can_encode(longest / 4 * 3));
    assert!(can_encode(longest / 4 * 3 + 2));
    assert!(!can_encode(longest / 4 * 3 + 3));
    assert!(!can_encode(longest));
    assert!(!can_encode(usize::MAX));
}

#[test]
fn decode_of_a_stored_block() {
    assert_eq!(decode_from_url("AQIA_f9oaQ"), Ok("hi".to_string()));
}

#[test]
fn decode_rejects_what_is_not_base64url() {
    for token in ["!!!!", "=", "A", "AwA=", "AwA==", "Aw A", "AwA\n", "Aw+A", "Aw/A", "AwB", "Aé"] {
        assert_eq!(decode_from_url(token), Err(DecodeError::BadAlphabet), "{:?}", token);
    }
}

#[test]
fn decode_rejects_a_corrupt_stream() {
    for token in ["", "AAAA", "___8", "AQIA_f8", "Bw"] {
        assert_eq!(decode_from_url(token), Err(DecodeError::CorruptStream), "{:?}", token);
    }
}

#[test]
fn decode_rejects_text_that_is_not_utf8() {
    assert_eq!(decode_from_url("AQEA_v__"), Err(DecodeError::InvalidUtf8));
}

#[test]
fn truncated_tokens_fail() {
    for text in SAMPLES {
        let token = encode_for_url(text).unwrap();
        for cut in 0..token.len() {
            assert!(decode_from_url(&token[..cut]).is_err(), "{:?} cut to {}", token, cut);
        }
    }
}

#[test]
fn tokens_altered_to_hold_another_character_are_rejected() {
    for text in ["print('hi')", "héllo wörld ✓ 🎉"] {
        let token = encode_for_url(text).unwrap();
        let chars: Vec<char> = token.chars().collect();
        for at in 0..chars.len() {
            for replacement in ['=', ' ', '+', '/', '#', 'é'] {
                let mut altered = chars.clone();
                altered[at] = replacement;
                let altered: String = altered.into_iter().collect();
                assert_eq!(decode_from_url(&altered), Err(DecodeError::BadAlphabet));
            }
        }
    }
}

#[test]
fn tokens_altered_within_the_alphabet_give_an_answer() {
    let mut failed = 0;
    let mut answered = 0;
    for text in ["print('hi')", "héllo wörld ✓ 🎉"] {
        let token = encode_for_url(text).unwrap();
        let chars: Vec<char> = token.chars().collect();
        for at in 0..chars.len() {
            for replacement in ['A', 'B', 'z', '0', '-', '_'] {
                if chars[at] == replacement {
                    continue;
                }
                let mut altered = chars.clone();
                altered[at] = replacement;
                let altered: String = altered.into_iter().collect();
                match decode_from_url(&altered) {
                    Err(_) => failed += 1,
                    Ok(_) => answered += 1,
                }
            }
        }
    }
    assert!(failed > 0);
    assert!(failed + answered > 200);
}

#[test]
fn tokens_that_go_on_after_the_stream_are_rejected() {
    for token in ["AwAA", "AwD_", "AQIA_f9oaQA", "AQIA_f9oaQMA"] {
        assert_eq!(decode_from_url(token), Err(DecodeError::CorruptStream), "{:?}", token);
    }
    for text in SAMPLES {
        let token = encode_for_url(text).unwrap();
        for extra in ["A", "AA", "AAA", "AAAA", "AwA", "=", "#"] {
            let mut longer = token.clone();
            longer.push_str(extra);
            assert!(decode_from_url(&longer).is_err(), "{:?} and {:?}", token, extra);
        }
    }
}

#[test]
fn error_messages() {
    assert_eq!(DecodeError::BadAlphabet.message(), "Base64 decode failed");
    assert_eq!(DecodeError::CorruptStream.message(), "Decompression failed");
    assert_eq!(DecodeError::InvalidUtf8.message(), "UTF-8 decode failed");
    assert_eq!(EncodeError::CompressionFailed.message(), "Compression failed");
    assert_eq!(EncodeError::TooLong.message(), "Compressed code is too long");
}

#[test]
fn no_code_in_an_empty_fragment() {
    assert_eq!(get_code_from_hash(""), None);
    assert_eq!(get_code_from_hash("#"), None);
}

#[test]
fn no_code_in_a_fragment_that_does_not_decode() {
    assert_eq!(get_code_from_hash("##"), None);
    assert_eq!(get_code_from_hash("#!!!!"), None);
    assert_eq!(get_code_from_hash("#AAAA"), None);
    assert_eq!(get_code_from_hash("#AQEA_v__"), None);
    assert_eq!(get_code_from_hash("#AwA#"), None);
    assert_eq!(get_code_from_hash("é"), None);
    assert_eq!(get_code_from_hash("#!!!"), None);
    assert_eq!(get_code_from_hash("#AwAA"), None);
}

#[test]
fn a_second_hash_is_part_of_the_token() {
    assert_eq!(get_code_from_hash("##AwA"), None);
    assert_eq!(get_code_from_hash("###AQIA_f9oaQ"), None);
    assert_eq!(get_code_from_hash("##AQIA_f9oaQ"), None);
    assert_eq!(get_code_from_hash("#AQIA#f9oaQ"), None);
    for text in SAMPLES {
        let hash = set_code_in_hash(text).unwrap();
        assert_eq!(get_code_from_hash(&format!("#{}", hash)), None);
    }
}

#[test]
fn code_is_read_from_a_fragment() {
    assert_eq!(get_code_from_hash("#AwA"), Some(String::new()));
    assert_eq!(get_code_from_hash("#AQIA_f9oaQ"), Some("hi".to_string()));
    assert_eq!(get_code_from_hash("AQIA_f9oaQ"), Some("hi".to_string()));
}

#[test]
fn fragment_is_hash_and_token() {
    assert_eq!(set_code_in_hash(""), Ok("#AwA".to_string()));
    for text in SAMPLES {
        let hash = set_code_in_hash(text).unwrap();
        let token = encode_for_url(text).unwrap();
        assert_eq!(hash, format!("#{}", token));
    }
}

#[test]
fn fragment_round_trip() {
    for text in SAMPLES {
        let hash = set_code_in_hash(text).unwrap();
        assert_eq!(get_code_from_hash(&hash), Some(text.to_string()));
    }
}
