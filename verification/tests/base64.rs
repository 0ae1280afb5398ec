use httpauth::base64::{decode, encode};

#[test]
fn encodes_the_standard_vectors() {
    assert_eq!(encode(b""), b"".to_vec());
    assert_eq!(encode(b"f"), b"Zg==".to_vec());
    assert_eq!(encode(b"fo"), b"Zm8=".to_vec());
    assert_eq!(encode(b"foo"), b"Zm9v".to_vec());
    assert_eq!(encode(b"foob"), b"Zm9vYg==".to_vec());
    assert_eq!(encode(b"fooba"), b"Zm9vYmE=".to_vec());
    assert_eq!(encode(b"foobar"), b"Zm9vYmFy".to_vec());
}

#[test]
fn decodes_the_standard_vectors() {
    assert_eq!(decode(b""), Some(b"".to_vec()));
    assert_eq!(decode(b"Zg=="), Some(b"f".to_vec()));
    assert_eq!(decode(b"Zm8="), Some(b"fo".to_vec()));
    assert_eq!(decode(b"Zm9v"), Some(b"foo".to_vec()));
    assert_eq!(decode(b"Zm9vYg=="), Some(b"foob".to_vec()));
    assert_eq!(decode(b"Zm9vYmE="), Some(b"fooba".to_vec()));
    assert_eq!(decode(b"Zm9vYmFy"), Some(b"foobar".to_vec()));
}

#[test]
fn rejects_text_of_a_wrong_length() {
    assert_eq!(decode(b"Z"), None);
    assert_eq!(decode(b"Zg"), None);
    assert_eq!(decode(b"Zg="), None);
    assert_eq!(decode(b"Zm9vY"), None);
}

#[test]
fn rejects_bytes_outside_the_alphabet() {
    assert_eq!(decode(b"Zm9*"), None);
    assert_eq!(decode(b"Zm 9"), None);
    assert_eq!(decode(b"Zm9v\n"), None);
    assert_eq!(decode(b"Zm-_"), None);
}

#[test]
fn rejects_padding_that_is_not_at_the_end() {
    assert_eq!(decode(b"Zg==Zg=="), None);
    assert_eq!(decode(b"Z=9v"), None);
    assert_eq!(decode(b"=m9v"), None);
    assert_eq!(decode(b"Zg=v"), None);
    assert_eq!(decode(b"===="), None);
}

#[test]
fn rejects_a_last_symbol_with_stray_bits() {
    // "Zh==" would decode to "f" if the low four bits of `h` were dropped.
    assert_eq!(decode(b"Zh=="), None);
    // "Zm9=" would decode to "fo" if the low two bits of `9` were dropped.
    assert_eq!(decode(b"Zm9="), None);
}

#[test]
fn uses_the_whole_alphabet() {
    let all = b"ABCDEFGHIJKLMNOPQRSTUVWXYZabcdefghijklmnopqrstuvwxyz0123456789+/";
    let bytes = decode(all).expect("the alphabet is canonical text");
    assert_eq!(bytes.len(), 48);
    assert_eq!(bytes[0], 0x00);
    assert_eq!(bytes[1], 0x10);
    assert_eq!(bytes[2], 0x83);
    assert_eq!(bytes[45], 0xf3);
    assert_eq!(bytes[46], 0xdf);
    assert_eq!(bytes[47], 0xbf);
    assert_eq!(encode(&bytes), all.to_vec());
}

#[test]
fn decoding_undoes_encoding() {
    for len in 0..70usize {
        for seed in 0..5u32 {
            let bytes: Vec<u8> = (0..len)
                .map(|i| ((i as u32).wrapping_mul(37).wrapping_add(seed.wrapping_mul(101)) % 256) as u8)
                .collect();
            let text = encode(&bytes);
            assert_eq!(text.len(), (len + 2) / 3 * 4);
            assert_eq!(decode(&text), Some(bytes));
        }
    }
}

#[test]
fn encoding_undoes_decoding() {
    let alphabet = b"ABCDEFGHIJKLMNOPQRSTUVWXYZabcdefghijklmnopqrstuvwxyz0123456789+/=";
    for a in alphabet.iter() {
        for b in alphabet.iter() {
            for c in [b'A', b'Q', b'g', b'9', b'/', b'='] {
                for d in [b'A', b'z', b'+', b'='] {
                    let text = vec![*a, *b, c, d];
                    if let Some(bytes) = decode(&text) {
                        assert_eq!(encode(&bytes), text);
                    }
                }
            }
        }
    }
}
