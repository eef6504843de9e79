use webauthn_wallet::base64_url::encode;

fn encoded(src: [u8; 32]) -> String {
    let mut dst = [0u8; 43];
    encode(&mut dst, &src);
    String::from_utf8(dst.to_vec()).unwrap()
}

#[test]
fn challenge_matches_reference_vector() {
    let payload: [u8; 32] = PAYLOAD;
    assert_eq!(encoded(payload), "NfDpcX46Ea5C1wOIjWVfu1q81KK2eHcpiRY9E0a4J_k");
}

#[test]
fn zero_bytes_encode_to_the_first_letter() {
    assert_eq!(encoded([0u8; 32]), "AAAAAAAAAAAAAAAAAAAAAAAAAAAAAAAAAAAAAAAAAAA");
}

#[test]
fn all_ones_use_the_url_safe_alphabet_and_no_padding() {
    assert_eq!(encoded([255u8; 32]), "__________________________________________8");
}

#[test]
fn counting_bytes_encode_as_expected() {
    let mut low = [0u8; 32];
    let mut high = [0u8; 32];
    for i in 0..32 {
        low[i] = i as u8;
        high[i] = 224 + i as u8;
    }
    assert_eq!(encoded(low), "AAECAwQFBgcICQoLDA0ODxAREhMUFRYXGBkaGxwdHh8");
    assert_eq!(encoded(high), "4OHi4-Tl5ufo6err7O3u7_Dx8vP09fb3-Pn6-_z9_v8");
}

#[test]
fn encoding_overwrites_the_whole_buffer() {
    let mut dst = [b'!'; 43];
    encode(&mut dst, &[0u8; 32]);
    assert!(dst.iter().all(|c| *c == b'A'));
}

const PAYLOAD: [u8; 32] = [53, 240, 233, 113, 126, 58, 17, 174, 66, 215, 3, 136, 141, 101, 95, 187, 90, 188, 212, 162, 182, 120, 119, 41, 137, 22, 61, 19, 70, 184, 39, 249];
