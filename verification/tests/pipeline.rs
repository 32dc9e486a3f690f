use archrypt::archive::pack;
use archrypt::archive::unpack;
use archrypt::archive::PackedEntry;
use archrypt::builder::Target;
use archrypt::container::Container;
use archrypt::error::ErrorKind;
use archrypt::pipeline::compress_files;
use archrypt::pipeline::decrypt_with_private_key;
use archrypt::pipeline::encrypt_with_public_key;
use archrypt::pipeline::extract_files;
use archrypt::pipeline::is_registered_extension;
use archrypt::pipeline::validate_extension;
use archrypt::pipeline::work_units;
use archrypt::pipeline::EXTENSION;
use rsa::pkcs8::EncodePrivateKey;
use rsa::pkcs8::EncodePublicKey;
use rsa::pkcs8::LineEnding;
use rsa::rand_core::OsRng;
use rsa::BigUint;
use rsa::RsaPrivateKey;

const FIRST_N: [&str; 8] = [
    "c84addd8f2e35b65cf6679872975316e7844ad6d5e8c28816f849dd0a8a10810",
    "c7fb7dfbff130efbe703908e012a949d399ee92e7c1716689fd115a62c98f68b",
    "f673432049e06693a7d57fe672835bc13242b2a6a0d5f1df8e925f0c2f876d50",
    "0a3aa8d6aa86c2d103aecf73602bf3656679608789a6df48631691a95026dddf",
    "798da5caafc61b4441f1d4125bcc324b41adef99a4331a26dffb4e2518a7202b",
    "3725668ea14c45a9a87055fa51f5bbaea41d0cd3eaa19764fa72f8fd893c0e14",
    "77248e3162ba4fc3a0a20c49ef28ab80625cdba561a01dfc1fe60d078e18438e",
    "d6da5148d6cdb32d5de6653d0220f7f0765cf9ad7444812b0cead6beda2d148b",
];
const FIRST_D: [&str; 8] = [
    "3694ec62f841cc00f125905dac8712caf37c67b483ccf726dac08d8f34bcf969",
    "354e4c35557c189bbe072328079a56788820cd93ccde2fcda02bc6d60b963dad",
    "c3a2027b749671edb01186f2c26718a48bf150250774761f0187d2de0bbfc0a2",
    "ccbed28ef95693158986e462a12529058b88ed2cd26ec6af3fcd81315e35d145",
    "5ef70cd9797ec235374f227023310150543454874058e749479149cc8a7f1d09",
    "ce72d7edf7bca313ec0e5afd3c1982f4f839b3d95f9e82d504c9c21aadf055d0",
    "ef994b5887e735fcea0292019ada269c02cdcff2ed8d792f28c7bc2f6184b89f",
    "c5730e7ee4c9993f7847d97b038e58f992b06ce20a4359958c4b07b2293b2425",
];
const FIRST_P: [&str; 4] = [
    "f1f961c1fe3861872d79d2ced2f1af240a0436d14fb1612481888ba81718d542",
    "82f083a58d60eb63097cc2dd2f0e91b316bda59228d9eb92b2c43b2a0897a354",
    "9ac9f9e3debec3d8ad95062ef3e233f0ebc039df4d050464d01a42d95feb43ec",
    "21fc1cf8a1130a254cbee53b2462c7b940ed2477b3e4612c6201b6765c3095ef",
];
const FIRST_Q: [&str; 4] = [
    "d3e6f9e9746124c00fab429a18ae11c053b2bde60dbcad4d8656d139e93a87df",
    "8415b7f604e54c942aa04ea373ec49a1f27624b201ff98ad82e48f7a4cfd34ba",
    "3c5fed3dc416a3bb6ae4333830772919b03920cac0de0ef05ce44b5f3e3c5582",
    "e5e84db321f6678262ff5a868acb1e0507a3af79d61d5f8be917448bb4b02725",
];
const SECOND_N: [&str; 8] = [
    "cef3b06005af2f22237f5ba45dda52544612c77ba0e073a30be4473338401dec",
    "5a3501d28e4acf1a5b924e9cba81d18aee3e7eb0df2c111b714beef4a5a85e7c",
    "ee7aadae6903df55a541bb997f6b1d39ac5a7148e5d245492c2074a90a2885db",
    "8edceb99e25beeaa202e9ef79814f025a583bd0004f2c8c55f5dfaf56602a79f",
    "ecb953da017fb529b0bc02818e8eb0aa44016d60fefdaec089e7a91ef9dd4efc",
    "7b69c977096ea95d069e2fac56938366ce72ceb4b3d39ae1bd3d00191b02ba91",
    "f39fa9b0cb9ebe86600003d01285eaf2a251f738b0ece6c6b3d835e68681839e",
    "fdc390dc838c263ab6f53673076c4571c6c2603b3a6edb6cc365406dd0db3d97",
];
const SECOND_D: [&str; 8] = [
    "532caea8d0f00905f3f5563c17ba4c9771384ff33883ad060d1bf89fb5ce5318",
    "7062d8722add17227546369118065fd4b20eecf52224c05562b20d7e46ec05d9",
    "b9311607c04e1d9efad591d3cdd99b7bd7f0db91dc4827af926c12e6f35db8fa",
    "b68ec4a3eacd5efd02052abfc0e03d6a2bfce7e38f9992267d3f34c316f61f2e",
    "d5e9470e54b3dbdfba92b17897d6513379098de84825bb4ee0b56399d7ff389e",
    "be6731fb288c8a70672091afa83065482c50d308e3ae5c7b0c01dfe3eab1a126",
    "98b3f67cc8d9d1f9ab4085c4979421136083ceff0f6c1d84d0518113061fefac",
    "25a66cb26ddf182026e2249f246b55fadb064ab2e932afa9d7ab9ddc874ad2bd",
];
const SECOND_P: [&str; 4] = [
    "fd03e8bcaddd64f998db0a8bb2aae585a7bbec4b55159cf7f3ca08c8753ddf38",
    "c024f4a68fa9a69e0ff03a456d9051f7b297f1cdd57446799e2f09b2c725ff4b",
    "c180cea2743762b50cce06bd57871a9014ff1a74c5c38e0f80e030903be2a960",
    "a46e192798b942dbd362f4d05b06d7d9ce1136f0f898cb9191b97c9ac97e915b",
];
const SECOND_Q: [&str; 4] = [
    "d164abd7fa35d6055f73b94fedd51900449312f51d09227fe422653ce330be34",
    "3dc290bf3f7db5e1c201a0e6941acaad3939fc90a6e97540f8e981b16d67697d",
    "4babfde82578597eb094ac367ab48d7908225cfcd9902842d28d049425cdedfc",
    "c524d442767ab718dc99893abec2cc075f9557b788187c0e3009dc89f8fa9d75",
];

fn number(parts: &[&str]) -> BigUint {
    BigUint::parse_bytes(parts.concat().as_bytes(), 16).unwrap()
}

fn key_of(n: &[&str], d: &[&str], p: &[&str], q: &[&str]) -> RsaPrivateKey {
    RsaPrivateKey::from_components(
        number(n),
        BigUint::from(65537u32),
        number(d),
        vec![number(p), number(q)],
    )
    .unwrap()
}

fn private_pem(key: &RsaPrivateKey) -> String {
    key.to_pkcs8_pem(LineEnding::LF).unwrap().to_string()
}

fn public_pem(key: &RsaPrivateKey) -> String {
    key.to_public_key().to_public_key_pem(LineEnding::LF).unwrap()
}

fn first_key() -> RsaPrivateKey {
    key_of(&FIRST_N, &FIRST_D, &FIRST_P, &FIRST_Q)
}

fn second_key() -> RsaPrivateKey {
    key_of(&SECOND_N, &SECOND_D, &SECOND_P, &SECOND_Q)
}

fn entry(name: &str, content: &[u8]) -> PackedEntry {
    PackedEntry { name: name.to_string(), content: content.to_vec() }
}

fn listed(entries: &[PackedEntry]) -> Vec<(String, Vec<u8>)> {
    entries.iter().map(|e| (e.name.clone(), e.content.clone())).collect()
}

fn scenario_targets() -> Vec<Target> {
    vec![
        Target::File { name: "notes.txt".to_string(), content: b"hello".to_vec() },
        Target::Directory {
            name: "docs".to_string(),
            files: vec![entry("a.txt", b"first document"), entry("b.txt", b"second document")],
        },
    ]
}

#[test]
fn the_registered_suffix_is_acrp() {
    assert_eq!(EXTENSION, "acrp");
}

#[test]
fn only_the_exact_suffix_is_registered() {
    assert!(is_registered_extension(&Some("acrp".to_string())));
    assert!(!is_registered_extension(&None));
    assert!(!is_registered_extension(&Some("".to_string())));
    assert!(!is_registered_extension(&Some("ACRP".to_string())));
    assert!(!is_registered_extension(&Some("Acrp".to_string())));
    assert!(!is_registered_extension(&Some("acr".to_string())));
    assert!(!is_registered_extension(&Some("acrpx".to_string())));
    assert!(!is_registered_extension(&Some(".acrp".to_string())));
    assert!(!is_registered_extension(&Some("zip".to_string())));
}

#[test]
fn paths_are_gated_by_their_extension() {
    assert!(validate_extension("out.acrp"));
    assert!(validate_extension("/tmp/dir.d/archive.tar.acrp"));
    assert!(validate_extension("relative/out.acrp"));
    assert!(!validate_extension("out.zip"));
    assert!(!validate_extension("out"));
    assert!(!validate_extension("out.ACRP"));
    assert!(!validate_extension("out.acrp.bak"));
    assert!(!validate_extension(".acrp"));
    assert!(!validate_extension("acrp"));
    assert!(!validate_extension("dir.acrp/out"));
    assert!(!validate_extension(""));
    assert!(!validate_extension("out."));
}

#[test]
fn compress_checks_the_extension_before_anything_else() {
    let public = public_pem(&first_key());
    let targets = scenario_targets();
    assert_eq!(
        compress_files("out.zip", &public, &targets).unwrap_err(),
        ErrorKind::InvalidExtension
    );
    assert_eq!(
        compress_files("out", "not a key", &vec![Target::Other]).unwrap_err(),
        ErrorKind::InvalidExtension
    );
}

#[test]
fn extract_checks_the_extension_before_anything_else() {
    let private = private_pem(&first_key());
    let public = public_pem(&first_key());
    let bytes = compress_files("out.acrp", &public, &scenario_targets()).unwrap();
    assert_eq!(
        extract_files("out.zip", &private, &bytes).unwrap_err(),
        ErrorKind::InvalidExtension
    );
    assert_eq!(
        extract_files("out.acrp.txt", "not a key", &[]).unwrap_err(),
        ErrorKind::InvalidExtension
    );
}

#[test]
fn compress_reports_targets_before_the_key() {
    let mut targets = scenario_targets();
    targets.push(Target::Other);
    assert_eq!(
        compress_files("out.acrp", "not a key", &targets).unwrap_err(),
        ErrorKind::InvalidTarget
    );
    assert_eq!(
        compress_files("out.acrp", "not a key", &scenario_targets()).unwrap_err(),
        ErrorKind::KeyParseError
    );
}

#[test]
fn notes_and_docs_come_back_as_three_entries() {
    let key = first_key();
    let bytes = compress_files("out.acrp", &public_pem(&key), &scenario_targets()).unwrap();
    let container = Container::parse(&bytes).unwrap();
    assert_eq!(container.nonce.len(), 12);
    assert_eq!(container.wrapped_key.len(), 256);
    assert_eq!((bytes[12], bytes[13]), (0x01, 0x00));
    let archive = decrypt_with_private_key(&bytes, &private_pem(&key)).unwrap();
    assert_eq!(container.ciphertext.len(), archive.len() + 16);
    let in_archive = unpack(&archive).unwrap();
    assert_eq!(in_archive.len(), 3);
    let extracted = extract_files("out.acrp", &private_pem(&key), &bytes).unwrap();
    assert_eq!(
        listed(&extracted),
        vec![
            ("notes.txt".to_string(), b"hello".to_vec()),
            ("docs/a.txt".to_string(), b"first document".to_vec()),
            ("docs/b.txt".to_string(), b"second document".to_vec()),
        ]
    );
    assert_eq!(listed(&in_archive), listed(&extracted));
}

#[test]
fn extraction_reproduces_names_and_contents() {
    let key = first_key();
    let targets = vec![
        Target::Directory {
            name: "tree".to_string(),
            files: vec![
                entry("a/b/c.bin", &(0..=255u8).collect::<Vec<u8>>()),
                entry("a/empty", b""),
                entry("z.txt", "日本語".as_bytes()),
            ],
        },
        Target::File { name: "top".to_string(), content: vec![0u8; 70_000] },
    ];
    let bytes = compress_files("backup.acrp", &public_pem(&key), &targets).unwrap();
    let extracted = extract_files("backup.acrp", &private_pem(&key), &bytes).unwrap();
    assert_eq!(
        listed(&extracted),
        vec![
            ("tree/a/b/c.bin".to_string(), (0..=255u8).collect::<Vec<u8>>()),
            ("tree/a/empty".to_string(), vec![]),
            ("tree/z.txt".to_string(), "日本語".as_bytes().to_vec()),
            ("top".to_string(), vec![0u8; 70_000]),
        ]
    );
}

#[test]
fn two_compressions_of_the_same_input_differ() {
    let public = public_pem(&first_key());
    let first = compress_files("out.acrp", &public, &scenario_targets()).unwrap();
    let second = compress_files("out.acrp", &public, &scenario_targets()).unwrap();
    assert_ne!(first[..12], second[..12]);
    assert_ne!(first[14 + 256..], second[14 + 256..]);
}

#[test]
fn encrypt_then_decrypt_returns_the_archive() {
    let key = first_key();
    let archive = pack(&vec![entry("a.txt", b"alpha")]).unwrap();
    let bytes = encrypt_with_public_key(&archive, &public_pem(&key)).unwrap();
    assert_eq!(bytes.len(), 14 + 256 + archive.len() + 16);
    assert_eq!(decrypt_with_private_key(&bytes, &private_pem(&key)).unwrap(), archive);
}

#[test]
fn encrypt_reports_the_key_first() {
    assert_eq!(
        encrypt_with_public_key(b"data", "not a key").unwrap_err(),
        ErrorKind::KeyParseError
    );
    let small = RsaPrivateKey::new(&mut OsRng, 256).unwrap();
    assert_eq!(
        encrypt_with_public_key(b"data", &public_pem(&small)).unwrap_err(),
        ErrorKind::KeyTooSmall
    );
}

#[test]
fn decrypt_reports_each_failure_in_order() {
    let key = first_key();
    let private = private_pem(&key);
    let bytes = encrypt_with_public_key(b"payload", &public_pem(&key)).unwrap();
    assert_eq!(
        decrypt_with_private_key(&bytes[..13], "not a key").unwrap_err(),
        ErrorKind::KeyParseError
    );
    assert_eq!(
        decrypt_with_private_key(&bytes[..13], &private).unwrap_err(),
        ErrorKind::MalformedContainer
    );
    assert_eq!(
        decrypt_with_private_key(&bytes[..14 + 255], &private).unwrap_err(),
        ErrorKind::MalformedContainer
    );
    let mut long_field = bytes.clone();
    long_field[12] = 0xFF;
    assert_eq!(
        decrypt_with_private_key(&long_field, &private).unwrap_err(),
        ErrorKind::MalformedContainer
    );
    let mut bad_wrap = bytes.clone();
    for b in bad_wrap[14..14 + 256].iter_mut() {
        *b = 0xFF;
    }
    assert_eq!(
        decrypt_with_private_key(&bad_wrap, &private).unwrap_err(),
        ErrorKind::KeyUnwrapError
    );
    let mut bad_tag = bytes.clone();
    let last = bad_tag.len() - 1;
    bad_tag[last] ^= 0x01;
    assert_eq!(
        decrypt_with_private_key(&bad_tag, &private).unwrap_err(),
        ErrorKind::AuthenticationFailed
    );
    assert_eq!(decrypt_with_private_key(&bytes, &private).unwrap(), b"payload".to_vec());
}

#[test]
fn flipping_any_byte_of_the_ciphertext_region_is_detected() {
    let key = first_key();
    let private = private_pem(&key);
    let bytes = encrypt_with_public_key(b"guarded", &public_pem(&key)).unwrap();
    for i in (14 + 256)..bytes.len() {
        let mut tampered = bytes.clone();
        tampered[i] ^= 0x40;
        assert_eq!(
            decrypt_with_private_key(&tampered, &private).unwrap_err(),
            ErrorKind::AuthenticationFailed
        );
    }
}

#[test]
fn the_wrong_key_never_extracts() {
    let bytes =
        compress_files("out.acrp", &public_pem(&first_key()), &scenario_targets()).unwrap();
    let error = extract_files("out.acrp", &private_pem(&second_key()), &bytes).unwrap_err();
    assert!(error == ErrorKind::KeyUnwrapError || error == ErrorKind::AuthenticationFailed);
}

#[test]
fn a_decrypted_payload_that_is_no_archive_is_refused() {
    let key = first_key();
    let bytes = encrypt_with_public_key(b"no archive in here", &public_pem(&key)).unwrap();
    assert_eq!(
        extract_files("in.acrp", &private_pem(&key), &bytes).unwrap_err(),
        ErrorKind::InvalidArchive
    );
}

#[test]
fn work_is_one_unit_per_file_and_one_for_the_cipher() {
    assert_eq!(work_units(0), Some(1));
    assert_eq!(work_units(3), Some(4));
    assert_eq!(work_units(999), Some(1000));
}
