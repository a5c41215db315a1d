use socksx::socks6::options::{
    combine_and_pad, decode_option, options_as_bytes, read_options, AuthMethod,
    AuthMethodAdvertisementOption, AuthMethodSelectionOption, MetadataOption, SocksOption,
    UnrecognizedOption,
};
use socksx::SocksError;

#[test]
fn padding_reaches_a_multiple_of_four() {
    assert_eq!(combine_and_pad(2, vec![0, 5]), vec![0, 2, 0, 8, 0, 5, 0, 0]);
    // Already aligned data still gets four padding bytes.
    assert_eq!(combine_and_pad(7, vec![1, 2, 3, 4]), vec![0, 7, 0, 12, 1, 2, 3, 4, 0, 0, 0, 0]);
    assert_eq!(combine_and_pad(0x0102, vec![]), vec![1, 2, 0, 8, 0, 0, 0, 0]);
}

#[test]
fn advertisement_encoding() {
    let option = AuthMethodAdvertisementOption::new(5, vec![AuthMethod::Gssapi, AuthMethod::UsernamePassword]);
    assert_eq!(option.as_socks_bytes(), vec![0, 2, 0, 12, 0, 5, 1, 2, 0, 0, 0, 0]);
}

#[test]
fn selection_encoding() {
    let option = AuthMethodSelectionOption::new(AuthMethod::UsernamePassword);
    assert_eq!(option.as_socks_bytes(), vec![0, 3, 0, 8, 2, 0, 0, 0]);
}

#[test]
fn metadata_encoding() {
    let option = MetadataOption::new(1000, String::from("ab"));
    assert_eq!(option.as_socks_bytes(), vec![0xFD, 0xE8, 0, 12, 3, 232, 0, 2, 97, 98, 0, 0]);
}

#[test]
fn raw_option_encoding() {
    assert_eq!(SocksOption::new(9, vec![1, 2, 3]).as_socks_bytes(), vec![0, 9, 0, 8, 1, 2, 3, 0]);
    assert_eq!(UnrecognizedOption::new(9, vec![1]), SocksOption::new(9, vec![1]));
}

#[test]
fn advertisement_decoding_keeps_gssapi_and_username_password() {
    let decoded = AuthMethodAdvertisementOption::from_socks_bytes(vec![0, 5, 1, 2, 0, 0, 0, 0]).unwrap();
    assert_eq!(
        decoded,
        AuthMethodAdvertisementOption::new(5, vec![AuthMethod::Gssapi, AuthMethod::UsernamePassword])
    );
    let decoded = AuthMethodAdvertisementOption::from_socks_bytes(vec![1, 0, 0, 3, 2, 255]).unwrap();
    assert_eq!(decoded, AuthMethodAdvertisementOption::new(256, vec![AuthMethod::UsernamePassword]));
    assert_eq!(AuthMethodAdvertisementOption::from_socks_bytes(vec![1]), Err(SocksError::OptionTooShort));
}

#[test]
fn selection_decoding() {
    assert_eq!(
        AuthMethodSelectionOption::from_socks_bytes(vec![2, 0, 0, 0]),
        Ok(AuthMethodSelectionOption::new(AuthMethod::UsernamePassword))
    );
    assert_eq!(
        AuthMethodSelectionOption::from_socks_bytes(vec![255, 0, 0, 0]),
        Ok(AuthMethodSelectionOption::new(AuthMethod::NoAcceptableMethods))
    );
    assert_eq!(AuthMethodSelectionOption::from_socks_bytes(vec![2, 0, 0]), Err(SocksError::OptionLengthMismatch));
    assert_eq!(
        AuthMethodSelectionOption::from_socks_bytes(vec![7, 0, 0, 0]),
        Err(SocksError::InvalidAuthMethodSelection(7))
    );
}

#[test]
fn metadata_decoding() {
    assert_eq!(
        MetadataOption::from_socks_bytes(vec![0, 1, 0, 2, 104, 105, 0, 0]),
        Ok(MetadataOption::new(1, String::from("hi")))
    );
    assert_eq!(MetadataOption::from_socks_bytes(vec![0, 1, 0, 1, 0xff, 0, 0, 0]), Err(SocksError::InvalidMetadataUtf8));
    assert_eq!(MetadataOption::from_socks_bytes(vec![0, 1]), Err(SocksError::OptionTooShort));
}

#[test]
fn option_decoding_by_kind() {
    assert_eq!(decode_option(9, vec![1, 2, 3, 4]), Ok(SocksOption::new(9, vec![1, 2, 3, 4])));
    assert_eq!(decode_option(0xFDE8, vec![0, 1, 0, 9, 0, 0, 0, 0]), Err(SocksError::MalformedOption));
    assert_eq!(decode_option(3, vec![0, 0, 0, 0]), Ok(AuthMethodSelectionOption::new(AuthMethod::NoAuthentication)));
}

#[test]
fn option_block_decoding() {
    let mut bytes = vec![0, 20];
    bytes.extend(vec![0, 2, 0, 12, 0, 5, 1, 2, 0, 0, 0, 0]);
    bytes.extend(vec![0, 3, 0, 8, 2, 0, 0, 0]);
    bytes.extend(vec![42, 42]);
    let (options, consumed) = read_options(&bytes).unwrap();
    assert_eq!(consumed, 22);
    assert_eq!(
        options,
        vec![
            AuthMethodAdvertisementOption::new(5, vec![AuthMethod::Gssapi, AuthMethod::UsernamePassword]),
            AuthMethodSelectionOption::new(AuthMethod::UsernamePassword),
        ]
    );
}

#[test]
fn option_block_incomplete_and_malformed() {
    assert_eq!(read_options(&[0]), Err(SocksError::Incomplete(1)));
    assert_eq!(read_options(&[0, 20, 0, 2]), Err(SocksError::Incomplete(2)));
    assert_eq!(read_options(&[0, 20, 0, 2, 0, 12, 0]), Err(SocksError::Incomplete(7)));
    assert_eq!(read_options(&[0, 4, 0, 9, 0, 2]), Err(SocksError::MalformedOption));
    assert_eq!(read_options(&[0, 0, 9, 9]), Ok((vec![], 2)));
}

#[test]
fn options_roundtrip() {
    let options = vec![
        AuthMethodAdvertisementOption::new(1234, vec![AuthMethod::UsernamePassword]),
        MetadataOption::new(998, String::from("0")),
        AuthMethodSelectionOption::new(AuthMethod::Gssapi),
        SocksOption::new(77, vec![1, 2, 3]),
    ];
    let bytes = options_as_bytes(&options);
    let mut block = vec![0, bytes.len() as u8];
    block.extend(bytes.iter());
    let (decoded, consumed) = read_options(&block).unwrap();
    assert_eq!(consumed, block.len());
    assert_eq!(decoded[0], options[0]);
    assert_eq!(decoded[1], options[1]);
    assert_eq!(decoded[2], options[2]);
    // Raw data keeps its padding.
    assert_eq!(decoded[3], SocksOption::new(77, vec![1, 2, 3, 0]));
}
