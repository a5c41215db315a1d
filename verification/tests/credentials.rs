use socksx::credentials::check_credentials;
use socksx::{Credentials, SocksError};

#[test]
fn credentials_bytes_are_length_prefixed() {
    let credentials = Credentials::new(b"user".to_vec(), b"pw".to_vec());
    assert_eq!(credentials.as_socks_bytes(), vec![4, 117, 115, 101, 114, 2, 112, 119]);
    let empty = Credentials::new(vec![], vec![]);
    assert_eq!(empty.as_socks_bytes(), vec![0, 0]);
}

#[test]
fn long_credentials_are_refused() {
    assert_eq!(check_credentials(&None), Ok(()));
    assert_eq!(check_credentials(&Some(Credentials::new(vec![1; 255], vec![2; 255]))), Ok(()));
    assert_eq!(
        check_credentials(&Some(Credentials::new(vec![1; 256], vec![])),),
        Err(SocksError::UsernameTooLong)
    );
    assert_eq!(
        check_credentials(&Some(Credentials::new(vec![], vec![1; 300]))),
        Err(SocksError::PasswordTooLong)
    );
}

#[test]
fn cloned_credentials_are_equal() {
    let credentials = Credentials::new(b"a".to_vec(), b"b".to_vec());
    assert_eq!(credentials.clone(), credentials);
}
