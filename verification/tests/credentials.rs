use url_uploader::credentials::{load_credentials, CredentialsError};

fn some(s: &str) -> Option<String> {
    Some(s.to_string())
}

#[test]
fn all_set_gives_credentials() {
    let c = load_credentials(some("12345"), some("hash"), some("token")).unwrap();
    assert_eq!(c.api_id, 12345);
    assert_eq!(c.api_hash, "hash");
    assert_eq!(c.bot_token, "token");
}

#[test]
fn errors_come_in_the_order_of_the_checks() {
    assert_eq!(load_credentials(None, None, None).err(), Some(CredentialsError::ApiIdNotSet));
    assert_eq!(load_credentials(some("x"), None, None).err(), Some(CredentialsError::ApiIdInvalid));
    assert_eq!(load_credentials(some("1"), None, None).err(), Some(CredentialsError::ApiHashNotSet));
    assert_eq!(load_credentials(some("1"), some("h"), None).err(), Some(CredentialsError::BotTokenNotSet));
}

#[test]
fn error_messages() {
    assert_eq!(CredentialsError::ApiIdNotSet.message(), "API_ID env is not set");
    assert_eq!(CredentialsError::ApiIdInvalid.message(), "Failed to parse API_ID");
    assert_eq!(CredentialsError::ApiHashNotSet.message(), "API_HASH env is not set");
    assert_eq!(CredentialsError::BotTokenNotSet.message(), "BOT_TOKEN env is not set");
}

#[test]
fn api_id_is_parsed_as_std_parses_an_i32() {
    for text in [
        "0", "-0", "+7", "-7", "007", "2147483647", "2147483648", "-2147483648", "-2147483649", "",
        "+", "-", " 1", "1 ", "1_000", "١٢", "+-1", "99999999999999999999",
    ] {
        let expected = text.parse::<i32>().ok();
        let got = load_credentials(some(text), some("h"), some("t")).ok().map(|c| c.api_id);
        assert_eq!(got, expected, "{:?}", text);
    }
}
