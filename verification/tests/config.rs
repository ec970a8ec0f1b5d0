use bluedot::config::{census_api_key_from, value_from_dotenv, KEY_VAR};
use bluedot::Error;

#[test]
fn reads_key_ignoring_comments_and_quotes() {
    let text = "# comment\n\nOTHER=1\nCENSUS_API_KEY=\"abc123\"\n";
    assert_eq!(value_from_dotenv(text, KEY_VAR).as_deref(), Some("abc123"));
}

#[test]
fn missing_or_empty_is_none() {
    assert_eq!(value_from_dotenv("OTHER=1\n", KEY_VAR), None);
    assert_eq!(value_from_dotenv("CENSUS_API_KEY=\n", KEY_VAR), None);
}

#[test]
fn first_matching_line_decides_and_spaces_are_trimmed() {
    let text = "  CENSUS_API_KEY = 'k1'  \r\nCENSUS_API_KEY=k2\n";
    assert_eq!(value_from_dotenv(text, KEY_VAR).as_deref(), Some("k1"));
    // an empty first value is the answer: no key
    assert_eq!(value_from_dotenv("CENSUS_API_KEY=\"\"\nCENSUS_API_KEY=k2", KEY_VAR), None);
    // a commented-out line does not count
    assert_eq!(value_from_dotenv("#CENSUS_API_KEY=x\nCENSUS_API_KEY=y", KEY_VAR).as_deref(), Some("y"));
    // a line without `=` is skipped
    assert_eq!(value_from_dotenv("CENSUS_API_KEY\nCENSUS_API_KEY=z", KEY_VAR).as_deref(), Some("z"));
    // only one layer of matching quotes comes off
    assert_eq!(value_from_dotenv("CENSUS_API_KEY=\"'q'\"", KEY_VAR).as_deref(), Some("'q'"));
    assert_eq!(value_from_dotenv("CENSUS_API_KEY=\"q'", KEY_VAR).as_deref(), Some("\"q'"));
    // the value may itself hold `=`
    assert_eq!(value_from_dotenv("CENSUS_API_KEY=a=b", KEY_VAR).as_deref(), Some("a=b"));
}

#[test]
fn environment_wins_over_the_dotenv_file() {
    let file = "CENSUS_API_KEY=from_file\n";
    assert_eq!(census_api_key_from(Some("  env_key "), Some(file)).unwrap(), "env_key");
    assert_eq!(census_api_key_from(Some("   "), Some(file)).unwrap(), "from_file");
    assert_eq!(census_api_key_from(None, Some(file)).unwrap(), "from_file");
    assert!(matches!(census_api_key_from(None, None), Err(Error::MissingApiKey)));
    assert!(matches!(
        census_api_key_from(Some(""), Some("OTHER=1\n")),
        Err(Error::MissingApiKey)
    ));
}
