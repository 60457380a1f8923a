use wastebin_config::expiration::{parse_expiration_set, ExpirationError};
use wastebin_config::{expiration_set, Error};

#[test]
fn marked_entry_becomes_default() {
    let set = expiration_set(Some("0,600,3600=d,86400")).unwrap();
    assert_eq!(set.values, vec![0, 600, 3600, 86400]);
    assert_eq!(set.default_index, 2);
}

#[test]
fn unmarked_list_defaults_to_first_entry() {
    let set = expiration_set(Some("1,2,3")).unwrap();
    assert_eq!(set.values, vec![1, 2, 3]);
    assert_eq!(set.default_index, 0);
}

#[test]
fn built_in_default_always_parses() {
    let set = expiration_set(None).unwrap();
    assert_eq!(set.values, vec![0, 600, 3600, 86400, 604800, 2419200, 29030400]);
    assert_eq!(set.default_index, 2);
}

#[test]
fn second_marker_is_rejected() {
    assert_eq!(
        expiration_set(Some("0=d,600=d")),
        Err(Error::PasteExpiration(ExpirationError::MultipleDefaults))
    );
}

#[test]
fn negative_duration_names_the_token() {
    assert_eq!(
        expiration_set(Some("60,-5")),
        Err(Error::PasteExpiration(ExpirationError::BadToken(
            "-5".to_string()
        )))
    );
}

#[test]
fn bare_marker_is_a_bad_token() {
    assert_eq!(
        expiration_set(Some("=d")),
        Err(Error::PasteExpiration(ExpirationError::BadToken(
            "=d".to_string()
        )))
    );
}

#[test]
fn empty_input_is_a_bad_token() {
    assert_eq!(
        expiration_set(Some("")),
        Err(Error::PasteExpiration(ExpirationError::BadToken(String::new())))
    );
}

#[test]
fn duplicate_value_is_rejected() {
    assert_eq!(
        expiration_set(Some("60,60")),
        Err(Error::PasteExpiration(ExpirationError::DuplicateValue(60)))
    );
}

#[test]
fn duplicate_found_even_with_marker() {
    assert_eq!(
        parse_expiration_set("60,3600,60=d"),
        Err(ExpirationError::DuplicateValue(60))
    );
}

#[test]
fn single_zero_means_never_expires() {
    let set = parse_expiration_set("0").unwrap();
    assert_eq!(set.values, vec![0]);
    assert_eq!(set.default_index, 0);
}

#[test]
fn marker_on_first_token_is_kept() {
    let set = parse_expiration_set("300=d,600").unwrap();
    assert_eq!(set.values, vec![300, 600]);
    assert_eq!(set.default_index, 0);
}

#[test]
fn overflowing_duration_is_a_bad_token() {
    let input = "60,99999999999999999999999999";
    assert_eq!(
        parse_expiration_set(input),
        Err(ExpirationError::BadToken(
            "99999999999999999999999999".to_string()
        ))
    );
}

#[test]
fn plus_sign_is_part_of_the_numeral() {
    let set = parse_expiration_set("+60").unwrap();
    assert_eq!(set.values, vec![60]);
}

#[test]
fn leading_zeros_are_read_as_the_same_number() {
    let set = parse_expiration_set("0600").unwrap();
    assert_eq!(set.values, vec![600]);
}

#[test]
fn surrounding_spaces_are_not_trimmed() {
    assert_eq!(
        parse_expiration_set("60, 70"),
        Err(ExpirationError::BadToken(" 70".to_string()))
    );
}

#[test]
fn adjacent_delimiters_make_an_empty_token() {
    assert_eq!(
        parse_expiration_set("60,,70"),
        Err(ExpirationError::BadToken(String::new()))
    );
}

#[test]
fn marker_must_be_a_suffix() {
    assert_eq!(
        parse_expiration_set("=d60"),
        Err(ExpirationError::BadToken("=d60".to_string()))
    );
}
