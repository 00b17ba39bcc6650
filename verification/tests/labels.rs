use douglas::docker::Label;
use douglas::labels::{
    create_origin_label, create_version_label, get_origin, get_version, LabelError, Origin,
    ORIGIN_LABEL, VERSION_LABEL,
};
use douglas::seedling::Version;

#[test]
fn test_get_version_should_round_trip_through_create_version_label() {
    let version = Version(2);
    let label = create_version_label(version);

    let result = get_version(&vec![label]).expect("should find the version");

    assert_eq!(result, version);
}

#[test]
fn test_get_version_should_error_when_the_label_is_missing() {
    let result = get_version(&vec![Label::new("other.label", "1")]);

    assert!(matches!(result, Err(LabelError::MissingVersion)));
}

#[test]
fn test_get_version_should_error_when_the_value_is_not_a_version() {
    let result = get_version(&vec![Label::new(VERSION_LABEL, "not-a-number")]);

    assert!(matches!(result, Err(LabelError::MissingVersion)));
}

#[test]
fn test_get_origin_should_round_trip_through_create_origin_label() {
    let label = create_origin_label(Origin::Core);

    let result = get_origin(&vec![label]);

    assert_eq!(result, Some(Origin::Core));
}

#[test]
fn test_get_origin_should_return_none_when_the_label_is_missing() {
    let result = get_origin(&vec![Label::new("other.label", "core")]);

    assert_eq!(result, None);
}

#[test]
fn test_get_origin_should_return_none_for_an_unrecognized_value() {
    let result = get_origin(&vec![Label::new(ORIGIN_LABEL, "unknown")]);

    assert_eq!(result, None);
}

#[test]
fn test_both_labels_can_be_read_back_from_one_list() {
    let labels = vec![create_version_label(Version(7)), create_origin_label(Origin::User)];

    assert_eq!(get_version(&labels), Ok(Version(7)));
    assert_eq!(get_origin(&labels), Some(Origin::User));
}

#[test]
fn test_a_missing_version_says_so() {
    assert_eq!(
        LabelError::MissingVersion.describe(),
        "Could not determine resource version"
    );
}
