use rocket_container::types::{
    array_to_string, option_to_string, AssetType, Error, ErrorKind, VideoType,
};

#[test]
fn asset_types_print_their_wire_names() {
    assert_eq!(AssetType::Ad.to_string(), "AD");
    assert_eq!(AssetType::Image.to_string(), "IMAGE");
}

#[test]
fn video_types_print_their_wire_names() {
    assert_eq!(VideoType::Clip.to_string(), "CLIP");
    assert_eq!(VideoType::Episode.to_string(), "EPISODE");
    assert_eq!(VideoType::Movie.to_string(), "MOVIE");
}

#[test]
fn error_kinds_print_their_names() {
    assert_eq!(ErrorKind::Permanent.to_string(), "Permanent");
    assert_eq!(ErrorKind::Transient.to_string(), "Transient");
}

#[test]
fn error_prints_kind_and_message() {
    let error = Error {
        kind: ErrorKind::Transient,
        message: "Internal server error".to_string(),
    };
    assert_eq!(
        error.to_string(),
        "Error { kind: Transient, message: Internal server error }"
    );
}

#[test]
fn error_constructors_set_the_kind() {
    assert_eq!(
        Error::permanent("gone"),
        Error { kind: ErrorKind::Permanent, message: "gone".to_string() }
    );
    assert_eq!(
        Error::transient("busy"),
        Error { kind: ErrorKind::Transient, message: "busy".to_string() }
    );
    assert_eq!(Error::new(ErrorKind::Transient, "busy"), Error::transient("busy"));
    assert_eq!(Error::malformed(), Error::permanent("Malformed identifier"));
}

#[test]
fn error_clone_is_equal() {
    let error = Error::permanent("Resource not found");
    assert_eq!(error.clone(), error);
}

#[test]
fn option_to_string_of_some() {
    let option: Option<String> = Some("Hello".to_string());
    assert_eq!(option_to_string(&option), "Some(Hello)");
}

#[test]
fn option_to_string_of_none() {
    let option: Option<String> = None;
    assert_eq!(option_to_string(&option), "None");
}

#[test]
fn array_to_string_of_empty() {
    let array: [String; 0] = [];
    assert_eq!(array_to_string(&array), "[]");
}

#[test]
fn array_to_string_of_items() {
    let array: [String; 2] = ["Hello".to_string(), "World".to_string()];
    assert_eq!(array_to_string(&array), "[ , Hello, World ]");
}

#[test]
fn array_to_string_of_one_item() {
    let array = vec!["Hello".to_string()];
    assert_eq!(array_to_string(&array), "[ , Hello ]");
}
