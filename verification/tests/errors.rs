use mud_server::world::errors::Error;

#[test]
fn messages() {
    assert_eq!(Error::InvalidCommand.to_string(), "invalid command");
    assert_eq!(Error::InvalidDataMessage.to_string(), "invalid data message");
    assert_eq!(Error::PlayerDoesNotExist.to_string(), "player does not exist");
    assert_eq!(Error::NoSpawnpointFound.to_string(), "no valid spawnpoint found");
    assert_eq!(Error::VerbUnknownError.to_string(), "unknown verb");
    assert_eq!(Error::VerbEncodingError.to_string(), "unknown verb encoding");
    assert_eq!(Error::PropertyConversionFailed.to_string(), "property conversion failed");
    assert_eq!(Error::UnknownError.to_string(), "unknown error");
}

#[test]
fn known_errors_equal_themselves_only() {
    let errors = [
        Error::InvalidCommand,
        Error::InvalidDataMessage,
        Error::PlayerDoesNotExist,
        Error::NoSpawnpointFound,
        Error::VerbUnknownError,
        Error::VerbEncodingError,
        Error::PropertyConversionFailed,
    ];
    for (i, a) in errors.iter().enumerate() {
        for (j, b) in errors.iter().enumerate() {
            assert_eq!(a == b, i == j);
        }
        assert!(*a != Error::UnknownError);
        assert!(Error::UnknownError != *a);
    }
}

#[test]
fn an_unknown_error_equals_nothing() {
    assert!(Error::UnknownError != Error::UnknownError);
    assert!(!(Error::UnknownError == Error::UnknownError));
}
