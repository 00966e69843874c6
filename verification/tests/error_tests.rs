use mocasa::error::{for_file, Error, ErrorKind};

#[test]
fn kind_names_are_as_documented() {
    assert_eq!(ErrorKind::Mocasa.as_str(), "Mocasa error");
    assert_eq!(ErrorKind::IOError.as_str(), "I/O error");
    assert_eq!(ErrorKind::SerdeJson.as_str(), "Serde JSON");
}

#[test]
fn for_file_names_the_file_first() {
    let failure: std::io::Result<u8> =
        Err(std::io::Error::new(std::io::ErrorKind::Other, "boom"));
    let error = for_file("data.tsv", failure).unwrap_err();
    assert_eq!(error.kind, ErrorKind::IOError);
    assert_eq!(error.message, "data.tsv: boom");
    let passed: Result<u8, Error> = for_file("data.tsv", Ok(7));
    assert_eq!(passed.unwrap(), 7);
}

#[test]
fn error_reads_as_kind_and_message() {
    let error = Error::new(ErrorKind::ParseFloat, "invalid float literal".to_string());
    assert_eq!(error.kind, ErrorKind::ParseFloat);
    assert_eq!(error.to_text(), "parse float error: invalid float literal");
    let error = Error::from("Not enough data".to_string());
    assert_eq!(error.kind, ErrorKind::Mocasa);
    assert_eq!(error.message, "Not enough data");
    assert_eq!(error.to_text(), "Mocasa error: Not enough data");
    let error = Error::mocasa("No GWAS specified.");
    assert_eq!(error.kind, ErrorKind::Mocasa);
    assert_eq!(error.to_text(), "Mocasa error: No GWAS specified.");
    let error = Error::for_path("out/params.json", "No such file or directory");
    assert_eq!(error.kind, ErrorKind::IOError);
    assert_eq!(error.to_text(), "I/O error: out/params.json: No such file or directory");
}

#[test]
fn every_kind_has_its_name() {
    let names = [
        (ErrorKind::Mocasa, "Mocasa error"),
        (ErrorKind::IOError, "I/O error"),
        (ErrorKind::TomlDe, "TOML deserialization error"),
        (ErrorKind::TomlSer, "TOML serialization error"),
        (ErrorKind::ParseFloat, "parse float error"),
        (ErrorKind::Send, "send error"),
        (ErrorKind::Receive, "receive error"),
        (ErrorKind::ReceiveTimeout, "receive timeout error"),
        (ErrorKind::SystemTime, "system time error"),
        (ErrorKind::SerdeJson, "Serde JSON"),
    ];
    for (kind, name) in names {
        assert_eq!(kind.as_str(), name);
    }
}
