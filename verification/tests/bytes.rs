use prost_serde_derive::attr::{ProstBytesType, ProtobufType};
use prost_serde_derive::catalog::Catalog;
use prost_serde_derive::decode::decode_value;
use prost_serde_derive::encode::encode_value;
use prost_serde_derive::json::JsonValue;
use prost_serde_derive::message::{DecodeError, Value};

#[test]
fn bytes_are_written_as_base64() {
    let catalog = Catalog::new();
    let ty = ProtobufType::Bytes(ProstBytesType::Vec);
    let json = encode_value(&catalog, &ty, &String::new(), &Value::Bytes(vec![0xff, 0xe2, 0x3f]));
    assert_eq!(json, Ok(JsonValue::String("/+I/".to_string())));
}

#[test]
fn base64_is_read_as_bytes() {
    let catalog = Catalog::new();
    let ty = ProtobufType::Bytes(ProstBytesType::Vec);
    let value = decode_value(&catalog, &ty, &String::new(), &JsonValue::String("/+I/".to_string()));
    assert_eq!(value, Ok(Value::Bytes(vec![0xff, 0xe2, 0x3f])));
}

#[test]
fn malformed_base64_is_invalid_bytes() {
    let catalog = Catalog::new();
    let ty = ProtobufType::Bytes(ProstBytesType::Vec);
    let value = decode_value(&catalog, &ty, &String::new(), &JsonValue::String("***".to_string()));
    assert_eq!(value, Err(DecodeError::InvalidBytes("***".to_string())));
}
