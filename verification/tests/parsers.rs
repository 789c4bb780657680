use schooner::schooner::net::parsers::{
    frame_msg, make_content_length, make_id_hdr, parse_content_length, parse_server_id, to_result,
    LENGTH_TOKEN,
};

#[test]
fn test_content_length() {
    assert!(parse_content_length(&(LENGTH_TOKEN.to_string() + ": 800")).unwrap() == 800);
    assert!(parse_content_length(&(LENGTH_TOKEN.to_string() + ": 32")).unwrap() == 32);
    assert!(parse_content_length(&(LENGTH_TOKEN.to_string() + ": 0")).unwrap() == 0);
    assert!(parse_content_length(": 0").is_err());
    assert!(parse_content_length("Length 0").is_err());
}

#[test]
fn test_parse_id() {
    assert!(parse_server_id(&make_id_hdr(53)).unwrap() == 53);
    assert!(parse_server_id(&make_id_hdr(0)).unwrap() == 0);
    assert!(parse_server_id("buckets: 0").is_err());
    assert!(parse_server_id("Length 0").is_err());
}

#[test]
fn frame_msg_puts_byte_length_first() {
    assert_eq!("Content-Length: 11\nHello world", frame_msg("Hello world"));
    assert_eq!("Content-Length: 2\né", frame_msg("é"));
    assert_eq!("Content-Length: 0", make_content_length(""));
    assert_eq!("Server-Id: 7", make_id_hdr(7));
}

#[test]
fn header_found_anywhere_in_line() {
    assert_eq!(12, parse_content_length("x Content-Length: 12abc").unwrap());
    assert!(parse_content_length("Content-Length: 99999999999999999999999").is_err());
    assert!(parse_content_length("Content-Length: ").is_err());
    let e = parse_content_length("nothing").unwrap_err();
    assert_eq!("Failed parsing content length", e.desc);
    let e = parse_server_id("nothing").unwrap_err();
    assert_eq!("Failed parsing server ID", e.desc);
}

#[test]
fn to_result_keeps_value_or_message() {
    assert_eq!(5, to_result(Some(5), "bad").unwrap());
    assert_eq!("bad", to_result::<u8>(None, "bad").unwrap_err().desc);
}
