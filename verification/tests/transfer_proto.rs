use net_utils::proxy::process_data;
use net_utils::transfer::{
    format_download_header, format_i64, format_u64, parse_download_header, parse_exec_upload,
    parse_file_size, parse_u64,
};

#[test]
fn formats_decimal() {
    assert_eq!(format_u64(0), "0");
    assert_eq!(format_u64(7), "7");
    assert_eq!(format_u64(12345), "12345");
    assert_eq!(format_u64(u64::MAX), "18446744073709551615");
}

#[test]
fn formats_signed_decimal() {
    assert_eq!(format_i64(0), "0");
    assert_eq!(format_i64(-1), "-1");
    assert_eq!(format_i64(i64::MIN), "-9223372036854775808");
}

#[test]
fn parses_decimal() {
    assert_eq!(parse_u64("0"), Some(0));
    assert_eq!(parse_u64("00042"), Some(42));
    assert_eq!(parse_u64("18446744073709551615"), Some(u64::MAX));
    assert_eq!(parse_u64("18446744073709551616"), None);
    assert_eq!(parse_u64(""), None);
    assert_eq!(parse_u64("12a"), None);
    assert_eq!(parse_u64("-3"), None);
}

#[test]
fn size_survives_round_trip() {
    for n in [0u64, 1, 9, 10, 4096, 123_456_789, u64::MAX] {
        assert_eq!(parse_u64(&format_u64(n)), Some(n));
    }
}

#[test]
fn size_line_tolerates_line_endings() {
    assert_eq!(parse_file_size("42\r\n"), Some(42));
    assert_eq!(parse_file_size("  42  "), Some(42));
    assert_eq!(parse_file_size("abc\n"), None);
    assert_eq!(parse_file_size("\n"), None);
}

#[test]
fn download_header_is_exact() {
    assert_eq!(format_download_header(512), "FILE_SIZE 512\n");
}

#[test]
fn download_header_survives_round_trip() {
    for n in [0u64, 5, 100, 65_536, u64::MAX] {
        let header = format_download_header(n);
        assert_eq!(parse_download_header(&header), Some(n));
    }
}

#[test]
fn download_header_rejects_other_lines() {
    assert_eq!(parse_download_header("FILE_SIZE x\n"), None);
    assert_eq!(parse_download_header("SIZE 12\n"), None);
    assert_eq!(parse_download_header(""), None);
}

#[test]
fn exec_upload_line_parses() {
    let req = parse_exec_upload("EXEC_UPLOAD tool 1024 -v --fast").unwrap();
    assert_eq!(req.name, "tool");
    assert_eq!(req.size, 1024);
    assert_eq!(req.args, vec!["-v", "--fast"]);
}

#[test]
fn exec_upload_without_args_parses() {
    let req = parse_exec_upload("EXEC_UPLOAD tool 12").unwrap();
    assert_eq!(req.name, "tool");
    assert_eq!(req.size, 12);
    assert!(req.args.is_empty());
}

#[test]
fn exec_upload_bad_size_is_rejected() {
    assert!(parse_exec_upload("EXEC_UPLOAD tool big").is_none());
    assert!(parse_exec_upload("EXEC_UPLOAD tool").is_none());
    assert!(parse_exec_upload("UPLOAD tool 12").is_none());
}

#[test]
fn relayed_bytes_are_unchanged() {
    let data: Vec<u8> = (0u8..=255).collect();
    assert_eq!(process_data(&data), data);
    assert_eq!(process_data(&[]), Vec::<u8>::new());
}

#[test]
fn upload_then_download_preserves_content_and_length() {
    // The declared length survives both framings, and the payload passes
    // through the relay hook byte for byte.
    let content: Vec<u8> = b"neither\0text\xffnor short".to_vec();
    let declared = content.len() as u64;
    let stored = process_data(&content);
    assert_eq!(stored, content);
    assert_eq!(parse_file_size(&format_u64(declared)), Some(declared));
    let header = format_download_header(stored.len() as u64);
    assert_eq!(parse_download_header(&header), Some(declared));
}
