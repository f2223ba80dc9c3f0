use msg_reader::error::{MsgError, MsgErrorKind};
use msg_reader::message::{
    get_msg, stream_keys, try_get_msg, windows_filetime_to_utc, MsgContents, UtcTime,
};
use msg_reader::names::substg_stream_name;
use msg_reader::properties::{find_property_value, get_msg_properties, parse_properties, MsgProperty};
use msg_reader::rtf_html::rtf_to_html_outlook;
use msg_reader::storage::{
    get_substg_binary, get_substg_string, ChildStorage, MsgStorage, StreamContent, TaggedStream,
};

fn utf16(s: &str) -> Vec<u8> {
    s.encode_utf16().flat_map(|u| u.to_le_bytes()).collect()
}

fn unicode(tag: u16, s: &str) -> TaggedStream {
    TaggedStream { tag, kind: 0x001F, content: StreamContent::Bytes(utf16(s)) }
}

fn string8(tag: u16, s: &str) -> TaggedStream {
    TaggedStream { tag, kind: 0x001E, content: StreamContent::Bytes(s.as_bytes().to_vec()) }
}

fn binary(tag: u16, b: &[u8]) -> TaggedStream {
    TaggedStream { tag, kind: 0x0102, content: StreamContent::Bytes(b.to_vec()) }
}

fn entry(ptype: u16, id: u16, flags: u32, value: u64) -> Vec<u8> {
    let mut v = Vec::new();
    v.extend_from_slice(&ptype.to_le_bytes());
    v.extend_from_slice(&id.to_le_bytes());
    v.extend_from_slice(&flags.to_le_bytes());
    v.extend_from_slice(&value.to_le_bytes());
    v
}

fn property_stream(entries: &[(u16, u64)]) -> StreamContent {
    let mut v = vec![0u8; 32];
    for (id, value) in entries {
        v.extend(entry(0x0040, *id, 6, *value));
    }
    StreamContent::Bytes(v)
}

fn storage(streams: Vec<TaggedStream>) -> MsgStorage {
    MsgStorage { streams, children: Vec::new() }
}

fn child(name: &str, streams: Vec<TaggedStream>, embedded: Option<MsgStorage>) -> ChildStorage {
    ChildStorage { name: name.to_string(), storage: storage(streams), embedded }
}

fn uncompressed_rtf(text: &str) -> Vec<u8> {
    let raw = text.as_bytes();
    let mut v = Vec::new();
    v.extend_from_slice(&(raw.len() as u32 + 12).to_le_bytes());
    v.extend_from_slice(&(raw.len() as u32).to_le_bytes());
    v.extend_from_slice(&0x414C454Du32.to_le_bytes());
    v.extend_from_slice(&0u32.to_le_bytes());
    v.extend_from_slice(raw);
    v
}

const COMPRESSED_SIMPLE_RTF: &[u8] = &[
    0x2d, 0x00, 0x00, 0x00, 0x2b, 0x00, 0x00, 0x00, 0x4c, 0x5a, 0x46, 0x75, 0xf1, 0xc5, 0xc7,
    0xa7, 0x03, 0x00, 0x0a, 0x00, 0x72, 0x63, 0x70, 0x67, 0x31, 0x32, 0x35, 0x42, 0x32, 0x0a,
    0xf3, 0x20, 0x68, 0x65, 0x6c, 0x09, 0x00, 0x20, 0x62, 0x77, 0x05, 0xb0, 0x6c, 0x64, 0x7d,
    0x0a, 0x80, 0x0f, 0xa0,
];

const RECEIVED: u64 = 133_000_000_000_000_000;
const SENT: u64 = 132_999_999_999_999_990;

fn simple_props() -> StreamContent {
    property_stream(&[(0x0E06, RECEIVED), (0x0039, SENT)])
}

fn read(props: &StreamContent, node: &MsgStorage) -> Result<MsgContents, MsgError> {
    try_get_msg(props, node).expect("reading does not panic")
}

#[test]
fn property_stream_entries_decode_little_endian() {
    let mut data = vec![0xAAu8; 32];
    data.extend(entry(0x0040, 0x0E06, 0x0000_0006, 0x01D9_0000_1234_5678));
    data.extend(entry(0x001F, 0x0037, 0x0000_0002, 0xFFFF_FFFF_FFFF_FFFF));
    let props = parse_properties(&data);
    assert_eq!(props.len(), 2);
    assert_eq!(
        props[0],
        MsgProperty { property_type: 0x0040, property_id: 0x0E06, property_flags: 6, value: 0x01D9_0000_1234_5678 }
    );
    assert_eq!(props[1].property_type, 0x001F);
    assert_eq!(props[1].property_id, 0x0037);
    assert_eq!(props[1].property_flags, 2);
    assert_eq!(props[1].value, u64::MAX);
}

#[test]
fn property_stream_header_only_gives_no_properties() {
    for len in [0usize, 16, 32] {
        let r = get_msg_properties(&StreamContent::Bytes(vec![1u8; len]));
        assert_eq!(r.unwrap().len(), 0);
    }
}

#[test]
fn property_stream_errors() {
    assert!(matches!(get_msg_properties(&StreamContent::Missing), Err(MsgError::PropertyStreamMissing)));
    assert!(matches!(
        get_msg_properties(&StreamContent::Bytes(vec![0u8; 33])),
        Err(MsgError::PropertyStreamNotDivisibleBy16)
    ));
    assert!(matches!(
        get_msg_properties(&StreamContent::Bytes(vec![0u8; 8])),
        Err(MsgError::PropertyStreamNotDivisibleBy16)
    ));
    assert_eq!(get_msg_properties(&StreamContent::Unreadable).unwrap().len(), 0);
}

#[test]
fn first_property_with_id_wins() {
    let props = vec![
        MsgProperty { property_type: 0x40, property_id: 7, property_flags: 0, value: 1 },
        MsgProperty { property_type: 0x40, property_id: 9, property_flags: 0, value: 2 },
        MsgProperty { property_type: 0x40, property_id: 7, property_flags: 0, value: 3 },
    ];
    assert_eq!(find_property_value(&props, 7), Some(1));
    assert_eq!(find_property_value(&props, 9), Some(2));
    assert_eq!(find_property_value(&props, 8), None);
}

#[test]
fn stream_names_are_upper_case_hex() {
    assert_eq!(substg_stream_name(0x0037, 0x001F), "__substg1.0_0037001F");
    assert_eq!(substg_stream_name(0x370E, 0x001E), "__substg1.0_370E001E");
    assert_eq!(substg_stream_name(0x39FE, 0x001F), "__substg1.0_39FE001F");
    assert_eq!(substg_stream_name(0x3701, 0x000D), "__substg1.0_3701000D");
    assert_eq!(substg_stream_name(0x3701, 0x0102), "__substg1.0_37010102");
    assert_eq!(substg_stream_name(0xABCD, 0xEF09), "__substg1.0_ABCDEF09");
}

#[test]
fn distinct_keys_give_distinct_names() {
    assert_ne!(substg_stream_name(0x1000, 0x001F), substg_stream_name(0x001F, 0x1000));
    assert_ne!(substg_stream_name(0x0037, 0x001F), substg_stream_name(0x0037, 0x001E));
}

#[test]
fn filetime_to_utc() {
    assert_eq!(windows_filetime_to_utc(0), UtcTime { micros_since_1601: 0 });
    assert_eq!(windows_filetime_to_utc(9), UtcTime { micros_since_1601: 0 });
    assert_eq!(windows_filetime_to_utc(10), UtcTime { micros_since_1601: 1 });
    assert_eq!(windows_filetime_to_utc(1_234_567), UtcTime { micros_since_1601: 123_456 });
    assert_eq!(
        windows_filetime_to_utc(u64::MAX),
        UtcTime { micros_since_1601: 1_844_674_407_370_955_161 }
    );
}

#[test]
fn filetime_ten_ticks_per_microsecond() {
    for a in [0u64, 5, 19, 116_444_736_000_000_000] {
        assert_eq!(
            windows_filetime_to_utc(a + 10).micros_since_1601,
            windows_filetime_to_utc(a).micros_since_1601 + 1
        );
        assert!(windows_filetime_to_utc(a).micros_since_1601 <= windows_filetime_to_utc(a + 3).micros_since_1601);
    }
}

#[test]
fn string_streams_prefer_unicode() {
    let s = vec![unicode(0x0037, "Grüße"), string8(0x0037, "ascii")];
    assert_eq!(get_substg_string(&s, 0x0037), "Grüße");
    let s = vec![string8(0x0037, "ascii only")];
    assert_eq!(get_substg_string(&s, 0x0037), "ascii only");
    let s = vec![TaggedStream { tag: 0x0037, kind: 0x001F, content: StreamContent::Unreadable }, string8(0x0037, "x")];
    assert_eq!(get_substg_string(&s, 0x0037), "");
    let s = vec![TaggedStream { tag: 0x0037, kind: 0x001F, content: StreamContent::Missing }, string8(0x0037, "x")];
    assert_eq!(get_substg_string(&s, 0x0037), "x");
    assert_eq!(get_substg_string(&Vec::new(), 0x0037), "");
}

#[test]
fn string8_streams_decode_lossily() {
    let s = vec![TaggedStream { tag: 0x3001, kind: 0x001E, content: StreamContent::Bytes(vec![b'a', 0xFF, b'b']) }];
    assert_eq!(get_substg_string(&s, 0x3001), "a\u{FFFD}b");
}

#[test]
fn binary_streams() {
    let s = vec![binary(0x3701, &[1, 2, 3])];
    assert_eq!(get_substg_binary(&s, 0x3701), vec![1, 2, 3]);
    assert_eq!(get_substg_binary(&s, 0x0071), Vec::<u8>::new());
    let s = vec![TaggedStream { tag: 0x3701, kind: 0x0102, content: StreamContent::Unreadable }];
    assert_eq!(get_substg_binary(&s, 0x3701), Vec::<u8>::new());
}

#[test]
fn stream_keys_cover_strings_and_binaries() {
    let keys = stream_keys();
    assert_eq!(keys.len(), 47);
    assert!(keys.contains(&(0x0037, 0x001F)));
    assert!(keys.contains(&(0x0037, 0x001E)));
    assert!(keys.contains(&(0x3704, 0x001F)));
    assert!(keys.contains(&(0x1009, 0x0102)));
    assert!(keys.contains(&(0x3701, 0x0102)));
}

#[test]
fn reads_a_simple_message() {
    let node = storage(vec![
        unicode(0x0037, "Hello"),
        unicode(0x1013, "<p>hi</p>"),
        unicode(0x1000, "hi"),
        unicode(0x0C1A, "Alice"),
        unicode(0x5D01, "alice@example.com"),
        unicode(0x0E04, "Bob"),
        binary(0x0071, &[9, 8, 7]),
    ]);
    let m = read(&simple_props(), &node).unwrap();
    assert_eq!(m.received_time, windows_filetime_to_utc(RECEIVED));
    assert_eq!(m.sent_time, Some(windows_filetime_to_utc(SENT)));
    assert_eq!(m.subject, "Hello");
    assert_eq!(m.html, "<p>hi</p>");
    assert_eq!(m.text, "hi");
    assert_eq!(m.sender_name, "Alice");
    assert_eq!(m.sender_smtp_address, "alice@example.com");
    assert_eq!(m.display_to, "Bob");
    assert_eq!(m.display_cc, "");
    assert_eq!(m.conversation_index, vec![9, 8, 7]);
    assert!(m.attachments.is_empty() && m.sub_msgs.is_empty() && m.recipients.is_empty());
}

#[test]
fn sent_time_is_optional_and_received_time_required() {
    let node = storage(vec![unicode(0x1013, "<b>x</b>")]);
    let m = read(&property_stream(&[(0x0E06, RECEIVED)]), &node).unwrap();
    assert_eq!(m.sent_time, None);
    let e = read(&property_stream(&[(0x0039, SENT)]), &node).unwrap_err();
    assert_eq!(e.kind(), MsgErrorKind::MissingReceivedTime);
    assert_eq!(e.description(), "Could not find the message received time (message_delivery_time)");
}

#[test]
fn property_errors_come_first() {
    let node = storage(vec![]);
    let e = read(&StreamContent::Missing, &node).unwrap_err();
    assert_eq!(e.kind(), MsgErrorKind::PropertyStreamMissing);
    assert_eq!(e.description(), "'/__properties_version1.0' does not exist");
    let e = read(&StreamContent::Bytes(vec![0u8; 40]), &node).unwrap_err();
    assert_eq!(e.description(), "Property stream not divisible by 16");
    let e = read(&StreamContent::Unreadable, &node).unwrap_err();
    assert_eq!(e.kind(), MsgErrorKind::MissingReceivedTime);
}

#[test]
fn html_comes_from_rtf_then_text() {
    // No HTML stream, plain RTF without encapsulated HTML: the text body is used.
    let node = storage(vec![unicode(0x1000, "plain body"), binary(0x1009, COMPRESSED_SIMPLE_RTF)]);
    let m = read(&simple_props(), &node).unwrap();
    assert_eq!(m.html, "plain body");
    assert_eq!(m.text, "plain body");

    // Encapsulated HTML in uncompressed RTF.
    let rtf = "{\\rtf1\\ansi\\fromhtml1 {\\fonttbl{\\f0 Arial;}}{\\*\\htmltag64 <p>}hi\\par{\\*\\htmltag72 </p>}}";
    let node = storage(vec![unicode(0x1000, "ignored"), binary(0x1009, &uncompressed_rtf(rtf))]);
    let m = read(&simple_props(), &node).unwrap();
    assert_eq!(m.html, "<p>hi\r\n</p>");
    assert_eq!(m.text, "ignored");
}

#[test]
fn missing_rtf_without_html_is_not_readable() {
    let node = storage(vec![unicode(0x1000, "text")]);
    assert!(try_get_msg(&simple_props(), &node).is_none());
    let node = storage(vec![binary(0x1009, &[1, 2, 3])]);
    assert!(try_get_msg(&simple_props(), &node).is_none());
}

#[test]
fn undecompressable_rtf_is_an_error() {
    let mut bad = uncompressed_rtf("{\\rtf1 x}");
    bad[8] = 0x00; // neither compressed nor uncompressed
    let node = storage(vec![binary(0x1009, &bad)]);
    let e = read(&simple_props(), &node).unwrap_err();
    assert_eq!(e.kind(), MsgErrorKind::Rtf);
    assert!(e.description().starts_with("Invalid COMPTYPE"));
    let mut short = uncompressed_rtf("{\\rtf1 x}");
    short[0] = 0x00; // COMPSIZE that does not match the length
    let node = storage(vec![binary(0x1009, &short)]);
    let e = read(&simple_props(), &node).unwrap_err();
    assert!(e.description().starts_with("COMPSIZE mismatch"));
}

#[test]
fn attachments_recipients_and_attached_messages() {
    let embedded = storage(vec![unicode(0x0037, "Inner"), unicode(0x1013, "<i>inner</i>")]);
    let node = MsgStorage {
        streams: vec![unicode(0x0037, "Outer"), unicode(0x1013, "<b>outer</b>")],
        children: vec![
            child("__recip_version1.0_#00000000", vec![
                unicode(0x3001, "Bob"),
                unicode(0x3003, "/o=ex/cn=bob"),
                unicode(0x39FE, "bob@example.com"),
            ], None),
            child("__attach_version1.0_#00000000", vec![
                unicode(0x3001, "a.txt"),
                unicode(0x3704, "A.TXT"),
                unicode(0x3707, "a.txt"),
                unicode(0x370E, "text/plain"),
                binary(0x3701, b"data"),
            ], None),
            child("__nameid_version1.0", vec![unicode(0x3001, "not counted")], None),
            child("__attach_version1.0_#00000001", vec![], Some(embedded)),
        ],
    };
    let m = read(&simple_props(), &node).unwrap();
    assert_eq!(m.recipients.len(), 1);
    assert_eq!(m.recipients[0].display_name, "Bob");
    assert_eq!(m.recipients[0].email_address, "/o=ex/cn=bob");
    assert_eq!(m.recipients[0].smtp_address, "bob@example.com");
    assert_eq!(m.attachments.len(), 1);
    let a = &m.attachments[0];
    assert_eq!(a.display_name, "a.txt");
    assert_eq!(a.filename, "A.TXT");
    assert_eq!(a.long_filename, "a.txt");
    assert_eq!(a.content_id, "");
    assert_eq!(a.mimetype, "text/plain");
    assert_eq!(a.data, b"data".to_vec());
    assert_eq!(m.sub_msgs.len(), 1);
    assert_eq!(m.sub_msgs[0].subject, "Inner");
    assert_eq!(m.sub_msgs[0].html, "<i>inner</i>");
    // Attached messages are read with the root property stream's times.
    assert_eq!(m.sub_msgs[0].received_time, m.received_time);
    assert_eq!(m.sub_msgs[0].sent_time, m.sent_time);
}

#[test]
fn attachment_with_neither_or_both_kinds_of_data() {
    let node = MsgStorage {
        streams: vec![unicode(0x1013, "h")],
        children: vec![child("__attach_version1.0_#00000000", vec![unicode(0x3001, "x")], None)],
    };
    let e = read(&simple_props(), &node).unwrap_err();
    assert_eq!(e.kind(), MsgErrorKind::AttachmentNotFileOrMsg);
    assert_eq!(e.description(), "msg attachment is not a file or a msg");

    let node = MsgStorage {
        streams: vec![unicode(0x1013, "h")],
        children: vec![child(
            "__attach_version1.0_#00000000",
            vec![TaggedStream { tag: 0x3701, kind: 0x0102, content: StreamContent::Unreadable }],
            Some(storage(vec![unicode(0x1013, "h")])),
        )],
    };
    let e = read(&simple_props(), &node).unwrap_err();
    assert_eq!(e.kind(), MsgErrorKind::AttachmentBothFileAndMsg);
    assert_eq!(e.description(), "msg attachment is both a file and a msg");
}

#[test]
fn attached_message_errors_propagate() {
    // The attached message has no HTML and no RTF: reading it would panic.
    let node = MsgStorage {
        streams: vec![unicode(0x1013, "h")],
        children: vec![child("__attach_version1.0_#00000000", vec![], Some(storage(vec![])))],
    };
    assert!(try_get_msg(&simple_props(), &node).is_none());
    let mut bad = uncompressed_rtf("{\\rtf1 x}");
    bad[8] = 0x00;
    let node = MsgStorage {
        streams: vec![unicode(0x1013, "h")],
        children: vec![child("__attach_version1.0_#00000000", vec![], Some(storage(vec![binary(0x1009, &bad)])))],
    };
    assert_eq!(read(&simple_props(), &node).unwrap_err().kind(), MsgErrorKind::Rtf);
}

#[test]
fn get_msg_on_a_defined_snapshot() {
    let node = storage(vec![unicode(0x1013, "<p/>")]);
    let m = get_msg(&simple_props(), &node).unwrap();
    assert_eq!(m.html, "<p/>");
}

#[test]
fn rtf_without_fromhtml_has_no_html() {
    assert_eq!(rtf_to_html_outlook(&"{\\rtf1\\ansi hello}".to_string()), None);
    assert_eq!(rtf_to_html_outlook(&String::new()), None);
}

#[test]
fn rtf_deencapsulation() {
    let rtf = [
        "{\\rtf1\\ansi\\ansicpg1252\\fromhtml1 \\deff0{\\fonttbl\r\n",
        "{\\f0\\fswiss Arial;}}\r\n",
        "{\\colortbl\\red0\\green0\\blue0;}\r\n",
        "{\\*\\generator Microsoft Exchange Server;}\r\n",
        "\\htmlrtf \\lang1033 \\htmlrtf0 {\\*\\htmltag96 <html>}\r\n",
        "{\\*\\htmltag64 <body>}\r\n",
        "Caf\\'e9 \\{x\\}\\tab y\\u8364?z\\par\r\n",
        "\\htmlrtf {\\b bold rtf only}\\htmlrtf0 \r\n",
        "{\\*\\htmltag72 </body>}{\\*\\htmltag104 </html>}}",
    ]
    .concat();
    let html = rtf_to_html_outlook(&rtf).unwrap();
    assert_eq!(html, "<html><body>Café {x}\ty€z\r\n</body></html>");
}

#[test]
fn rtf_deencapsulation_keeps_htmltag_escapes() {
    let rtf = "{\\rtf1\\fromhtml1 {\\*\\htmltag4 \\par }{\\*\\htmltag0 <a href=\"x\\\\y\">}}";
    assert_eq!(rtf_to_html_outlook(&rtf.to_string()).unwrap(), "\r\n<a href=\"x\\y\">");
}

#[test]
fn html_from_compressed_rtf() {
    let rtf = "{\\rtf1\\ansi\\fromhtml1 {\\*\\htmltag64 <div>}compressed body{\\*\\htmltag72 </div>}}";
    let data = compressed_rtf::compress_rtf(rtf).unwrap();
    let node = storage(vec![unicode(0x1000, "plain"), binary(0x1009, &data)]);
    let m = read(&simple_props(), &node).unwrap();
    assert_eq!(m.html, "<div>compressed body</div>");
    assert_eq!(m.text, "plain");
}

#[test]
fn unicode_stream_with_byte_order_mark() {
    let mut bytes = vec![0xFF, 0xFE];
    bytes.extend(utf16("bom"));
    let s = vec![TaggedStream { tag: 0x0037, kind: 0x001F, content: StreamContent::Bytes(bytes) }];
    assert_eq!(get_substg_string(&s, 0x0037), "bom");
}

#[test]
fn attachment_filename_from_attach_filename_property() {
    let mut props = vec![0u8; 32];
    props.extend_from_slice(&[0x40, 0x00, 0x06, 0x0E, 0x06, 0x00, 0x00, 0x00, 0x00, 0x80, 0x3E, 0xD5, 0xDE, 0xB1, 0x9D, 0x01]);
    let node = MsgStorage {
        streams: vec![string8(0x1013, "h")],
        children: vec![child(
            "__attach_version1.0_#00000000",
            vec![binary(0x3701, &[1, 2, 3]), string8(0x3704, "a.txt")],
            None,
        )],
    };
    let m = read(&StreamContent::Bytes(props), &node).unwrap();
    assert_eq!(m.attachments.len(), 1);
    assert_eq!(m.attachments[0].filename, "a.txt");
    assert_eq!(m.attachments[0].data, vec![1u8, 2, 3]);
    assert_eq!(m.attachments[0].display_name, "");
    assert_eq!(m.html, "h");
    assert_eq!(m.text, "");
    assert_eq!(m.sent_time, None);
    // 1970-01-01T00:00:00Z is 11644473600 seconds after 1601-01-01T00:00:00Z.
    assert_eq!(m.received_time, UtcTime { micros_since_1601: 11_644_473_600_000_000 });
    assert!(m.sub_msgs.is_empty() && m.recipients.is_empty());
}

#[test]
fn large_binary_and_string8_streams_are_read() {
    let big = vec![b'x'; 1 << 20];
    let node = storage(vec![
        string8(0x1013, std::str::from_utf8(&big).unwrap()),
        binary(0x0071, &big),
    ]);
    let m = read(&simple_props(), &node).unwrap();
    assert_eq!(m.html.len(), 1 << 20);
    assert_eq!(m.conversation_index.len(), 1 << 20);
}

#[test]
fn rtf_error_carries_the_decompressor_text() {
    let mut bad = uncompressed_rtf("{\\rtf1 x}");
    bad[8] = 0x01;
    let node = storage(vec![binary(0x1009, &bad)]);
    match read(&simple_props(), &node).unwrap_err() {
        MsgError::Rtf(t) => assert!(t.starts_with("Invalid COMPTYPE")),
        other => panic!("unexpected {:?}", other),
    }
}
