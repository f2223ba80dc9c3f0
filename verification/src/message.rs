use vstd::prelude::*;

use crate::decode::{
    decompress_rtf, rtf_decompress_returns, rtf_decompressed, utf16le_decode_fits,
};
use crate::error::{MsgError, MsgErrorView};
use crate::properties::{
    find_property_value, get_msg_properties, spec_find_value, spec_get_msg_properties,
};
use crate::rtf_html::spec_rtf_to_html;
use crate::storage::{
    find_stream, get_substg_binary, get_substg_string, spec_stream, storage_binary, storage_string,
    string_readable, PT_STRING8, PT_UNICODE, ChildStorage, MsgStorage, StreamContent, TaggedStream,
    PT_BINARY,
};

verus! {

/// Property id of the message delivery time (the time the message was received).
pub const PID_MESSAGE_DELIVERY_TIME: u16 = 0x0E06;
/// Property id of the client submit time (the time the message was sent).
pub const PID_CLIENT_SUBMIT_TIME: u16 = 0x0039;
pub const PID_SUBJECT: u16 = 0x0037;
pub const PID_BODY_HTML: u16 = 0x1013;
pub const PID_RTF_COMPRESSED: u16 = 0x1009;
pub const PID_BODY: u16 = 0x1000;
pub const PID_NORMALIZED_SUBJECT: u16 = 0x0E1D;
pub const PID_CONVERSATION_TOPIC: u16 = 0x0070;
pub const PID_CONVERSATION_INDEX: u16 = 0x0071;
pub const PID_SENDER_NAME: u16 = 0x0C1A;
pub const PID_SENDER_EMAIL_ADDRESS: u16 = 0x0C1F;
pub const PID_SENDER_SMTP_ADDRESS: u16 = 0x5D01;
pub const PID_RECEIVED_BY_NAME: u16 = 0x0040;
pub const PID_RECEIVED_BY_EMAIL_ADDRESS: u16 = 0x0076;
pub const PID_RECEIVED_BY_SMTP_ADDRESS: u16 = 0x5D07;
pub const PID_DISPLAY_BCC: u16 = 0x0E02;
pub const PID_DISPLAY_CC: u16 = 0x0E03;
pub const PID_DISPLAY_TO: u16 = 0x0E04;
pub const PID_TRANSPORT_MESSAGE_HEADERS: u16 = 0x007D;
pub const PID_DISPLAY_NAME: u16 = 0x3001;
/// The attachment's file name (PidTagAttachFilename).
pub const PID_ATTACH_FILENAME: u16 = 0x3704;
pub const PID_ATTACH_LONG_FILENAME: u16 = 0x3707;
pub const PID_ATTACH_CONTENT_ID: u16 = 0x3712;
pub const PID_ATTACH_MIME_TAG: u16 = 0x370E;
/// The attachment's data: bytes (binary type) or a message (object type).
pub const PID_ATTACH_DATA_OBJECT: u16 = 0x3701;
/// Property type of an embedded object (an attached message's storage).
pub const PT_OBJECT: u16 = 0x000D;
pub const PID_EMAIL_ADDRESS: u16 = 0x3003;
pub const PID_SMTP_ADDRESS: u16 = 0x39FE;

/// The string properties that reading a message, an attachment or a
/// recipient consults.
pub open spec fn string_tags() -> Seq<u16> {
    seq![
        PID_SUBJECT, PID_BODY_HTML, PID_BODY, PID_NORMALIZED_SUBJECT, PID_CONVERSATION_TOPIC,
        PID_SENDER_NAME, PID_SENDER_EMAIL_ADDRESS, PID_SENDER_SMTP_ADDRESS, PID_RECEIVED_BY_NAME,
        PID_RECEIVED_BY_EMAIL_ADDRESS, PID_RECEIVED_BY_SMTP_ADDRESS, PID_DISPLAY_BCC, PID_DISPLAY_CC,
        PID_DISPLAY_TO, PID_TRANSPORT_MESSAGE_HEADERS, PID_DISPLAY_NAME, PID_ATTACH_FILENAME,
        PID_ATTACH_LONG_FILENAME, PID_ATTACH_CONTENT_ID, PID_ATTACH_MIME_TAG, PID_EMAIL_ADDRESS,
        PID_SMTP_ADDRESS,
    ]
}

/// The binary properties that reading a message or an attachment consults.
pub open spec fn binary_tags() -> Seq<u16> {
    seq![PID_RTF_COMPRESSED, PID_CONVERSATION_INDEX, PID_ATTACH_DATA_OBJECT]
}

/// The streams that reading a storage consults: each string property as
/// Unicode and as 8-bit string, then each binary property.
pub open spec fn spec_stream_keys() -> Seq<(u16, u16)> {
    string_tags().map_values(|t: u16| (t, PT_UNICODE)) + string_tags().map_values(
        |t: u16| (t, PT_STRING8),
    ) + binary_tags().map_values(|t: u16| (t, PT_BINARY))
}

/// The tag and type of every stream that reading a storage consults; a
/// snapshot that holds what reading each of them gave is complete.
pub fn stream_keys() -> (v: Vec<(u16, u16)>)
    ensures
        v@ == spec_stream_keys(),
{
    let strings: [u16; 22] = [
        PID_SUBJECT, PID_BODY_HTML, PID_BODY, PID_NORMALIZED_SUBJECT, PID_CONVERSATION_TOPIC,
        PID_SENDER_NAME, PID_SENDER_EMAIL_ADDRESS, PID_SENDER_SMTP_ADDRESS, PID_RECEIVED_BY_NAME,
        PID_RECEIVED_BY_EMAIL_ADDRESS, PID_RECEIVED_BY_SMTP_ADDRESS, PID_DISPLAY_BCC, PID_DISPLAY_CC,
        PID_DISPLAY_TO, PID_TRANSPORT_MESSAGE_HEADERS, PID_DISPLAY_NAME, PID_ATTACH_FILENAME,
        PID_ATTACH_LONG_FILENAME, PID_ATTACH_CONTENT_ID, PID_ATTACH_MIME_TAG, PID_EMAIL_ADDRESS,
        PID_SMTP_ADDRESS,
    ];
    let binaries: [u16; 3] = [PID_RTF_COMPRESSED, PID_CONVERSATION_INDEX, PID_ATTACH_DATA_OBJECT];
    assert(strings@ =~= string_tags());
    assert(binaries@ =~= binary_tags());
    let mut v: Vec<(u16, u16)> = Vec::new();
    let mut i: usize = 0;
    while i < 22
        invariant
            i <= 22,
            strings@ == string_tags(),
            v@ =~= string_tags().take(i as int).map_values(|t: u16| (t, PT_UNICODE)),
        decreases 22 - i,
    {
        v.push((strings[i], PT_UNICODE));
        i = i + 1;
    }
    assert(string_tags().take(22) =~= string_tags());
    let ghost first = v@;
    i = 0;
    while i < 22
        invariant
            i <= 22,
            strings@ == string_tags(),
            first == string_tags().map_values(|t: u16| (t, PT_UNICODE)),
            v@ =~= first + string_tags().take(i as int).map_values(|t: u16| (t, PT_STRING8)),
        decreases 22 - i,
    {
        v.push((strings[i], PT_STRING8));
        i = i + 1;
    }
    let ghost second = v@;
    i = 0;
    while i < 3
        invariant
            i <= 3,
            binaries@ == binary_tags(),
            second == string_tags().map_values(|t: u16| (t, PT_UNICODE)) + string_tags().map_values(
                |t: u16| (t, PT_STRING8),
            ),
            v@ =~= second + binary_tags().take(i as int).map_values(|t: u16| (t, PT_BINARY)),
        decreases 3 - i,
    {
        v.push((binaries[i], PT_BINARY));
        i = i + 1;
    }
    assert(binary_tags().take(3) =~= binary_tags());
    v
}

/// A point in time in UTC, as microseconds since 1601-01-01T00:00:00Z (the
/// epoch of Windows FILETIME values).
#[derive(Debug, Clone, Copy, PartialEq, Eq, Structural)]
pub struct UtcTime {
    pub micros_since_1601: i64,
}

/// The UTC time of a Windows FILETIME (100-nanosecond intervals since
/// 1601-01-01 UTC), to the microsecond.
pub open spec fn spec_filetime_to_utc(windows_filetime: u64) -> UtcTime {
    UtcTime { micros_since_1601: (windows_filetime / 10) as i64 }
}

/// Converts a Windows FILETIME (100-nanosecond intervals since 1601-01-01
/// UTC) to a UTC time, dropping the sub-microsecond part.
pub fn windows_filetime_to_utc(windows_filetime: u64) -> (t: UtcTime)
    ensures
        t == spec_filetime_to_utc(windows_filetime),
        t.micros_since_1601 == windows_filetime / 10,
{
    let us_since_1601: u64 = windows_filetime / 10;
    UtcTime { micros_since_1601: us_since_1601 as i64 }
}

/// An attachment that holds data.
#[derive(Debug)]
pub struct MsgAttachment {
    pub display_name: String,
    pub filename: String,
    pub long_filename: String,
    pub content_id: String,
    pub mimetype: String,
    pub data: Vec<u8>,
}

/// A recipient of a message.
#[derive(Debug)]
pub struct MsgRecipient {
    pub display_name: String,
    pub email_address: String,
    pub smtp_address: String,
}

/// What is read from a message.
#[derive(Debug)]
pub struct MsgContents {
    pub sent_time: Option<UtcTime>,
    pub received_time: UtcTime,
    pub subject: String,
    pub normalized_subject: String,
    pub conversation_topic: String,
    pub conversation_index: Vec<u8>,
    pub sender_name: String,
    pub sender_email_address: String,
    pub sender_smtp_address: String,
    pub received_by_name: String,
    pub received_by_email_address: String,
    pub received_by_smtp_address: String,
    pub display_bcc: String,
    pub display_cc: String,
    pub display_to: String,
    pub transport_message_headers: String,
    pub text: String,
    pub html: String,
    pub attachments: Vec<MsgAttachment>,
    pub sub_msgs: Vec<MsgContents>,
    pub recipients: Vec<MsgRecipient>,
}

/// An attachment as values.
pub struct AttachmentView {
    pub display_name: Seq<char>,
    pub filename: Seq<char>,
    pub long_filename: Seq<char>,
    pub content_id: Seq<char>,
    pub mimetype: Seq<char>,
    pub data: Seq<u8>,
}

/// A recipient as values.
pub struct RecipientView {
    pub display_name: Seq<char>,
    pub email_address: Seq<char>,
    pub smtp_address: Seq<char>,
}

/// A message as values.
pub struct MsgView {
    pub sent_time: Option<UtcTime>,
    pub received_time: UtcTime,
    pub subject: Seq<char>,
    pub normalized_subject: Seq<char>,
    pub conversation_topic: Seq<char>,
    pub conversation_index: Seq<u8>,
    pub sender_name: Seq<char>,
    pub sender_email_address: Seq<char>,
    pub sender_smtp_address: Seq<char>,
    pub received_by_name: Seq<char>,
    pub received_by_email_address: Seq<char>,
    pub received_by_smtp_address: Seq<char>,
    pub display_bcc: Seq<char>,
    pub display_cc: Seq<char>,
    pub display_to: Seq<char>,
    pub transport_message_headers: Seq<char>,
    pub text: Seq<char>,
    pub html: Seq<char>,
    pub attachments: Seq<AttachmentView>,
    pub sub_msgs: Seq<MsgView>,
    pub recipients: Seq<RecipientView>,
}

impl View for MsgAttachment {
    type V = AttachmentView;

    open spec fn view(&self) -> AttachmentView {
        AttachmentView {
            display_name: self.display_name@,
            filename: self.filename@,
            long_filename: self.long_filename@,
            content_id: self.content_id@,
            mimetype: self.mimetype@,
            data: self.data@,
        }
    }
}

impl View for MsgRecipient {
    type V = RecipientView;

    open spec fn view(&self) -> RecipientView {
        RecipientView {
            display_name: self.display_name@,
            email_address: self.email_address@,
            smtp_address: self.smtp_address@,
        }
    }
}

/// The values of a list of attachments.
pub open spec fn attachments_view(s: Seq<MsgAttachment>) -> Seq<AttachmentView> {
    s.map_values(|a: MsgAttachment| a@)
}

/// The values of a list of recipients.
pub open spec fn recipients_view(s: Seq<MsgRecipient>) -> Seq<RecipientView> {
    s.map_values(|r: MsgRecipient| r@)
}

/// The values of a message.
pub open spec fn msg_view(m: MsgContents) -> MsgView
    decreases m,
{
    MsgView {
        sent_time: m.sent_time,
        received_time: m.received_time,
        subject: m.subject@,
        normalized_subject: m.normalized_subject@,
        conversation_topic: m.conversation_topic@,
        conversation_index: m.conversation_index@,
        sender_name: m.sender_name@,
        sender_email_address: m.sender_email_address@,
        sender_smtp_address: m.sender_smtp_address@,
        received_by_name: m.received_by_name@,
        received_by_email_address: m.received_by_email_address@,
        received_by_smtp_address: m.received_by_smtp_address@,
        display_bcc: m.display_bcc@,
        display_cc: m.display_cc@,
        display_to: m.display_to@,
        transport_message_headers: m.transport_message_headers@,
        text: m.text@,
        html: m.html@,
        attachments: attachments_view(m.attachments@),
        sub_msgs: msgs_view(m.sub_msgs@),
        recipients: recipients_view(m.recipients@),
    }
}

/// The values of a list of messages.
pub open spec fn msgs_view(s: Seq<MsgContents>) -> Seq<MsgView>
    decreases s,
{
    if s.len() == 0 {
        Seq::empty()
    } else {
        msgs_view(s.drop_last()).push(msg_view(s.last()))
    }
}

impl View for MsgContents {
    type V = MsgView;

    open spec fn view(&self) -> MsgView {
        msg_view(*self)
    }
}

/// Whether `s` begins with `p`.
pub open spec fn has_prefix(s: Seq<char>, p: Seq<char>) -> bool {
    p.len() <= s.len() && s.subrange(0, p.len() as int) == p
}

/// Decides whether `s` begins with `p`.
pub fn str_has_prefix(s: &str, p: &str) -> (r: bool)
    ensures
        r == has_prefix(s@, p@),
{
    let n = s.unicode_len();
    let m = p.unicode_len();
    if m > n {
        return false;
    }
    let mut i: usize = 0;
    while i < m
        invariant
            m == p@.len(),
            n == s@.len(),
            m <= n,
            i <= m,
            forall|j: int| 0 <= j < i ==> s@[j] == p@[j],
        decreases m - i,
    {
        if s.get_char(i) != p.get_char(i) {
            assert(s@.subrange(0, m as int)[i as int] != p@[i as int]);
            return false;
        }
        i = i + 1;
    }
    assert(s@.subrange(0, m as int) =~= p@);
    true
}

/// The name prefix of an attachment storage.
pub open spec fn attach_prefix() -> Seq<char> {
    seq!['_', '_', 'a', 't', 't', 'a', 'c', 'h', '_']
}

/// The name prefix of a recipient storage.
pub open spec fn recip_prefix() -> Seq<char> {
    seq!['_', '_', 'r', 'e', 'c', 'i', 'p', '_']
}

/// The string properties of an attachment storage, in reading order.
pub open spec fn attachment_string_tags() -> Seq<u16> {
    seq![PID_DISPLAY_NAME, PID_ATTACH_FILENAME, PID_ATTACH_LONG_FILENAME, PID_ATTACH_CONTENT_ID, PID_ATTACH_MIME_TAG]
}

/// The string properties of a recipient storage, in reading order.
pub open spec fn recipient_string_tags() -> Seq<u16> {
    seq![PID_DISPLAY_NAME, PID_EMAIL_ADDRESS, PID_SMTP_ADDRESS]
}

/// The string properties of a message read after its child storages.
pub open spec fn trailing_string_tags() -> Seq<u16> {
    seq![
        PID_NORMALIZED_SUBJECT, PID_CONVERSATION_TOPIC, PID_SENDER_NAME, PID_SENDER_EMAIL_ADDRESS,
        PID_SENDER_SMTP_ADDRESS, PID_RECEIVED_BY_NAME, PID_RECEIVED_BY_EMAIL_ADDRESS,
        PID_RECEIVED_BY_SMTP_ADDRESS, PID_DISPLAY_BCC, PID_DISPLAY_CC, PID_DISPLAY_TO,
        PID_TRANSPORT_MESSAGE_HEADERS,
    ]
}

/// Whether reading each of these string properties of a storage returns.
pub open spec fn all_readable(s: Seq<TaggedStream>, tags: Seq<u16>) -> bool {
    forall|i: int| 0 <= i < tags.len() ==> string_readable(s, #[trigger] tags[i])
}

/// The attachment that an attachment storage's streams describe.
pub open spec fn spec_attachment(s: Seq<TaggedStream>) -> AttachmentView {
    AttachmentView {
        display_name: storage_string(s, PID_DISPLAY_NAME),
        filename: storage_string(s, PID_ATTACH_FILENAME),
        long_filename: storage_string(s, PID_ATTACH_LONG_FILENAME),
        content_id: storage_string(s, PID_ATTACH_CONTENT_ID),
        mimetype: storage_string(s, PID_ATTACH_MIME_TAG),
        data: storage_binary(s, PID_ATTACH_DATA_OBJECT),
    }
}

/// The recipient that a recipient storage's streams describe.
pub open spec fn spec_recipient(s: Seq<TaggedStream>) -> RecipientView {
    RecipientView {
        display_name: storage_string(s, PID_DISPLAY_NAME),
        email_address: storage_string(s, PID_EMAIL_ADDRESS),
        smtp_address: storage_string(s, PID_SMTP_ADDRESS),
    }
}

/// The HTML body that the compressed RTF stream gives: `None` where the
/// decompressor would not return, the decompressor's error text where it
/// fails, else the HTML de-encapsulated from the RTF (empty where none is).
pub open spec fn spec_rtf_body(s: Seq<TaggedStream>) -> Option<Result<Seq<char>, MsgErrorView>> {
    let data = storage_binary(s, PID_RTF_COMPRESSED);
    if !rtf_decompress_returns(data) {
        None
    } else {
        match rtf_decompressed(data) {
            Err(t) => Some(Err(MsgErrorView::Rtf(t))),
            Ok(rtf) => Some(Ok(
                match spec_rtf_to_html(rtf) {
                    Some(h) => h,
                    None => Seq::empty(),
                },
            )),
        }
    }
}

/// The HTML body of a message before the fallback to its text: its HTML
/// stream where that is not empty, else what its compressed RTF gives.
/// `None` where reading either would panic.
pub open spec fn spec_html_body(s: Seq<TaggedStream>) -> Option<Result<Seq<char>, MsgErrorView>> {
    if !string_readable(s, PID_BODY_HTML) {
        None
    } else if storage_string(s, PID_BODY_HTML).len() > 0 {
        Some(Ok(storage_string(s, PID_BODY_HTML)))
    } else {
        spec_rtf_body(s)
    }
}

/// Attachments, attached messages and recipients, collected from the child
/// storages read so far.
pub type ChildrenView = (Seq<AttachmentView>, Seq<MsgView>, Seq<RecipientView>);

/// What one child storage adds: an attachment storage holds data or a
/// message (never both, never neither); a recipient storage a recipient;
/// any other storage nothing. `None` where reading it would panic.
pub open spec fn spec_child_step(props: StreamContent, child: ChildStorage, acc: ChildrenView) -> Option<Result<ChildrenView, MsgErrorView>>
    decreases child,
{
    let s = child.storage.streams@;
    if has_prefix(child.name@, attach_prefix()) {
        let is_file = !(spec_stream(s, PID_ATTACH_DATA_OBJECT, PT_BINARY) is Missing);
        let is_msgobj = child.embedded is Some;
        if !(is_file || is_msgobj) {
            Some(Err(MsgErrorView::AttachmentNotFileOrMsg))
        } else if is_file && is_msgobj {
            Some(Err(MsgErrorView::AttachmentBothFileAndMsg))
        } else if is_file {
            if !all_readable(s, attachment_string_tags()) {
                None
            } else {
                Some(Ok((acc.0.push(spec_attachment(s)), acc.1, acc.2)))
            }
        } else {
            match spec_get_msg(props, child.embedded->0) {
                None => None,
                Some(Err(k)) => Some(Err(k)),
                Some(Ok(m)) => Some(Ok((acc.0, acc.1.push(m), acc.2))),
            }
        }
    } else if has_prefix(child.name@, recip_prefix()) {
        if !all_readable(s, recipient_string_tags()) {
            None
        } else {
            Some(Ok((acc.0, acc.1, acc.2.push(spec_recipient(s)))))
        }
    } else {
        Some(Ok(acc))
    }
}

/// What the child storages give, taken in order; the first error stops.
pub open spec fn spec_children(props: StreamContent, cs: Seq<ChildStorage>) -> Option<Result<ChildrenView, MsgErrorView>>
    decreases cs,
{
    if cs.len() == 0 {
        Some(Ok((Seq::empty(), Seq::empty(), Seq::empty())))
    } else {
        match spec_children(props, cs.drop_last()) {
            Some(Ok(acc)) => spec_child_step(props, cs.last(), acc),
            other => other,
        }
    }
}

/// The message that a storage holds, given what reading the root property
/// stream gave. `None` where reading the message would panic (a compressed
/// RTF stream too short for the decompressor, or a Unicode string stream
/// too long for the UTF-16 decoder), `Some(Err(..))` where it fails first,
/// else the message.
pub open spec fn spec_get_msg(props: StreamContent, node: MsgStorage) -> Option<Result<MsgView, MsgErrorView>>
    decreases node,
{
    let s = node.streams@;
    match spec_get_msg_properties(props) {
        Err(k) => Some(Err(k)),
        Ok(ps) => match spec_find_value(ps, PID_MESSAGE_DELIVERY_TIME) {
            None => Some(Err(MsgErrorView::MissingReceivedTime)),
            Some(received) => if !string_readable(s, PID_SUBJECT) {
                None
            } else {
                match spec_html_body(s) {
                    None => None,
                    Some(Err(k)) => Some(Err(k)),
                    Some(Ok(html)) => if !string_readable(s, PID_BODY) {
                        None
                    } else {
                        match spec_children(props, node.children@) {
                            None => None,
                            Some(Err(k)) => Some(Err(k)),
                            Some(Ok(acc)) => if !all_readable(s, trailing_string_tags()) {
                                None
                            } else {
                                Some(Ok(MsgView {
                                    sent_time: match spec_find_value(ps, PID_CLIENT_SUBMIT_TIME) {
                                        Some(v) => Some(spec_filetime_to_utc(v)),
                                        None => None,
                                    },
                                    received_time: spec_filetime_to_utc(received),
                                    subject: storage_string(s, PID_SUBJECT),
                                    normalized_subject: storage_string(s, PID_NORMALIZED_SUBJECT),
                                    conversation_topic: storage_string(s, PID_CONVERSATION_TOPIC),
                                    conversation_index: storage_binary(s, PID_CONVERSATION_INDEX),
                                    sender_name: storage_string(s, PID_SENDER_NAME),
                                    sender_email_address: storage_string(s, PID_SENDER_EMAIL_ADDRESS),
                                    sender_smtp_address: storage_string(s, PID_SENDER_SMTP_ADDRESS),
                                    received_by_name: storage_string(s, PID_RECEIVED_BY_NAME),
                                    received_by_email_address: storage_string(s, PID_RECEIVED_BY_EMAIL_ADDRESS),
                                    received_by_smtp_address: storage_string(s, PID_RECEIVED_BY_SMTP_ADDRESS),
                                    display_bcc: storage_string(s, PID_DISPLAY_BCC),
                                    display_cc: storage_string(s, PID_DISPLAY_CC),
                                    display_to: storage_string(s, PID_DISPLAY_TO),
                                    transport_message_headers: storage_string(s, PID_TRANSPORT_MESSAGE_HEADERS),
                                    text: storage_string(s, PID_BODY),
                                    html: if html.len() == 0 {
                                        storage_string(s, PID_BODY)
                                    } else {
                                        html
                                    },
                                    attachments: acc.0,
                                    sub_msgs: acc.1,
                                    recipients: acc.2,
                                }))
                            },
                        }
                    },
                }
            },
        },
    }
}

/// Decides whether the UTF-16 decoder returns on these bytes.
fn utf16le_fits(d: &[u8]) -> (b: bool)
    ensures
        b == utf16le_decode_fits(d@),
{
    let n = d.len() as u128;
    let m = isize::MAX as u128;
    if d.len() >= 3 && d[0] == 0xEFu8 && d[1] == 0xBBu8 && d[2] == 0xBFu8 {
        3 * n + 16 <= m
    } else {
        3 * (n / 2) + 16 <= m
    }
}

/// Decides whether reading the string property `tag` of a storage returns.
fn string_readable_exec(s: &Vec<TaggedStream>, tag: u16) -> (b: bool)
    ensures
        b == string_readable(s@, tag),
{
    match find_stream(s, tag, PT_UNICODE) {
        Some(StreamContent::Bytes(d)) => utf16le_fits(d.as_slice()),
        _ => true,
    }
}

/// Decides whether reading each of these string properties returns.
fn all_readable_exec(s: &Vec<TaggedStream>, tags: &[u16]) -> (b: bool)
    ensures
        b == all_readable(s@, tags@),
{
    let mut i: usize = 0;
    while i < tags.len()
        invariant
            i <= tags@.len(),
            forall|j: int| 0 <= j < i ==> string_readable(s@, #[trigger] tags@[j]),
        decreases tags@.len() - i,
    {
        if !string_readable_exec(s, tags[i]) {
            return false;
        }
        i = i + 1;
    }
    true
}

/// Reads the attachment that an attachment storage's streams describe.
fn read_attachment(s: &Vec<TaggedStream>) -> (a: MsgAttachment)
    requires
        all_readable(s@, attachment_string_tags()),
    ensures
        a@ == spec_attachment(s@),
{
    assert(string_readable(s@, attachment_string_tags()[0]));
    assert(string_readable(s@, attachment_string_tags()[1]));
    assert(string_readable(s@, attachment_string_tags()[2]));
    assert(string_readable(s@, attachment_string_tags()[3]));
    assert(string_readable(s@, attachment_string_tags()[4]));
    MsgAttachment {
        display_name: get_substg_string(s, PID_DISPLAY_NAME),
        filename: get_substg_string(s, PID_ATTACH_FILENAME),
        long_filename: get_substg_string(s, PID_ATTACH_LONG_FILENAME),
        content_id: get_substg_string(s, PID_ATTACH_CONTENT_ID),
        mimetype: get_substg_string(s, PID_ATTACH_MIME_TAG),
        data: get_substg_binary(s, PID_ATTACH_DATA_OBJECT),
    }
}

/// Reads the recipient that a recipient storage's streams describe.
fn read_recipient(s: &Vec<TaggedStream>) -> (r: MsgRecipient)
    requires
        all_readable(s@, recipient_string_tags()),
    ensures
        r@ == spec_recipient(s@),
{
    assert(string_readable(s@, recipient_string_tags()[0]));
    assert(string_readable(s@, recipient_string_tags()[1]));
    assert(string_readable(s@, recipient_string_tags()[2]));
    MsgRecipient {
        display_name: get_substg_string(s, PID_DISPLAY_NAME),
        email_address: get_substg_string(s, PID_EMAIL_ADDRESS),
        smtp_address: get_substg_string(s, PID_SMTP_ADDRESS),
    }
}

/// Reads the HTML body of a message before the fallback to its text (see
/// `spec_html_body`); `None` where reading it would panic.
pub fn read_html_body(s: &Vec<TaggedStream>) -> (r: Option<Result<String, MsgError>>)
    ensures
        match (r, spec_html_body(s@)) {
            (None, None) => true,
            (Some(Ok(h)), Some(Ok(w))) => h@ == w,
            (Some(Err(e)), Some(Err(k))) => e@ == k,
            _ => false,
        },
{
    if !string_readable_exec(s, PID_BODY_HTML) {
        return None;
    }
    let html = get_substg_string(s, PID_BODY_HTML);
    if html.unicode_len() > 0 {
        return Some(Ok(html));
    }
    let data = get_substg_binary(s, PID_RTF_COMPRESSED);
    let d = data.as_slice();
    if d.len() < 16 {
        return None;
    }
    let compsize = crate::properties::read_le_u32(d, 0);
    let rawsize = crate::properties::read_le_u32(d, 4);
    let comptype = crate::properties::read_le_u32(d, 8);
    if compsize as u64 + 4 > usize::MAX as u64 {
        return None;
    }
    if compsize as usize + 4 == d.len() {
        if comptype == crate::decode::RTF_UNCOMPRESSED && rawsize as u64 + 16 > d.len() as u64 {
            return None;
        }
        if comptype == crate::decode::RTF_COMPRESSED && rawsize as u64 > isize::MAX as u64 {
            return None;
        }
    }
    match decompress_rtf(d) {
        Err(t) => Some(Err(MsgError::Rtf(t))),
        Ok(rtf) => Some(Ok(
            match crate::rtf_html::rtf_to_html_outlook(&rtf) {
                Some(h) => h,
                None => String::new(),
            },
        )),
    }
}

/// Reads the message that `node` holds, given what reading the root
/// property stream gave. `None` exactly where reading it would panic (a
/// compressed RTF stream too short for the decompressor where the message
/// has no HTML, or a Unicode string stream too long for the UTF-16 decoder);
/// otherwise the message, or the first error in reading order: properties,
/// received time, RTF body, then the child storages in order (attachment
/// storages that hold neither or both kinds of data, and errors of attached
/// messages).
pub fn try_get_msg(props: &StreamContent, node: &MsgStorage) -> (r: Option<Result<MsgContents, MsgError>>)
    ensures
        match (r, spec_get_msg(*props, *node)) {
            (None, None) => true,
            (Some(Ok(m)), Some(Ok(v))) => m@ == v,
            (Some(Err(e)), Some(Err(k))) => e@ == k,
            _ => false,
        },
    decreases node,
{
    let props_list = match get_msg_properties(props) {
        Ok(p) => p,
        Err(e) => return Some(Err(e)),
    };
    let received_time = match find_property_value(&props_list, PID_MESSAGE_DELIVERY_TIME) {
        Some(v) => windows_filetime_to_utc(v),
        None => return Some(Err(MsgError::MissingReceivedTime)),
    };
    let sent_time = match find_property_value(&props_list, PID_CLIENT_SUBMIT_TIME) {
        Some(v) => Some(windows_filetime_to_utc(v)),
        None => None,
    };
    let s = &node.streams;
    if !string_readable_exec(s, PID_SUBJECT) {
        return None;
    }
    let subject = get_substg_string(s, PID_SUBJECT);
    let html = match read_html_body(s) {
        None => return None,
        Some(Err(e)) => return Some(Err(e)),
        Some(Ok(h)) => h,
    };
    if !string_readable_exec(s, PID_BODY) {
        return None;
    }
    let text = get_substg_string(s, PID_BODY);
    let html = if html.unicode_len() == 0 { text.clone() } else { html };

    let ghost ps = spec_get_msg_properties(*props)->Ok_0;
    let ghost html_view = spec_html_body(s@)->Some_0->Ok_0;
    let attach_tags: [u16; 5] = [
        PID_DISPLAY_NAME, PID_ATTACH_FILENAME, PID_ATTACH_LONG_FILENAME, PID_ATTACH_CONTENT_ID,
        PID_ATTACH_MIME_TAG,
    ];
    let recip_tags: [u16; 3] = [PID_DISPLAY_NAME, PID_EMAIL_ADDRESS, PID_SMTP_ADDRESS];
    assert(attach_tags@ =~= attachment_string_tags());
    assert(recip_tags@ =~= recipient_string_tags());
    let mut attachments: Vec<MsgAttachment> = Vec::new();
    let mut sub_msgs: Vec<MsgContents> = Vec::new();
    let mut recipients: Vec<MsgRecipient> = Vec::new();
    let n = node.children.len();
    let mut i: usize = 0;
    assert(node.children@.take(0) =~= Seq::<ChildStorage>::empty());
    assert(attachments_view(attachments@) =~= Seq::empty());
    assert(recipients_view(recipients@) =~= Seq::empty());
    while i < n
        invariant
            n == node.children@.len(),
            i <= n,
            attach_tags@ == attachment_string_tags(),
            recip_tags@ == recipient_string_tags(),
            spec_get_msg_properties(*props) == Ok::<Seq<crate::properties::MsgProperty>, MsgErrorView>(ps),
            spec_find_value(ps, PID_MESSAGE_DELIVERY_TIME) is Some,
            string_readable(node.streams@, PID_SUBJECT),
            string_readable(node.streams@, PID_BODY),
            spec_html_body(node.streams@) == Some(Ok::<Seq<char>, MsgErrorView>(html_view)),
            spec_children(*props, node.children@.take(i as int)) == Some(
                Ok::<ChildrenView, MsgErrorView>((attachments_view(attachments@), msgs_view(sub_msgs@), recipients_view(recipients@))),
            ),
        decreases n - i,
    {
        let child = &node.children[i];
        let ghost before = node.children@.take(i as int);
        assert(node.children@.take(i + 1).drop_last() =~= before);
        assert(node.children@.take(i + 1).last() == *child);
        assert(spec_children(*props, node.children@.take(i + 1)) == spec_child_step(
            *props,
            *child,
            (attachments_view(attachments@), msgs_view(sub_msgs@), recipients_view(recipients@)),
        ));
        let is_attach = str_has_prefix(child.name.as_str(), "__attach_");
        proof {
            reveal_strlit("__attach_");
            assert("__attach_"@ =~= attach_prefix());
        }
        if is_attach {
            let is_file = match find_stream(&child.storage.streams, PID_ATTACH_DATA_OBJECT, PT_BINARY) {
                Some(StreamContent::Missing) => false,
                Some(_) => true,
                None => false,
            };
            let is_msgobj = child.embedded.is_some();
            if !(is_file || is_msgobj) {
                proof {
                    lemma_children_error_sticks(*props, node.children@, (i + 1) as int);
                }
                return Some(Err(MsgError::AttachmentNotFileOrMsg));
            }
            if is_file && is_msgobj {
                proof {
                    lemma_children_error_sticks(*props, node.children@, (i + 1) as int);
                }
                return Some(Err(MsgError::AttachmentBothFileAndMsg));
            }
            if is_file {
                if !all_readable_exec(&child.storage.streams, &attach_tags) {
                    proof {
                        lemma_children_undefined_sticks(*props, node.children@, (i + 1) as int);
                    }
                    return None;
                }
                let att = read_attachment(&child.storage.streams);
                let ghost old_atts = attachments@;
                attachments.push(att);
                assert(attachments@.drop_last() =~= old_atts);
                assert(attachments_view(attachments@) =~= attachments_view(old_atts).push(att@));
            } else {
                let embedded = match &child.embedded {
                    Some(e) => e,
                    None => { return None; },
                };
                proof {
                    assert(decreases_to!(*node => node.children));
                    assert(decreases_to!(node.children => node.children@));
                    assert(decreases_to!(node.children@ => node.children@[i as int]));
                    assert(decreases_to!(node.children@[i as int] => node.children@[i as int].embedded));
                    assert(decreases_to!(node.children@[i as int].embedded => *embedded));
                }
                match try_get_msg(props, embedded) {
                    None => {
                        proof {
                            lemma_children_undefined_sticks(*props, node.children@, (i + 1) as int);
                        }
                        return None;
                    },
                    Some(Err(e)) => {
                        proof {
                            lemma_children_error_sticks(*props, node.children@, (i + 1) as int);
                        }
                        return Some(Err(e));
                    },
                    Some(Ok(m)) => {
                        let ghost old_subs = sub_msgs@;
                        sub_msgs.push(m);
                        assert(sub_msgs@.drop_last() =~= old_subs);
                    },
                }
            }
        } else {
            let is_recip = str_has_prefix(child.name.as_str(), "__recip_");
            proof {
                reveal_strlit("__recip_");
                assert("__recip_"@ =~= recip_prefix());
            }
            if is_recip {
                if !all_readable_exec(&child.storage.streams, &recip_tags) {
                    proof {
                        lemma_children_undefined_sticks(*props, node.children@, (i + 1) as int);
                    }
                    return None;
                }
                let rcp = read_recipient(&child.storage.streams);
                let ghost old_rs = recipients@;
                recipients.push(rcp);
                assert(recipients@.drop_last() =~= old_rs);
                assert(recipients_view(recipients@) =~= recipients_view(old_rs).push(rcp@));
            }
        }
        i = i + 1;
    }
    assert(node.children@.take(n as int) =~= node.children@);
    let trailing: [u16; 12] = [
        PID_NORMALIZED_SUBJECT, PID_CONVERSATION_TOPIC, PID_SENDER_NAME, PID_SENDER_EMAIL_ADDRESS,
        PID_SENDER_SMTP_ADDRESS, PID_RECEIVED_BY_NAME, PID_RECEIVED_BY_EMAIL_ADDRESS,
        PID_RECEIVED_BY_SMTP_ADDRESS, PID_DISPLAY_BCC, PID_DISPLAY_CC, PID_DISPLAY_TO,
        PID_TRANSPORT_MESSAGE_HEADERS,
    ];
    assert(trailing@ =~= trailing_string_tags());
    if !all_readable_exec(s, &trailing) {
        return None;
    }
    let ghost t = trailing_string_tags();
    assert(string_readable(s@, t[0]) && string_readable(s@, t[1]) && string_readable(s@, t[2])
        && string_readable(s@, t[3]) && string_readable(s@, t[4]) && string_readable(s@, t[5])
        && string_readable(s@, t[6]) && string_readable(s@, t[7]) && string_readable(s@, t[8])
        && string_readable(s@, t[9]) && string_readable(s@, t[10]) && string_readable(s@, t[11]));
    Some(Ok(MsgContents {
        sent_time,
        received_time,
        subject,
        normalized_subject: get_substg_string(s, PID_NORMALIZED_SUBJECT),
        conversation_topic: get_substg_string(s, PID_CONVERSATION_TOPIC),
        conversation_index: get_substg_binary(s, PID_CONVERSATION_INDEX),
        sender_name: get_substg_string(s, PID_SENDER_NAME),
        sender_email_address: get_substg_string(s, PID_SENDER_EMAIL_ADDRESS),
        sender_smtp_address: get_substg_string(s, PID_SENDER_SMTP_ADDRESS),
        received_by_name: get_substg_string(s, PID_RECEIVED_BY_NAME),
        received_by_email_address: get_substg_string(s, PID_RECEIVED_BY_EMAIL_ADDRESS),
        received_by_smtp_address: get_substg_string(s, PID_RECEIVED_BY_SMTP_ADDRESS),
        display_bcc: get_substg_string(s, PID_DISPLAY_BCC),
        display_cc: get_substg_string(s, PID_DISPLAY_CC),
        display_to: get_substg_string(s, PID_DISPLAY_TO),
        transport_message_headers: get_substg_string(s, PID_TRANSPORT_MESSAGE_HEADERS),
        text,
        html,
        attachments,
        sub_msgs,
        recipients,
    }))
}

/// Reads the message that `node` holds, given what reading the root
/// property stream gave, on the snapshots on which reading it does not
/// panic (see `try_get_msg`).
pub fn get_msg(props: &StreamContent, node: &MsgStorage) -> (r: Result<MsgContents, MsgError>)
    requires
        spec_get_msg(*props, *node) is Some,
    ensures
        match (r, spec_get_msg(*props, *node)) {
            (Ok(m), Some(Ok(v))) => m@ == v,
            (Err(e), Some(Err(k))) => e@ == k,
            _ => false,
        },
{
    match try_get_msg(props, node) {
        Some(r) => r,
        None => {
            proof {
                assert(false);
            }
            Err(MsgError::MissingReceivedTime)
        },
    }
}

/// Once the child storages up to `i` give an error, all of them give it.
proof fn lemma_children_error_sticks(props: StreamContent, cs: Seq<ChildStorage>, i: int)
    requires
        0 <= i <= cs.len(),
        spec_children(props, cs.take(i)) matches Some(Err(_)),
    ensures
        spec_children(props, cs) == spec_children(props, cs.take(i)),
    decreases cs.len() - i,
{
    if i < cs.len() {
        assert(cs.take(i + 1).drop_last() =~= cs.take(i));
        lemma_children_error_sticks(props, cs, i + 1);
    } else {
        assert(cs.take(i) =~= cs);
    }
}

/// Once the child storages up to `i` would panic, all of them would.
proof fn lemma_children_undefined_sticks(props: StreamContent, cs: Seq<ChildStorage>, i: int)
    requires
        0 <= i <= cs.len(),
        spec_children(props, cs.take(i)) is None,
    ensures
        spec_children(props, cs) is None,
    decreases cs.len() - i,
{
    if i < cs.len() {
        assert(cs.take(i + 1).drop_last() =~= cs.take(i));
        lemma_children_undefined_sticks(props, cs, i + 1);
    } else {
        assert(cs.take(i) =~= cs);
    }
}

} // verus!
