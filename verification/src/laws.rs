use vstd::prelude::*;

use crate::error::MsgErrorView;
use crate::message::{
    attach_prefix, has_prefix, recip_prefix, spec_child_step, spec_children, spec_filetime_to_utc,
    spec_get_msg, spec_html_body, ChildrenView, MsgView, PID_BODY, PID_BODY_HTML,
    PID_CLIENT_SUBMIT_TIME, PID_MESSAGE_DELIVERY_TIME,
};
use crate::properties::{spec_find_value, spec_get_msg_properties};
use crate::decode::{utf16le_decoded, utf8_lossy_decoded};
use crate::message::{AttachmentView, RecipientView};
use crate::storage::{spec_stream, storage_binary, storage_string, ChildStorage, MsgStorage, StreamContent, TaggedStream};

verus! {

/// The number of storages in a list whose name begins with `p`.
pub open spec fn count_named(cs: Seq<ChildStorage>, p: Seq<char>) -> nat
    decreases cs.len(),
{
    if cs.len() == 0 {
        0
    } else {
        count_named(cs.drop_last(), p) + if has_prefix(cs.last().name@, p) { 1nat } else { 0nat }
    }
}

/// Later FILETIME values never give earlier times.
pub proof fn lemma_filetime_monotone(a: u64, b: u64)
    requires
        a <= b,
    ensures
        spec_filetime_to_utc(a).micros_since_1601 <= spec_filetime_to_utc(b).micros_since_1601,
{
    assert(a / 10 <= b / 10) by (nonlinear_arith)
        requires
            a <= b,
    ;
}

/// Ten FILETIME ticks make one microsecond.
pub proof fn lemma_filetime_ten_ticks(a: u64)
    requires
        a + 10 <= u64::MAX,
    ensures
        spec_filetime_to_utc((a + 10) as u64).micros_since_1601 == spec_filetime_to_utc(a).micros_since_1601 + 1,
{
    assert((a + 10) / 10 == a / 10 + 1) by (nonlinear_arith);
}

/// A message cannot be read where the property stream cannot be: its error
/// comes first, whatever the storage holds.
pub proof fn lemma_property_errors_first(props: StreamContent, node: MsgStorage)
    requires
        spec_get_msg_properties(props) is Err,
    ensures
        spec_get_msg(props, node) == Some(
            Err::<MsgView, MsgErrorView>(spec_get_msg_properties(props)->Err_0),
        ),
{
}

/// A message cannot be read without a delivery time.
pub proof fn lemma_received_time_required(props: StreamContent, node: MsgStorage)
    requires
        spec_get_msg_properties(props) is Ok,
        spec_find_value(spec_get_msg_properties(props)->Ok_0, PID_MESSAGE_DELIVERY_TIME) is None,
    ensures
        spec_get_msg(props, node) == Some(Err::<MsgView, MsgErrorView>(MsgErrorView::MissingReceivedTime)),
{
}

/// The times of a message that was read are those of the first delivery
/// time and client submit time properties of the property stream.
pub proof fn lemma_times_from_properties(props: StreamContent, node: MsgStorage)
    requires
        spec_get_msg(props, node) matches Some(Ok(_)),
    ensures
        ({
            let v = spec_get_msg(props, node)->Some_0->Ok_0;
            let ps = spec_get_msg_properties(props)->Ok_0;
            &&& spec_get_msg_properties(props) is Ok
            &&& spec_find_value(ps, PID_MESSAGE_DELIVERY_TIME) == Some(
                spec_find_value(ps, PID_MESSAGE_DELIVERY_TIME)->Some_0,
            )
            &&& v.received_time == spec_filetime_to_utc(spec_find_value(ps, PID_MESSAGE_DELIVERY_TIME)->Some_0)
            &&& v.sent_time == match spec_find_value(ps, PID_CLIENT_SUBMIT_TIME) {
                Some(t) => Some(spec_filetime_to_utc(t)),
                None => None,
            }
        }),
{
}

/// The HTML body of a message that was read is its HTML stream where that
/// is not empty, and it is empty only where the plain text body is.
pub proof fn lemma_html_body(props: StreamContent, node: MsgStorage)
    requires
        spec_get_msg(props, node) matches Some(Ok(_)),
    ensures
        ({
            let v = spec_get_msg(props, node)->Some_0->Ok_0;
            &&& storage_string(node.streams@, PID_BODY_HTML).len() > 0 ==> v.html == storage_string(
                node.streams@,
                PID_BODY_HTML,
            )
            &&& v.html.len() == 0 ==> v.text.len() == 0
            &&& v.text == storage_string(node.streams@, PID_BODY)
        }),
{
}

/// No storage name begins with both the attachment and the recipient prefix.
proof fn lemma_prefixes_exclusive(s: Seq<char>)
    ensures
        !(has_prefix(s, attach_prefix()) && has_prefix(s, recip_prefix())),
{
    if has_prefix(s, attach_prefix()) && has_prefix(s, recip_prefix()) {
        assert(s.subrange(0, 9)[2] == 'a');
        assert(s.subrange(0, 8)[2] == 'r');
    }
}

/// What the child storages give counts them: one attachment or attached
/// message for each attachment storage, one recipient for each recipient
/// storage; every attached message shares the times of `props`.
proof fn lemma_children_counts(props: StreamContent, cs: Seq<ChildStorage>)
    requires
        spec_children(props, cs) matches Some(Ok(_)),
    ensures
        ({
            let acc = spec_children(props, cs)->Some_0->Ok_0;
            &&& acc.0.len() + acc.1.len() == count_named(cs, attach_prefix())
            &&& acc.2.len() == count_named(cs, recip_prefix())
            &&& forall|i: int| 0 <= i < acc.1.len() ==> {
                let ps = spec_get_msg_properties(props)->Ok_0;
                &&& spec_get_msg_properties(props) is Ok
                &&& (#[trigger] acc.1[i]).received_time == spec_filetime_to_utc(
                    spec_find_value(ps, PID_MESSAGE_DELIVERY_TIME)->Some_0,
                )
                &&& acc.1[i].sent_time == match spec_find_value(ps, PID_CLIENT_SUBMIT_TIME) {
                    Some(t) => Some(spec_filetime_to_utc(t)),
                    None => None,
                }
            }
        }),
    decreases cs.len(),
{
    if cs.len() > 0 {
        lemma_children_counts(props, cs.drop_last());
        let child = cs.last();
        lemma_prefixes_exclusive(child.name@);
        let acc0 = spec_children(props, cs.drop_last())->Some_0->Ok_0;
        assert(spec_children(props, cs) == spec_child_step(props, child, acc0));
        let acc = spec_children(props, cs)->Some_0->Ok_0;
        if has_prefix(child.name@, attach_prefix()) && child.embedded is Some
            && spec_stream_missing(child) {
            lemma_times_from_properties(props, child.embedded->0);
            assert(acc.1 == acc0.1.push(spec_get_msg(props, child.embedded->0)->Some_0->Ok_0));
            assert forall|i: int| 0 <= i < acc0.1.len() implies acc.1[i] == acc0.1[i] by {}
        } else {
            assert(acc.1 == acc0.1);
        }
    }
}

/// Whether an attachment storage holds no attached data.
spec fn spec_stream_missing(child: ChildStorage) -> bool {
    crate::storage::spec_stream(
        child.storage.streams@,
        crate::message::PID_ATTACH_DATA_OBJECT,
        crate::storage::PT_BINARY,
    ) is Missing
}

/// On a message that was read: each attachment storage gave exactly one
/// attachment or attached message, and each recipient storage one
/// recipient. Every attached message carries the same times as the message
/// that holds it: this records how the reader behaves (it reads every
/// message's times from the root storage's property stream), not a property
/// of `.msg` files, whose attached messages have property streams of their
/// own.
pub proof fn lemma_children_accounted(props: StreamContent, node: MsgStorage)
    requires
        spec_get_msg(props, node) matches Some(Ok(_)),
    ensures
        ({
            let v = spec_get_msg(props, node)->Some_0->Ok_0;
            &&& v.attachments.len() + v.sub_msgs.len() == count_named(node.children@, attach_prefix())
            &&& v.recipients.len() == count_named(node.children@, recip_prefix())
            &&& forall|i: int| 0 <= i < v.sub_msgs.len() ==> (#[trigger] v.sub_msgs[i]).received_time
                == v.received_time && v.sub_msgs[i].sent_time == v.sent_time
        }),
{
    lemma_children_counts(props, node.children@);
}

/// Whether `field` is what a storage's string property `tag` holds: its
/// Unicode stream (type 0x001F) decoded as UTF-16LE; nothing where that
/// stream cannot be read; where it is missing, its 8-bit stream (type
/// 0x001E) decoded lossily as UTF-8, or nothing where that is not there.
pub open spec fn is_string_property(field: Seq<char>, s: Seq<TaggedStream>, tag: u16) -> bool {
    match spec_stream(s, tag, 0x001Fu16) {
        StreamContent::Bytes(d) => field == utf16le_decoded(d@),
        StreamContent::Unreadable => field.len() == 0,
        StreamContent::Missing => match spec_stream(s, tag, 0x001Eu16) {
            StreamContent::Bytes(d) => field == utf8_lossy_decoded(d@),
            _ => field.len() == 0,
        },
    }
}

/// Whether `field` is what a storage's binary property `tag` holds: the
/// bytes of its stream (type 0x0102), unchanged, or none where it is not
/// there or cannot be read.
pub open spec fn is_binary_property(field: Seq<u8>, s: Seq<TaggedStream>, tag: u16) -> bool {
    match spec_stream(s, tag, 0x0102u16) {
        StreamContent::Bytes(d) => field == d@,
        _ => field.len() == 0,
    }
}

/// Whether an attachment holds the properties of an attachment storage:
/// display name 0x3001, file name 0x3704, long file name 0x3707, content id
/// 0x3712, MIME type 0x370E and data 0x3701.
pub open spec fn is_attachment_of(a: AttachmentView, s: Seq<TaggedStream>) -> bool {
    &&& is_string_property(a.display_name, s, 0x3001u16)
    &&& is_string_property(a.filename, s, 0x3704u16)
    &&& is_string_property(a.long_filename, s, 0x3707u16)
    &&& is_string_property(a.content_id, s, 0x3712u16)
    &&& is_string_property(a.mimetype, s, 0x370Eu16)
    &&& is_binary_property(a.data, s, 0x3701u16)
}

/// Whether a recipient holds the properties of a recipient storage: display
/// name 0x3001, e-mail address 0x3003 and SMTP address 0x39FE.
pub open spec fn is_recipient_of(r: RecipientView, s: Seq<TaggedStream>) -> bool {
    &&& is_string_property(r.display_name, s, 0x3001u16)
    &&& is_string_property(r.email_address, s, 0x3003u16)
    &&& is_string_property(r.smtp_address, s, 0x39FEu16)
}

/// Whether an attachment holds the properties of one of these storages
/// whose name marks it as an attachment storage.
pub open spec fn is_attachment_in(a: AttachmentView, cs: Seq<ChildStorage>) -> bool {
    exists|j: int| 0 <= j < cs.len() && has_prefix(#[trigger] cs[j].name@, attach_prefix())
        && is_attachment_of(a, cs[j].storage.streams@)
}

/// Whether a recipient holds the properties of one of these storages whose
/// name marks it as a recipient storage.
pub open spec fn is_recipient_in(r: RecipientView, cs: Seq<ChildStorage>) -> bool {
    exists|j: int| 0 <= j < cs.len() && has_prefix(#[trigger] cs[j].name@, recip_prefix())
        && is_recipient_of(r, cs[j].storage.streams@)
}

/// Whether every attachment holds the properties of one of these attachment
/// storages.
pub open spec fn attachments_from(atts: Seq<AttachmentView>, cs: Seq<ChildStorage>) -> bool {
    forall|i: int| 0 <= i < atts.len() ==> is_attachment_in(#[trigger] atts[i], cs)
}

/// Whether every recipient holds the properties of one of these recipient
/// storages.
pub open spec fn recipients_from(rs: Seq<RecipientView>, cs: Seq<ChildStorage>) -> bool {
    forall|i: int| 0 <= i < rs.len() ==> is_recipient_in(#[trigger] rs[i], cs)
}

/// Every attachment or recipient collected from child storages is that of
/// one of them, an attachment storage or a recipient storage respectively.
proof fn lemma_children_sources(props: StreamContent, cs: Seq<ChildStorage>)
    requires
        spec_children(props, cs) matches Some(Ok(_)),
    ensures
        ({
            let acc = spec_children(props, cs)->Some_0->Ok_0;
            &&& attachments_from(acc.0, cs)
            &&& recipients_from(acc.2, cs)
        }),
    decreases cs.len(),
{
    if cs.len() > 0 {
        let prev = cs.drop_last();
        lemma_children_sources(props, prev);
        let child = cs.last();
        let last = cs.len() - 1;
        assert(cs[last] == child);
        let acc0 = spec_children(props, prev)->Some_0->Ok_0;
        assert(spec_children(props, cs) == spec_child_step(props, child, acc0));
        let acc = spec_children(props, cs)->Some_0->Ok_0;
        let st = child.storage.streams@;
        assert forall|i: int| 0 <= i < acc.0.len() implies is_attachment_in(#[trigger] acc.0[i], cs) by {
            if i < acc0.0.len() {
                assert(acc.0[i] == acc0.0[i]);
                assert(is_attachment_in(acc0.0[i], prev));
                let j = choose|j: int| 0 <= j < prev.len() && has_prefix(#[trigger] prev[j].name@, attach_prefix())
                    && is_attachment_of(acc0.0[i], prev[j].storage.streams@);
                assert(prev[j] == cs[j]);
            } else {
                assert(acc.0[i] == crate::message::spec_attachment(st));
                assert(has_prefix(cs[last].name@, attach_prefix()));
                assert(is_attachment_of(acc.0[i], cs[last].storage.streams@));
            }
        }
        assert forall|i: int| 0 <= i < acc.2.len() implies is_recipient_in(#[trigger] acc.2[i], cs) by {
            if i < acc0.2.len() {
                assert(acc.2[i] == acc0.2[i]);
                assert(is_recipient_in(acc0.2[i], prev));
                let j = choose|j: int| 0 <= j < prev.len() && has_prefix(#[trigger] prev[j].name@, recip_prefix())
                    && is_recipient_of(acc0.2[i], prev[j].storage.streams@);
                assert(prev[j] == cs[j]);
            } else {
                assert(acc.2[i] == crate::message::spec_recipient(st));
                assert(has_prefix(cs[last].name@, recip_prefix()));
                assert(is_recipient_of(acc.2[i], cs[last].storage.streams@));
            }
        }
    }
}

/// On a message that was read, each attachment holds the properties of one
/// of the message's attachment storages, and each recipient those of one of
/// its recipient storages.
pub proof fn lemma_attachments_and_recipients_from_storages(props: StreamContent, node: MsgStorage)
    requires
        spec_get_msg(props, node) matches Some(Ok(_)),
    ensures
        ({
            let v = spec_get_msg(props, node)->Some_0->Ok_0;
            let cs = node.children@;
            &&& attachments_from(v.attachments, cs)
            &&& recipients_from(v.recipients, cs)
        }),
{
    lemma_children_sources(props, node.children@);
}

/// On a message that was read, each field is the property of the message
/// storage that it is named after: subject 0x0037, normalized subject
/// 0x0E1D, conversation topic 0x0070, conversation index 0x0071, sender name
/// 0x0C1A, sender e-mail address 0x0C1F, sender SMTP address 0x5D01,
/// received-by name 0x0040, e-mail address 0x0076 and SMTP address 0x5D07,
/// Bcc 0x0E02, Cc 0x0E03 and To 0x0E04 display lines, transport headers
/// 0x007D and text body 0x1000.
pub proof fn lemma_message_fields(props: StreamContent, node: MsgStorage)
    requires
        spec_get_msg(props, node) matches Some(Ok(_)),
    ensures
        ({
            let v = spec_get_msg(props, node)->Some_0->Ok_0;
            let s = node.streams@;
            &&& is_string_property(v.subject, s, 0x0037u16)
            &&& is_string_property(v.normalized_subject, s, 0x0E1Du16)
            &&& is_string_property(v.conversation_topic, s, 0x0070u16)
            &&& is_binary_property(v.conversation_index, s, 0x0071u16)
            &&& is_string_property(v.sender_name, s, 0x0C1Au16)
            &&& is_string_property(v.sender_email_address, s, 0x0C1Fu16)
            &&& is_string_property(v.sender_smtp_address, s, 0x5D01u16)
            &&& is_string_property(v.received_by_name, s, 0x0040u16)
            &&& is_string_property(v.received_by_email_address, s, 0x0076u16)
            &&& is_string_property(v.received_by_smtp_address, s, 0x5D07u16)
            &&& is_string_property(v.display_bcc, s, 0x0E02u16)
            &&& is_string_property(v.display_cc, s, 0x0E03u16)
            &&& is_string_property(v.display_to, s, 0x0E04u16)
            &&& is_string_property(v.transport_message_headers, s, 0x007Du16)
            &&& is_string_property(v.text, s, 0x1000u16)
        }),
{
}

} // verus!
