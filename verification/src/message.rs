//! What the user reads of a stored message.

use vstd::prelude::*;
use vstd::utf8::encode_utf8;

use crate::api::{pair_texts, AttachmentInfo, HeadersView, StoredMessage, StoredMessageHeaders};
use crate::text::{decimal, format_u64, opt_slice_text, opt_text, texts};

verus! {

/// How many characters of a message body are shown.
pub const MESSAGE_PREVIEW_CHARS: usize = 500;

/// The lines of the `Received` headers, all but the first with a number.
pub open spec fn received_lines(received: Seq<Seq<char>>) -> Seq<char>
    decreases received.len(),
{
    if received.len() == 0 {
        seq![]
    } else if received.len() == 1 {
        "Received: "@ + received[0] + "\n"@
    } else {
        received_lines(received.drop_last()) + "Received["@ + decimal((received.len() - 1) as nat)
            + "]: "@ + received.last() + "\n"@
    }
}

/// A line with a label, if there is a value.
pub open spec fn labelled(label: Seq<char>, value: Option<Seq<char>>) -> Seq<char> {
    match value {
        Some(value) => label + value + "\n"@,
        None => seq![],
    }
}

/// The lines of headers as they came.
pub open spec fn other_lines(headers: Seq<(Seq<char>, Seq<char>)>) -> Seq<char>
    decreases headers.len(),
{
    if headers.len() == 0 {
        seq![]
    } else {
        other_lines(headers.drop_last()) + headers.last().0 + ": "@ + headers.last().1 + "\n"@
    }
}

/// The lines of all headers.
pub open spec fn headers_text(headers: HeadersView) -> Seq<char> {
    received_lines(headers.received) + labelled("DKIM-Signature: "@, headers.dkim) + labelled(
        "MIME-Version: "@,
        headers.mime_version,
    ) + labelled("Content-Transfer-Encoding: "@, headers.content_transfer_encoding) + labelled(
        "List-Unsubscribe: "@,
        headers.list_unsubscribe,
    ) + labelled("List-Unsubscribe-Post: "@, headers.list_unsubscribe_post) + other_lines(
        headers.other,
    )
}

fn labelled_line(label: &str, value: &Option<String>) -> (r: String)
    ensures
        r@ == labelled(label@, opt_text(*value)),
{
    match value {
        Some(value) => label.to_string().concat(value.as_str()).concat("\n"),
        None => String::new(),
    }
}

fn format_received(received: &Vec<String>) -> (r: String)
    ensures
        r@ == received_lines(texts(received@)),
{
    let mut out = String::new();
    let mut i: usize = 0;
    let ghost all = texts(received@);
    assert(all.take(0) =~= seq![]);
    while i < received.len()
        invariant
            i <= received@.len(),
            all == texts(received@),
            out@ == received_lines(all.take(i as int)),
        decreases received@.len() - i,
    {
        assert(all.take(i + 1).drop_last() =~= all.take(i as int));
        if i == 0 {
            assert(out@ =~= seq![]);
            out = "Received: ".to_string();
        } else {
            out.append("Received[");
            out.append(format_u64(i as u64).as_str());
            out.append("]: ");
        }
        out.append(received[i].as_str());
        out.append("\n");
        i += 1;
    }
    assert(all.take(received@.len() as int) =~= all);
    out
}

fn format_others(other: &Vec<(String, String)>) -> (r: String)
    ensures
        r@ == other_lines(pair_texts(other@)),
{
    let mut out = String::new();
    let mut i: usize = 0;
    let ghost all = pair_texts(other@);
    assert(all.take(0) =~= seq![]);
    while i < other.len()
        invariant
            i <= other@.len(),
            all == pair_texts(other@),
            out@ == other_lines(all.take(i as int)),
        decreases other@.len() - i,
    {
        assert(all.take(i + 1).drop_last() =~= all.take(i as int));
        out.append(other[i].0.as_str());
        out.append(": ");
        out.append(other[i].1.as_str());
        out.append("\n");
        i += 1;
    }
    assert(all.take(other@.len() as int) =~= all);
    out
}

/// The lines of all headers.
pub fn print_headers(headers: &StoredMessageHeaders) -> (r: String)
    ensures
        r@ == headers_text(headers@),
{
    format_received(&headers.received).concat(
        labelled_line("DKIM-Signature: ", &headers.dkim).as_str(),
    ).concat(labelled_line("MIME-Version: ", &headers.mime_version).as_str()).concat(
        labelled_line("Content-Transfer-Encoding: ", &headers.content_transfer_encoding).as_str(),
    ).concat(labelled_line("List-Unsubscribe: ", &headers.list_unsubscribe).as_str()).concat(
        labelled_line("List-Unsubscribe-Post: ", &headers.list_unsubscribe_post).as_str(),
    ).concat(format_others(&headers.other).as_str())
}

/// The subject, sender and recipient of a message, as far as they are known.
pub open spec fn metadata_text(msg: StoredMessage) -> Seq<char> {
    labelled("Subject: "@, opt_text(msg.subject)) + labelled("From: "@, opt_text(msg.from))
        + labelled("To: "@, opt_text(msg.to))
}

/// The subject, sender and recipient of a message, as far as they are known.
pub fn print_message_metadata(msg: &StoredMessage) -> (r: String)
    ensures
        r@ == metadata_text(*msg),
{
    labelled_line("Subject: ", &msg.subject).concat(
        labelled_line("From: ", &msg.from).as_str(),
    ).concat(labelled_line("To: ", &msg.to).as_str())
}

/// The body of a message, cut off where its UTF-8 form is longer than the preview has
/// characters.
pub open spec fn body_text(text: Option<Seq<char>>) -> Seq<char> {
    match text {
        None => "Text: (none)\n"@,
        Some(text) => {
            let bytes = encode_utf8(text).len();
            if bytes > MESSAGE_PREVIEW_CHARS {
                "Text (truncated):\n"@ + preview(text) + "\n... ("@ + decimal(bytes)
                    + " chars total)\n"@
            } else {
                "Text:\n"@ + text + "\n"@
            }
        },
    }
}

/// The first characters of a text.
pub open spec fn preview(text: Seq<char>) -> Seq<char> {
    if text.len() > MESSAGE_PREVIEW_CHARS {
        text.take(MESSAGE_PREVIEW_CHARS as int)
    } else {
        text
    }
}

/// The body of a message, cut off where it is long.
pub fn print_message_text(text: Option<&str>) -> (r: String)
    ensures
        r@ == body_text(opt_slice_text(text)),
{
    let text = match text {
        Some(text) => text,
        None => return "Text: (none)\n".to_string(),
    };
    let bytes: usize = text.as_bytes().len();
    if bytes > MESSAGE_PREVIEW_CHARS {
        let shown = if text.unicode_len() > MESSAGE_PREVIEW_CHARS {
            text.substring_char(0, MESSAGE_PREVIEW_CHARS)
        } else {
            text
        };
        "Text (truncated):\n".to_string().concat(shown).concat("\n... (").concat(
            format_u64(bytes as u64).as_str(),
        ).concat(" chars total)\n")
    } else {
        "Text:\n".to_string().concat(text).concat("\n")
    }
}

/// The lines of the attachments of a message.
pub open spec fn attachment_lines(attachments: Seq<AttachmentInfo>) -> Seq<char>
    decreases attachments.len(),
{
    if attachments.len() == 0 {
        seq![]
    } else {
        let last = attachments.last();
        attachment_lines(attachments.drop_last()) + last.filename@ + " ("@ + decimal(
            last.size as nat / 1024,
        ) + " KB) ["@ + last.content_type@ + "]\n"@
    }
}

/// The attachments of a message, if there are any.
pub open spec fn attachments_text(attachments: Seq<AttachmentInfo>) -> Seq<char> {
    if attachments.len() == 0 {
        seq![]
    } else {
        "\n=== Attachments ("@ + decimal(attachments.len()) + ") ===\n"@ + attachment_lines(
            attachments,
        )
    }
}

/// The attachments of a message, if there are any.
pub fn print_message_attachments(attachments: &[AttachmentInfo]) -> (r: String)
    ensures
        r@ == attachments_text(attachments@),
{
    if attachments.len() == 0 {
        return String::new();
    }
    let mut out = String::new();
    let mut i: usize = 0;
    assert(attachments@.take(0) =~= seq![]);
    while i < attachments.len()
        invariant
            i <= attachments@.len(),
            out@ == attachment_lines(attachments@.take(i as int)),
        decreases attachments@.len() - i,
    {
        assert(attachments@.take(i + 1).drop_last() =~= attachments@.take(i as int));
        out.append(attachments[i].filename.as_str());
        out.append(" (");
        out.append(format_u64(attachments[i].size / 1024).as_str());
        out.append(" KB) [");
        out.append(attachments[i].content_type.as_str());
        out.append("]\n");
        i += 1;
    }
    assert(attachments@.take(attachments@.len() as int) =~= attachments@);
    "\n=== Attachments (".to_string().concat(format_u64(attachments.len() as u64).as_str()).concat(
        ") ===\n",
    ).concat(out.as_str())
}

/// What the user reads of a stored message, or of its headers only.
pub open spec fn message_text(msg: StoredMessage, headers_only: bool) -> Seq<char> {
    if headers_only {
        "=== Headers ===\n"@ + headers_text(msg.headers@)
    } else {
        "=== Message Details ===\n"@ + metadata_text(msg) + "\n=== Headers ===\n"@ + headers_text(
            msg.headers@,
        ) + "\n=== Body ===\n"@ + body_text(opt_text(msg.stripped_text)) + attachments_text(
            msg.attachments@,
        )
    }
}

/// What the user reads of a stored message, or of its headers only.
pub fn print_message(msg: &StoredMessage, headers_only: bool) -> (r: String)
    ensures
        r@ == message_text(*msg, headers_only),
{
    let headers = print_headers(&msg.headers);
    if headers_only {
        return "=== Headers ===\n".to_string().concat(headers.as_str());
    }
    let text: Option<&str> = match &msg.stripped_text {
        Some(text) => Some(text.as_str()),
        None => None,
    };
    "=== Message Details ===\n".to_string().concat(print_message_metadata(msg).as_str()).concat(
        "\n=== Headers ===\n",
    ).concat(headers.as_str()).concat("\n=== Body ===\n").concat(
        print_message_text(text).as_str(),
    ).concat(print_message_attachments(msg.attachments.as_slice()).as_str())
}

/// Headers are shown one by one: the lines of two lists one after another are those of the first
/// and then those of the second, and the line of one header is its own name and its own value.
pub proof fn headers_are_shown_one_by_one(
    a: Seq<(Seq<char>, Seq<char>)>,
    b: Seq<(Seq<char>, Seq<char>)>,
    name: Seq<char>,
    value: Seq<char>,
)
    ensures
        other_lines(a + b) == other_lines(a) + other_lines(b),
        other_lines(seq![(name, value)]) == name + ": "@ + value + "\n"@,
        other_lines(seq![]).len() == 0,
    decreases b.len(),
{
    let one = seq![(name, value)];
    assert(one.drop_last() =~= seq![]);
    assert(other_lines(one.drop_last()) =~= seq![]);
    assert(other_lines(one) =~= name + ": "@ + value + "\n"@);
    if b.len() == 0 {
        assert(a + b =~= a);
        assert(other_lines(a) + other_lines(b) =~= other_lines(a));
    } else {
        headers_are_shown_one_by_one(a, b.drop_last(), name, value);
        assert((a + b).drop_last() =~= a + b.drop_last());
        assert((a + b).last() == b.last());
        assert(other_lines(a + b) =~= other_lines(a) + other_lines(b));
    }
}

/// Each `Received` header adds its line with its own value: the first without a number, and each
/// later one with the number of those before it.
pub proof fn received_headers_are_numbered(received: Seq<Seq<char>>, value: Seq<char>)
    ensures
        received_lines(seq![]).len() == 0,
        received_lines(seq![value]) == "Received: "@ + value + "\n"@,
        received.len() > 0 ==> received_lines(received.push(value)) == received_lines(received)
            + "Received["@ + decimal(received.len()) + "]: "@ + value + "\n"@,
{
    assert(received.push(value).drop_last() =~= received);
}

/// A line with a label is there exactly where there is a value, and holds the label and the
/// value.
pub proof fn a_label_stands_before_its_value(label: Seq<char>, value: Seq<char>)
    ensures
        labelled(label, Some(value)) == label + value + "\n"@,
        labelled(label, None).len() == 0,
{
}

/// The lines of a group of headers are those of its `Received` headers, then one for each of the
/// headers that come once and is there, under its own label, then those of the others.
pub proof fn headers_stand_under_their_labels(headers: HeadersView)
    ensures
        ({
            let line = |label: Seq<char>, value: Option<Seq<char>>|
                if value is Some {
                    label + value->0 + "\n"@
                } else {
                    seq![]
                };
            headers_text(headers) == received_lines(headers.received) + line(
                "DKIM-Signature: "@,
                headers.dkim,
            ) + line("MIME-Version: "@, headers.mime_version) + line(
                "Content-Transfer-Encoding: "@,
                headers.content_transfer_encoding,
            ) + line("List-Unsubscribe: "@, headers.list_unsubscribe) + line(
                "List-Unsubscribe-Post: "@,
                headers.list_unsubscribe_post,
            ) + other_lines(headers.other)
        }),
{
}

/// The subject, the sender and the recipient of a message stand under their own labels, each
/// where it is there.
pub proof fn details_stand_under_their_labels(msg: StoredMessage)
    ensures
        ({
            let line = |label: Seq<char>, value: Option<String>|
                if value is Some {
                    label + value->0@ + "\n"@
                } else {
                    seq![]
                };
            metadata_text(msg) == line("Subject: "@, msg.subject) + line("From: "@, msg.from)
                + line("To: "@, msg.to)
        }),
{
}

/// A body whose UTF-8 form has no more than 500 bytes is shown whole. Of a longer one the first
/// 500 characters are shown, or all where there are no more, and the number of its bytes.
pub proof fn a_body_is_shown_whole_or_by_its_start(text: Seq<char>)
    ensures
        body_text(None) == "Text: (none)\n"@,
        encode_utf8(text).len() <= 500 ==> body_text(Some(text)) == "Text:\n"@ + text + "\n"@,
        encode_utf8(text).len() > 500 && text.len() <= 500 ==> body_text(Some(text))
            == "Text (truncated):\n"@ + text + "\n... ("@ + decimal(encode_utf8(text).len())
            + " chars total)\n"@,
        encode_utf8(text).len() > 500 && text.len() > 500 ==> body_text(Some(text))
            == "Text (truncated):\n"@ + text.take(500) + "\n... ("@ + decimal(
            encode_utf8(text).len(),
        ) + " chars total)\n"@,
{
}

/// Attachments are shown one by one: the lines of two lists one after another are those of the
/// first and then those of the second, and the line of one attachment is its own name, its size
/// in whole kilobytes and its type.
pub proof fn attachments_are_shown_one_by_one(
    a: Seq<AttachmentInfo>,
    b: Seq<AttachmentInfo>,
    one: AttachmentInfo,
    kilobytes: nat,
)
    requires
        kilobytes * 1024 <= one.size < (kilobytes + 1) * 1024,
    ensures
        attachment_lines(a + b) == attachment_lines(a) + attachment_lines(b),
        attachment_lines(seq![one]) == one.filename@ + " ("@ + decimal(kilobytes) + " KB) ["@
            + one.content_type@ + "]\n"@,
        attachment_lines(seq![]).len() == 0,
    decreases b.len(),
{
    let single = seq![one];
    assert(single.drop_last() =~= seq![]);
    assert(attachment_lines(single.drop_last()) =~= seq![]);
    assert(attachment_lines(single) =~= one.filename@ + " ("@ + decimal(kilobytes) + " KB) ["@
        + one.content_type@ + "]\n"@);
    if b.len() == 0 {
        assert(a + b =~= a);
        assert(attachment_lines(a) + attachment_lines(b) =~= attachment_lines(a));
    } else {
        attachments_are_shown_one_by_one(a, b.drop_last(), one, kilobytes);
        assert((a + b).drop_last() =~= a + b.drop_last());
        assert((a + b).last() == b.last());
        assert(attachment_lines(a + b) =~= attachment_lines(a) + attachment_lines(b));
    }
}

/// The attachments have a title with their number, and are not mentioned where there is none.
pub proof fn attachments_are_counted(attachments: Seq<AttachmentInfo>)
    ensures
        attachments.len() == 0 ==> attachments_text(attachments).len() == 0,
        attachments.len() > 0 ==> attachments_text(attachments) == "\n=== Attachments ("@ + decimal(
            attachments.len(),
        ) + ") ===\n"@ + attachment_lines(attachments),
{
}

/// A message is shown with its details, its headers, its body and its attachments, in this order,
/// or with its headers only; what is shown of the headers is the same either way.
pub proof fn a_message_is_shown_in_parts(msg: StoredMessage)
    ensures
        ({
            let body = match msg.stripped_text {
                Some(text) => body_text(Some(text@)),
                None => "Text: (none)\n"@,
            };
            &&& message_text(msg, true) == "=== Headers ===\n"@ + headers_text(msg.headers@)
            &&& message_text(msg, false) == "=== Message Details ===\n"@ + metadata_text(msg)
                + "\n"@ + message_text(msg, true) + "\n=== Body ===\n"@ + body + attachments_text(
                msg.attachments@,
            )
        }),
{
    reveal_strlit("\n");
    reveal_strlit("=== Headers ===\n");
    reveal_strlit("\n=== Headers ===\n");
    assert("\n=== Headers ===\n"@ =~= "\n"@ + "=== Headers ===\n"@);
    let front = "=== Message Details ===\n"@ + metadata_text(msg);
    let headers = headers_text(msg.headers@);
    assert(front + "\n=== Headers ===\n"@ + headers =~= front + "\n"@ + ("=== Headers ===\n"@
        + headers));
}

} // verus!
