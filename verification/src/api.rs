//! The records that the Mailgun API sends.

use vstd::prelude::*;
use vstd::utf8::is_ascii_chars;

use crate::text::{ascii_lowercase, opt_text, same_text, texts, to_lowercase, unicode_lowercase};

verus! {

/// A page of events.
#[derive(Debug, PartialEq)]
pub struct EventsResponse {
    pub items: Vec<Event>,
    pub paging: Option<Paging>,
}

/// A moment that the API gives as a number of seconds since the start of 1970.
#[derive(Debug, PartialEq)]
pub struct Timestamp {
    /// The number without its fraction.
    pub secs: i64,
    /// The number as it is written.
    pub text: String,
}

/// Something that happened to a message.
#[derive(Debug, PartialEq)]
pub struct Event {
    pub id: Option<String>,
    pub event: String,
    pub timestamp: Timestamp,
    pub recipient: Option<String>,
    pub message: Option<MessageInfo>,
    pub tags: Vec<String>,
    pub delivery_status: Option<DeliveryStatus>,
    pub reason: Option<String>,
    pub severity: Option<String>,
    pub storage: Option<StorageInfo>,
}

/// The message of an event.
#[derive(Debug, PartialEq)]
pub struct MessageInfo {
    pub headers: Option<MessageHeaders>,
}

/// The headers that an event tells of its message.
#[derive(Debug, PartialEq)]
pub struct MessageHeaders {
    pub message_id: Option<String>,
    pub subject: Option<String>,
    pub from: Option<String>,
    pub to: Option<String>,
}

/// How a delivery went.
#[derive(Debug, PartialEq)]
pub struct DeliveryStatus {
    pub code: Option<i32>,
    pub message: Option<String>,
    pub description: Option<String>,
}

/// Where the pages around a page are.
#[derive(Debug, PartialEq)]
pub struct Paging {
    pub next: Option<String>,
    pub previous: Option<String>,
}

impl Clone for Paging {
    fn clone(&self) -> (r: Self)
        ensures
            r == *self,
    {
        Paging { next: self.next.clone(), previous: self.previous.clone() }
    }
}

/// A page of bounces.
#[derive(Debug, PartialEq)]
pub struct BouncesResponse {
    pub items: Vec<Bounce>,
    pub paging: Option<Paging>,
}

/// An address that messages bounced from.
#[derive(Debug, PartialEq)]
pub struct Bounce {
    pub address: String,
    pub code: String,
    pub error: String,
    pub created_at: String,
}

/// A page of complaints.
#[derive(Debug, PartialEq)]
pub struct ComplaintsResponse {
    pub items: Vec<Complaint>,
    pub paging: Option<Paging>,
}

/// An address that reported spam.
#[derive(Debug, PartialEq)]
pub struct Complaint {
    pub address: String,
    pub created_at: String,
}

/// A page of unsubscribed addresses.
#[derive(Debug, PartialEq)]
pub struct UnsubscribesResponse {
    pub items: Vec<Unsubscribe>,
    pub paging: Option<Paging>,
}

/// An address that does not want messages, or none with certain tags.
#[derive(Debug, PartialEq)]
pub struct Unsubscribe {
    pub address: String,
    pub tags: Vec<String>,
    pub created_at: String,
}

/// The counts of a span of time.
#[derive(Debug, PartialEq)]
pub struct StatsResponse {
    pub start: String,
    pub end: String,
    pub resolution: String,
    pub stats: Vec<StatEntry>,
}

/// The counts of one interval.
#[derive(Debug, PartialEq)]
pub struct StatEntry {
    pub time: String,
    pub accepted: Option<StatCount>,
    pub delivered: Option<StatCount>,
    pub failed: Option<StatCount>,
    pub opened: Option<StatCount>,
    pub clicked: Option<StatCount>,
    pub unsubscribed: Option<StatCount>,
    pub complained: Option<StatCount>,
    pub stored: Option<StatCount>,
}

/// One count; failures also come split.
#[derive(Debug, PartialEq)]
pub struct StatCount {
    pub total: Option<u64>,
    pub permanent: Option<u64>,
    pub temporary: Option<u64>,
}

/// Where a message is stored.
#[derive(Debug, PartialEq)]
pub struct StorageInfo {
    pub url: String,
}

/// A message that Mailgun keeps.
#[derive(Debug, PartialEq)]
pub struct StoredMessage {
    pub headers: StoredMessageHeaders,
    pub from: Option<String>,
    pub to: Option<String>,
    pub subject: Option<String>,
    pub stripped_text: Option<String>,
    pub stripped_html: Option<String>,
    pub stripped_signature: Option<String>,
    pub attachments: Vec<AttachmentInfo>,
}

/// The headers of a stored message, sorted into groups.
#[derive(Debug, PartialEq)]
pub struct StoredMessageHeaders {
    pub received: Vec<String>,
    pub dkim: Option<String>,
    pub mime_version: Option<String>,
    pub content_transfer_encoding: Option<String>,
    pub list_unsubscribe: Option<String>,
    pub list_unsubscribe_post: Option<String>,
    /// The headers that have no place of their own.
    pub other: Vec<(String, String)>,
}

/// A list of IP addresses.
#[derive(Debug, PartialEq)]
pub struct IpsResponse {
    pub items: Vec<String>,
    pub total_count: Option<u32>,
}

/// A list of domains.
#[derive(Debug, PartialEq)]
pub struct DomainsResponse {
    pub items: Vec<Domain>,
    pub total_count: Option<u32>,
}

/// A domain of the account.
#[derive(Debug, PartialEq)]
pub struct Domain {
    pub name: String,
    pub state: Option<String>,
    pub domain_type: Option<String>,
    pub is_disabled: bool,
    pub created_at: Option<String>,
}

/// What is known of an IP address.
#[derive(Debug, PartialEq)]
pub struct IpDetails {
    pub ip: String,
    pub rdns: Option<String>,
    pub dedicated: Option<bool>,
}

/// A file that came with a message.
#[derive(Debug, PartialEq)]
pub struct AttachmentInfo {
    pub filename: String,
    pub size: u64,
    pub content_type: String,
}

/// A list that Mailgun sends as null, or leaves out, where it is empty.
pub fn deserialize_null_vec<T>(items: Option<Vec<T>>) -> (r: Vec<T>)
    ensures
        match items {
            Some(list) => r@ == list@,
            None => r@ == Seq::<T>::empty(),
        },
{
    match items {
        Some(list) => list,
        None => Vec::new(),
    }
}

/// The groups that headers are sorted into.
#[derive(Debug, Clone, Copy, PartialEq, Eq, Structural)]
pub enum HeaderKind {
    Received,
    Dkim,
    MimeVersion,
    ContentTransferEncoding,
    ListUnsubscribe,
    ListUnsubscribePost,
    Other,
}

/// The group of a header whose name in small letters is `lower`.
pub open spec fn header_kind(lower: Seq<char>) -> HeaderKind {
    if lower == "received"@ {
        HeaderKind::Received
    } else if lower == "dkim-signature"@ {
        HeaderKind::Dkim
    } else if lower == "mime-version"@ {
        HeaderKind::MimeVersion
    } else if lower == "content-transfer-encoding"@ {
        HeaderKind::ContentTransferEncoding
    } else if lower == "list-unsubscribe"@ {
        HeaderKind::ListUnsubscribe
    } else if lower == "list-unsubscribe-post"@ {
        HeaderKind::ListUnsubscribePost
    } else {
        HeaderKind::Other
    }
}

/// The group of a header, by its name in small letters.
pub fn header_kind_of(lower: &str) -> (r: HeaderKind)
    ensures
        r == header_kind(lower@),
{
    if same_text(lower, "received") {
        HeaderKind::Received
    } else if same_text(lower, "dkim-signature") {
        HeaderKind::Dkim
    } else if same_text(lower, "mime-version") {
        HeaderKind::MimeVersion
    } else if same_text(lower, "content-transfer-encoding") {
        HeaderKind::ContentTransferEncoding
    } else if same_text(lower, "list-unsubscribe") {
        HeaderKind::ListUnsubscribe
    } else if same_text(lower, "list-unsubscribe-post") {
        HeaderKind::ListUnsubscribePost
    } else {
        HeaderKind::Other
    }
}

/// The texts of a list of pairs.
pub open spec fn pair_texts(pairs: Seq<(String, String)>) -> Seq<(Seq<char>, Seq<char>)> {
    Seq::new(pairs.len(), |i: int| (pairs[i].0@, pairs[i].1@))
}

/// The headers of one kind, in their order. `lowers` are the names in small letters.
pub open spec fn headers_of(
    pairs: Seq<(Seq<char>, Seq<char>)>,
    lowers: Seq<Seq<char>>,
    kind: HeaderKind,
) -> Seq<(Seq<char>, Seq<char>)>
    recommends
        pairs.len() == lowers.len(),
    decreases pairs.len(),
{
    if pairs.len() == 0 {
        seq![]
    } else if header_kind(lowers.last()) == kind {
        headers_of(pairs.drop_last(), lowers.drop_last(), kind).push(pairs.last())
    } else {
        headers_of(pairs.drop_last(), lowers.drop_last(), kind)
    }
}

/// The values of a list of headers.
pub open spec fn values(headers: Seq<(Seq<char>, Seq<char>)>) -> Seq<Seq<char>> {
    Seq::new(headers.len(), |i: int| headers[i].1)
}

/// The value of the last of a list of headers.
pub open spec fn last_value(headers: Seq<(Seq<char>, Seq<char>)>) -> Option<Seq<char>> {
    if headers.len() == 0 {
        None
    } else {
        Some(headers.last().1)
    }
}

/// What the groups of headers hold.
#[verifier::ext_equal]
pub struct HeadersView {
    pub received: Seq<Seq<char>>,
    pub dkim: Option<Seq<char>>,
    pub mime_version: Option<Seq<char>>,
    pub content_transfer_encoding: Option<Seq<char>>,
    pub list_unsubscribe: Option<Seq<char>>,
    pub list_unsubscribe_post: Option<Seq<char>>,
    pub other: Seq<(Seq<char>, Seq<char>)>,
}

impl View for StoredMessageHeaders {
    type V = HeadersView;

    open spec fn view(&self) -> HeadersView {
        HeadersView {
            received: texts(self.received@),
            dkim: opt_text(self.dkim),
            mime_version: opt_text(self.mime_version),
            content_transfer_encoding: opt_text(self.content_transfer_encoding),
            list_unsubscribe: opt_text(self.list_unsubscribe),
            list_unsubscribe_post: opt_text(self.list_unsubscribe_post),
            other: pair_texts(self.other@),
        }
    }
}

/// The headers sorted into their groups: all the `Received` values in order, the last value of
/// each of the headers that come once, and all the others with their names as they were.
pub open spec fn grouped(
    pairs: Seq<(Seq<char>, Seq<char>)>,
    lowers: Seq<Seq<char>>,
) -> HeadersView {
    HeadersView {
        received: values(headers_of(pairs, lowers, HeaderKind::Received)),
        dkim: last_value(headers_of(pairs, lowers, HeaderKind::Dkim)),
        mime_version: last_value(headers_of(pairs, lowers, HeaderKind::MimeVersion)),
        content_transfer_encoding: last_value(
            headers_of(pairs, lowers, HeaderKind::ContentTransferEncoding),
        ),
        list_unsubscribe: last_value(headers_of(pairs, lowers, HeaderKind::ListUnsubscribe)),
        list_unsubscribe_post: last_value(
            headers_of(pairs, lowers, HeaderKind::ListUnsubscribePost),
        ),
        other: headers_of(pairs, lowers, HeaderKind::Other),
    }
}

impl Default for StoredMessageHeaders {
    fn default() -> (r: Self)
        ensures
            r@ == grouped(seq![], seq![]),
    {
        let r = StoredMessageHeaders {
            received: Vec::new(),
            dkim: None,
            mime_version: None,
            content_transfer_encoding: None,
            list_unsubscribe: None,
            list_unsubscribe_post: None,
            other: Vec::new(),
        };
        assert(r@ =~= grouped(seq![], seq![]));
        r
    }
}

/// Sorts headers into their groups, given their names in small letters.
pub fn group_headers(pairs: &[(String, String)], lowers: &[String]) -> (r: StoredMessageHeaders)
    requires
        pairs@.len() == lowers@.len(),
    ensures
        r@ == grouped(pair_texts(pairs@), texts(lowers@)),
{
    let mut headers = StoredMessageHeaders::default();
    let ghost all = pair_texts(pairs@);
    let ghost names = texts(lowers@);
    let mut i: usize = 0;
    proof {
        assert(all.take(0) =~= seq![]);
        assert(names.take(0) =~= seq![]);
    }
    while i < pairs.len()
        invariant
            i <= pairs@.len(),
            pairs@.len() == lowers@.len(),
            all == pair_texts(pairs@),
            names == texts(lowers@),
            headers@ == grouped(all.take(i as int), names.take(i as int)),
        decreases pairs@.len() - i,
    {
        let ghost before = headers@;
        let value = pairs[i].1.clone();
        match header_kind_of(lowers[i].as_str()) {
            HeaderKind::Received => headers.received.push(value),
            HeaderKind::Dkim => headers.dkim = Some(value),
            HeaderKind::MimeVersion => headers.mime_version = Some(value),
            HeaderKind::ContentTransferEncoding => headers.content_transfer_encoding = Some(value),
            HeaderKind::ListUnsubscribe => headers.list_unsubscribe = Some(value),
            HeaderKind::ListUnsubscribePost => headers.list_unsubscribe_post = Some(value),
            HeaderKind::Other => headers.other.push((pairs[i].0.clone(), value)),
        }
        proof {
            assert(all.take(i + 1).drop_last() =~= all.take(i as int));
            assert(names.take(i + 1).drop_last() =~= names.take(i as int));
            assert(all.take(i + 1).last() == all[i as int]);
            assert(names.take(i + 1).last() == names[i as int]);
            let after = grouped(all.take(i + 1), names.take(i + 1));
            assert(before.received == values(
                headers_of(all.take(i as int), names.take(i as int), HeaderKind::Received),
            ));
            let received = headers_of(all.take(i as int), names.take(i as int), HeaderKind::Received);
            let more = headers_of(all.take(i + 1), names.take(i + 1), HeaderKind::Received);
            if header_kind(names[i as int]) == HeaderKind::Received {
                assert(more == received.push(all[i as int]));
                assert(values(more) =~= values(received).push(all[i as int].1));
                assert(headers@.received =~= before.received.push(all[i as int].1));
            } else {
                assert(more == received);
                assert(headers@.received == before.received);
            }
            assert(headers@.received =~= after.received);
            assert(headers@.other =~= after.other);
            assert(headers@ =~= after);
        }
        i += 1;
    }
    proof {
        assert(all.take(pairs@.len() as int) =~= all);
        assert(names.take(pairs@.len() as int) =~= names);
    }
    headers
}

/// The names of headers in small letters.
pub open spec fn lowercase_names(pairs: Seq<(Seq<char>, Seq<char>)>) -> Seq<Seq<char>> {
    Seq::new(pairs.len(), |i: int| unicode_lowercase(pairs[i].0))
}

/// The names of headers with the letters `A` to `Z` made small.
pub open spec fn ascii_lowercase_names(pairs: Seq<(Seq<char>, Seq<char>)>) -> Seq<Seq<char>> {
    Seq::new(pairs.len(), |i: int| ascii_lowercase(pairs[i].0))
}

/// Sorts the headers of a stored message, which come as pairs of name and value, into their
/// groups. Capital and small letters in a name make no difference.
pub fn deserialize_headers(pairs: &[(String, String)]) -> (r: StoredMessageHeaders)
    ensures
        r@ == grouped(pair_texts(pairs@), lowercase_names(pair_texts(pairs@))),
        (forall|i: int| 0 <= i < pairs@.len() ==> is_ascii_chars(#[trigger] pairs@[i].0@)) ==> r@
            == grouped(pair_texts(pairs@), ascii_lowercase_names(pair_texts(pairs@))),
{
    let mut lowers: Vec<String> = Vec::new();
    let mut i: usize = 0;
    while i < pairs.len()
        invariant
            i <= pairs@.len(),
            lowers@.len() == i,
            forall|j: int|
                0 <= j < i ==> {
                    &&& (#[trigger] lowers@[j])@ == unicode_lowercase(pairs@[j].0@)
                    &&& is_ascii_chars(pairs@[j].0@) ==> lowers@[j]@ == ascii_lowercase(
                        pairs@[j].0@,
                    )
                },
        decreases pairs@.len() - i,
    {
        lowers.push(to_lowercase(pairs[i].0.as_str()));
        i += 1;
    }
    proof {
        assert(texts(lowers@) =~= lowercase_names(pair_texts(pairs@)));
        if forall|i: int| 0 <= i < pairs@.len() ==> is_ascii_chars(#[trigger] pairs@[i].0@) {
            assert(texts(lowers@) =~= ascii_lowercase_names(pair_texts(pairs@)));
        }
    }
    group_headers(pairs, lowers.as_slice())
}

/// Each header goes to exactly one group: the groups together are as long as the list.
pub proof fn every_header_has_one_group(pairs: Seq<(Seq<char>, Seq<char>)>, lowers: Seq<Seq<char>>)
    requires
        pairs.len() == lowers.len(),
    ensures
        headers_of(pairs, lowers, HeaderKind::Received).len() + headers_of(
            pairs,
            lowers,
            HeaderKind::Dkim,
        ).len() + headers_of(pairs, lowers, HeaderKind::MimeVersion).len() + headers_of(
            pairs,
            lowers,
            HeaderKind::ContentTransferEncoding,
        ).len() + headers_of(pairs, lowers, HeaderKind::ListUnsubscribe).len() + headers_of(
            pairs,
            lowers,
            HeaderKind::ListUnsubscribePost,
        ).len() + headers_of(pairs, lowers, HeaderKind::Other).len() == pairs.len(),
    decreases pairs.len(),
{
    if pairs.len() > 0 {
        every_header_has_one_group(pairs.drop_last(), lowers.drop_last());
    }
}

/// A header without a place of its own is kept, name and value as they came.
pub proof fn unknown_header_is_kept(
    pairs: Seq<(Seq<char>, Seq<char>)>,
    lowers: Seq<Seq<char>>,
    at: int,
)
    requires
        pairs.len() == lowers.len(),
        0 <= at < pairs.len(),
        header_kind(lowers[at]) == HeaderKind::Other,
    ensures
        grouped(pairs, lowers).other.contains(pairs[at]),
    decreases pairs.len(),
{
    let all = headers_of(pairs, lowers, HeaderKind::Other);
    if at == pairs.len() - 1 {
        assert(all.last() == pairs[at]);
    } else {
        let rest = headers_of(pairs.drop_last(), lowers.drop_last(), HeaderKind::Other);
        unknown_header_is_kept(pairs.drop_last(), lowers.drop_last(), at);
        let k = choose|k: int| 0 <= k < rest.len() && rest[k] == pairs[at];
        assert(all[k] == pairs[at]);
    }
}

/// Each pair stands in its place, and so does the lowercase form of each name.
pub proof fn pairs_stand_in_their_places(
    pairs: Seq<(String, String)>,
    list: Seq<(Seq<char>, Seq<char>)>,
)
    ensures
        pair_texts(pairs).len() == pairs.len(),
        forall|i: int|
            0 <= i < pairs.len() ==> #[trigger] pair_texts(pairs)[i] == (pairs[i].0@, pairs[i].1@),
        lowercase_names(list).len() == list.len(),
        forall|i: int|
            0 <= i < list.len() ==> #[trigger] lowercase_names(list)[i] == unicode_lowercase(
                list[i].0,
            ),
        ascii_lowercase_names(list).len() == list.len(),
        forall|i: int|
            0 <= i < list.len() ==> #[trigger] ascii_lowercase_names(list)[i] == ascii_lowercase(
                list[i].0,
            ),
{
}

/// The groups of headers are seen whole: their view holds each of them.
pub proof fn header_groups_are_seen_whole(headers: StoredMessageHeaders)
    ensures
        headers@.received.len() == headers.received@.len(),
        forall|i: int|
            0 <= i < headers.received@.len() ==> #[trigger] headers@.received[i]
                == headers.received@[i]@,
        headers@.other.len() == headers.other@.len(),
        forall|i: int|
            0 <= i < headers.other@.len() ==> #[trigger] headers@.other[i] == (
                headers.other@[i].0@,
                headers.other@[i].1@,
            ),
        headers@.dkim == opt_text(headers.dkim),
        headers@.mime_version == opt_text(headers.mime_version),
        headers@.content_transfer_encoding == opt_text(headers.content_transfer_encoding),
        headers@.list_unsubscribe == opt_text(headers.list_unsubscribe),
        headers@.list_unsubscribe_post == opt_text(headers.list_unsubscribe_post),
{
}

/// A header goes to a group by its whole name in small letters, and by nothing else.
pub proof fn headers_go_by_their_names(lower: Seq<char>)
    ensures
        header_kind(lower) == HeaderKind::Received <==> lower == "received"@,
        header_kind(lower) == HeaderKind::Dkim <==> lower == "dkim-signature"@,
        header_kind(lower) == HeaderKind::MimeVersion <==> lower == "mime-version"@,
        header_kind(lower) == HeaderKind::ContentTransferEncoding <==> lower
            == "content-transfer-encoding"@,
        header_kind(lower) == HeaderKind::ListUnsubscribe <==> lower == "list-unsubscribe"@,
        header_kind(lower) == HeaderKind::ListUnsubscribePost <==> lower == "list-unsubscribe-post"@,
{
    reveal_strlit("received");
    reveal_strlit("dkim-signature");
    reveal_strlit("mime-version");
    reveal_strlit("content-transfer-encoding");
    reveal_strlit("list-unsubscribe");
    reveal_strlit("list-unsubscribe-post");
    assert("received"@.len() == 8);
    assert("dkim-signature"@.len() == 14);
    assert("mime-version"@.len() == 12);
    assert("content-transfer-encoding"@.len() == 25);
    assert("list-unsubscribe"@.len() == 16);
    assert("list-unsubscribe-post"@.len() == 21);
}

/// One more header changes the group of its name and no other: another `Received` value stands
/// behind those there are, the value of one of the headers that come once takes the place of an
/// earlier one, and any other header stands behind those there are, name and value as they came.
/// Without headers all groups are empty.
pub proof fn one_more_header_changes_its_group(
    pairs: Seq<(Seq<char>, Seq<char>)>,
    lowers: Seq<Seq<char>>,
    name: Seq<char>,
    value: Seq<char>,
    lower: Seq<char>,
)
    requires
        pairs.len() == lowers.len(),
    ensures
        grouped(seq![], seq![]) == (HeadersView {
            received: seq![],
            dkim: None,
            mime_version: None,
            content_transfer_encoding: None,
            list_unsubscribe: None,
            list_unsubscribe_post: None,
            other: seq![],
        }),
        ({
            let before = grouped(pairs, lowers);
            let after = grouped(pairs.push((name, value)), lowers.push(lower));
            if lower == "received"@ {
                after == (HeadersView { received: before.received.push(value), ..before })
            } else if lower == "dkim-signature"@ {
                after == (HeadersView { dkim: Some(value), ..before })
            } else if lower == "mime-version"@ {
                after == (HeadersView { mime_version: Some(value), ..before })
            } else if lower == "content-transfer-encoding"@ {
                after == (HeadersView { content_transfer_encoding: Some(value), ..before })
            } else if lower == "list-unsubscribe"@ {
                after == (HeadersView { list_unsubscribe: Some(value), ..before })
            } else if lower == "list-unsubscribe-post"@ {
                after == (HeadersView { list_unsubscribe_post: Some(value), ..before })
            } else {
                after == (HeadersView { other: before.other.push((name, value)), ..before })
            }
        }),
{
    let before = grouped(pairs, lowers);
    let after = grouped(pairs.push((name, value)), lowers.push(lower));
    headers_go_by_their_names(lower);
    assert(grouped(seq![], seq![]).received =~= seq![]);
    assert(pairs.push((name, value)).drop_last() =~= pairs);
    assert(lowers.push(lower).drop_last() =~= lowers);
    let old_received = headers_of(pairs, lowers, HeaderKind::Received);
    if lower == "received"@ {
        assert(values(old_received.push((name, value))) =~= values(old_received).push(value));
        assert(after =~= HeadersView { received: before.received.push(value), ..before });
    }
}

} // verus!
