use mailgun::api::{
    deserialize_headers, deserialize_null_vec, group_headers, header_kind_of, AttachmentInfo,
    Bounce, BouncesResponse, Complaint, ComplaintsResponse, DeliveryStatus, Domain,
    DomainsResponse, Event, HeaderKind, IpsResponse, Paging, StoredMessage, Timestamp, Unsubscribe, UnsubscribesResponse,
};
use mailgun::client::{Client, Method, Request, EVENTS_MAX_LIMIT, REQUEST_TIMEOUT_SECS};
use mailgun::config::Region;
use mailgun::paging::{add_page, limited, next_page_url, Listing, Paginated};
use mailgun::report::{format_event, print_domains, print_unsubscribes};
use mailgun::retry::{check_status, http_error, is_success, is_transient_error, Retry};
use serde_json::Value;

fn parse(json: &str) -> Value {
    serde_json::from_str(json).unwrap()
}

fn text(value: &Value) -> Option<String> {
    value.as_str().map(|s| s.to_string())
}

#[test]
fn rejects_event_limits_above_mailgun_maximum_before_requesting() {
    let client = Client::new("key-test", "example.com", Region::Us);

    let err = client.list_events(None, None, EVENTS_MAX_LIMIT + 1).unwrap_err();

    assert!(err.message().contains("Limit exceeds maximum allowed by Mailgun API (300)"));
}

#[test]
fn parses_stored_message_headers_into_known_and_other_groups() {
    let value = parse(
        r#"{
            "message-headers": [
                ["Received", "mx1"],
                ["DKIM-Signature", "dkim"],
                ["Mime-Version", "1.0"],
                ["Content-Transfer-Encoding", "quoted-printable"],
                ["List-Unsubscribe", "<mailto:unsubscribe@example.com>"],
                ["List-Unsubscribe-Post", "List-Unsubscribe=One-Click"],
                ["X-Campaign", "summer"]
            ],
            "From": "sender@example.com",
            "To": "reader@example.com",
            "Subject": "Hello",
            "stripped-text": "Body",
            "stripped-html": "<p>Body</p>",
            "stripped-signature": "Sig",
            "attachments": [{
                "filename": "report.pdf",
                "size": 1024,
                "content-type": "application/pdf"
            }]
        }"#,
    );
    let pairs: Vec<(String, String)> =
        serde_json::from_value(value["message-headers"].clone()).unwrap();
    let attachment = &value["attachments"][0];
    let message = StoredMessage {
        headers: deserialize_headers(&pairs),
        from: text(&value["From"]),
        to: text(&value["To"]),
        subject: text(&value["Subject"]),
        stripped_text: text(&value["stripped-text"]),
        stripped_html: text(&value["stripped-html"]),
        stripped_signature: text(&value["stripped-signature"]),
        attachments: vec![AttachmentInfo {
            filename: text(&attachment["filename"]).unwrap(),
            size: attachment["size"].as_u64().unwrap(),
            content_type: text(&attachment["content-type"]).unwrap(),
        }],
    };

    assert_eq!(message.headers.received, vec!["mx1"]);
    assert_eq!(message.headers.dkim.as_deref(), Some("dkim"));
    assert_eq!(message.headers.mime_version.as_deref(), Some("1.0"));
    assert_eq!(message.headers.content_transfer_encoding.as_deref(), Some("quoted-printable"));
    assert_eq!(
        message.headers.list_unsubscribe.as_deref(),
        Some("<mailto:unsubscribe@example.com>")
    );
    assert_eq!(
        message.headers.list_unsubscribe_post.as_deref(),
        Some("List-Unsubscribe=One-Click")
    );
    assert_eq!(message.headers.other, vec![("X-Campaign".to_string(), "summer".to_string())]);
    assert_eq!(message.attachments[0].filename, "report.pdf");
}

fn ips(value: &Value) -> IpsResponse {
    IpsResponse {
        items: deserialize_null_vec(serde_json::from_value(value["items"].clone()).unwrap()),
        total_count: serde_json::from_value(value["total_count"].clone()).unwrap(),
    }
}

#[test]
fn accepts_null_or_missing_ip_items_as_empty_lists() {
    let null_items = ips(&parse(r#"{"items": null, "total_count": 0}"#));
    let missing_items = ips(&parse(r#"{}"#));

    assert!(null_items.items.is_empty());
    assert_eq!(null_items.total_count, Some(0));
    assert!(missing_items.items.is_empty());
    assert_eq!(missing_items.total_count, None);

    let some_items = ips(&parse(r#"{"items": ["1.2.3.4"], "total_count": 1}"#));
    assert_eq!(some_items.items, vec!["1.2.3.4"]);
}

/// A list that may be left out, but is not null.
fn list(value: &Value, name: &str) -> Vec<String> {
    match value.get(name) {
        Some(items) => serde_json::from_value(items.clone()).unwrap(),
        None => Vec::new(),
    }
}

#[test]
fn defaults_optional_collections_when_deserializing_api_records() {
    let value = parse(
        r#"{
            "event": "delivered",
            "timestamp": 1710000000.0,
            "delivery-status": {"code": 250, "message": "OK"}
        }"#,
    );
    let timestamp: f64 = value["timestamp"].as_f64().unwrap();
    let event = Event {
        id: text(&value["id"]),
        event: text(&value["event"]).unwrap(),
        timestamp: Timestamp { secs: timestamp as i64, text: timestamp.to_string() },
        recipient: text(&value["recipient"]),
        message: None,
        tags: list(&value, "tags"),
        delivery_status: Some(DeliveryStatus {
            code: serde_json::from_value(value["delivery-status"]["code"].clone()).unwrap(),
            message: text(&value["delivery-status"]["message"]),
            description: text(&value["delivery-status"]["description"]),
        }),
        reason: text(&value["reason"]),
        severity: text(&value["severity"]),
        storage: None,
    };
    let value = parse(r#"{"address": "reader@example.com", "created_at": "2026-01-01"}"#);
    let unsubscribe = Unsubscribe {
        address: text(&value["address"]).unwrap(),
        tags: list(&value, "tags"),
        created_at: text(&value["created_at"]).unwrap(),
    };
    let value = parse(r#"{"name": "example.com"}"#);
    let domain = Domain {
        name: text(&value["name"]).unwrap(),
        state: text(&value["state"]),
        domain_type: text(&value["type"]),
        is_disabled: value["is_disabled"].as_bool().unwrap_or_default(),
        created_at: text(&value["created_at"]),
    };

    assert_eq!(
        format_event("now", &event),
        "now delivered  - [250] OK\n"
    );
    assert!(event.tags.is_empty());
    assert_eq!(event.delivery_status.unwrap().code, Some(250));
    assert!(unsubscribe.tags.is_empty());
    assert!(!domain.is_disabled);

    let unsubscribes = UnsubscribesResponse { items: vec![unsubscribe], paging: None };
    assert!(print_unsubscribes(&unsubscribes)
        .ends_with(&format!("{:<40} {:<20} 2026-01-01\n", "reader@example.com", "-")));
    let domains = DomainsResponse { items: vec![domain], total_count: None };
    assert!(print_domains(&domains)
        .ends_with(&format!("{:<32} {:<10} {:<10} -\n", "example.com", "-", "-")));
}

#[test]
fn paginated_response_helpers_merge_items_and_replace_paging() {
    let mut response = BouncesResponse {
        items: vec![Bounce {
            address: "a@example.com".to_string(),
            code: "550".to_string(),
            error: "blocked".to_string(),
            created_at: "2026-01-01".to_string(),
        }],
        paging: Some(Paging { next: Some("https://next".to_string()), previous: None }),
    };
    let next_page = BouncesResponse {
        items: vec![Bounce {
            address: "b@example.com".to_string(),
            code: "551".to_string(),
            error: "invalid".to_string(),
            created_at: "2026-01-02".to_string(),
        }],
        paging: Some(Paging { next: None, previous: Some("https://previous".to_string()) }),
    };

    assert_eq!(
        response.paging().and_then(|paging| paging.next.as_deref()),
        Some("https://next")
    );
    assert!(!BouncesResponse::items_empty(&next_page));

    let new_paging = next_page.paging().cloned();
    response.extend_items(next_page);
    response.set_paging(new_paging);

    assert_eq!(response.items.len(), 2);
    assert_eq!(
        response.paging().and_then(|paging| paging.previous.as_deref()),
        Some("https://previous")
    );
}

#[test]
fn paginated_helpers_work_for_suppression_response_types() {
    let complaints = ComplaintsResponse { items: Vec::new(), paging: None };
    let unsubscribes = UnsubscribesResponse { items: Vec::new(), paging: None };

    assert!(ComplaintsResponse::items_empty(&complaints));
    assert!(UnsubscribesResponse::items_empty(&unsubscribes));
}

fn page(address: Option<&str>, next: Option<&str>) -> ComplaintsResponse {
    ComplaintsResponse {
        items: address
            .iter()
            .map(|address| Complaint {
                address: address.to_string(),
                created_at: "2026-01-01".to_string(),
            })
            .collect(),
        paging: Some(Paging { next: next.map(|s| s.to_string()), previous: None }),
    }
}

fn addresses(list: &ComplaintsResponse) -> Vec<&str> {
    list.items.iter().map(|complaint| complaint.address.as_str()).collect()
}

#[test]
fn all_pages_of_a_list_are_collected_in_order() {
    let mut list = page(Some("a"), Some("u1"));
    assert_eq!(next_page_url(&list).as_deref(), Some("u1"));
    assert_eq!(add_page(&mut list, page(Some("b"), Some("u2"))).as_deref(), Some("u2"));
    assert_eq!(add_page(&mut list, page(Some("c"), None)), None);
    assert_eq!(addresses(&list), vec!["a", "b", "c"]);
    assert_eq!(next_page_url(&list), None);
}

#[test]
fn an_empty_page_ends_a_list_and_changes_nothing() {
    let mut list = page(Some("a"), Some("u1"));
    assert_eq!(add_page(&mut list, page(None, Some("u2"))), None);
    assert_eq!(list, page(Some("a"), Some("u1")));
    let last = ComplaintsResponse { items: Vec::new(), paging: None };
    assert_eq!(next_page_url(&last), None);
}

#[test]
fn unsubscribes_and_bounces_are_paged_alike() {
    let mut list = UnsubscribesResponse {
        items: Vec::new(),
        paging: Some(Paging { next: Some("u1".to_string()), previous: None }),
    };
    let more = UnsubscribesResponse {
        items: vec![Unsubscribe {
            address: "a".to_string(),
            tags: vec!["news".to_string()],
            created_at: "2026-01-01".to_string(),
        }],
        paging: None,
    };
    assert_eq!(next_page_url(&list).as_deref(), Some("u1"));
    assert_eq!(add_page(&mut list, more), None);
    assert_eq!(list.items[0].tags, vec!["news"]);
    assert_eq!(list.paging, None);
}

#[test]
fn repeated_headers_keep_all_received_and_the_last_of_the_others() {
    let pairs: Vec<(String, String)> = [
        ("RECEIVED", "mx1"),
        ("X-A", "1"),
        ("received", "mx2"),
        ("Mime-Version", "1.0"),
        ("MIME-VERSION", "2.0"),
        ("x-a", "2"),
    ]
    .iter()
    .map(|(name, value)| (name.to_string(), value.to_string()))
    .collect();
    let headers = deserialize_headers(&pairs);
    assert_eq!(headers.received, vec!["mx1", "mx2"]);
    assert_eq!(headers.mime_version.as_deref(), Some("2.0"));
    assert_eq!(headers.dkim, None);
    assert_eq!(
        headers.other,
        vec![("X-A".to_string(), "1".to_string()), ("x-a".to_string(), "2".to_string())]
    );
}

#[test]
fn header_names_are_lowercased_beyond_ascii() {
    // The Kelvin sign is a capital letter whose small letter is `k`.
    let pairs = vec![("D\u{212A}IM-Signature".to_string(), "dkim".to_string())];
    assert_eq!(deserialize_headers(&pairs).dkim.as_deref(), Some("dkim"));
}

#[test]
fn headers_are_grouped_by_their_lowercase_names() {
    assert_eq!(header_kind_of("received"), HeaderKind::Received);
    assert_eq!(header_kind_of("dkim-signature"), HeaderKind::Dkim);
    assert_eq!(header_kind_of("mime-version"), HeaderKind::MimeVersion);
    assert_eq!(
        header_kind_of("content-transfer-encoding"),
        HeaderKind::ContentTransferEncoding
    );
    assert_eq!(header_kind_of("list-unsubscribe"), HeaderKind::ListUnsubscribe);
    assert_eq!(header_kind_of("list-unsubscribe-post"), HeaderKind::ListUnsubscribePost);
    assert_eq!(header_kind_of("Received"), HeaderKind::Other);
    let pairs = vec![("A".to_string(), "1".to_string())];
    let headers = group_headers(&pairs, &["dkim-signature".to_string()]);
    assert_eq!(headers.dkim.as_deref(), Some("1"));
    assert!(headers.other.is_empty());
}

#[test]
fn transient_errors_are_told_by_their_description() {
    assert!(is_transient_error("Os { message: os error 110 }", false));
    assert!(is_transient_error("... Connection timed out", false));
    assert!(is_transient_error("connection reset by peer", false));
    assert!(is_transient_error("whatever", true));
    assert!(!is_transient_error("whatever", false));
    assert!(!is_transient_error("Connection reset", false));
    assert!(!is_transient_error("", false));
    assert!(!is_transient_error("os error 11", false));
}

#[test]
fn a_request_is_sent_again_three_times_at_most() {
    let mut retry = Retry::new();
    assert_eq!(retry.after_failure(true), Some(1));
    assert_eq!(retry.notice(), "Request failed, retrying (1/3)...");
    assert_eq!(retry.after_failure(true), Some(2));
    assert_eq!(retry.after_failure(true), Some(4));
    assert_eq!(retry.notice(), "Request failed, retrying (3/3)...");
    assert_eq!(retry.after_failure(true), None);
    assert_eq!(retry.after_failure(true), None);
}

#[test]
fn a_failure_that_stands_ends_the_retries() {
    let mut retry = Retry::new();
    assert_eq!(retry.after_failure(false), None);
    assert_eq!(retry.after_failure(true), Some(1));
    assert_eq!(retry.after_failure(false), None);
}

#[test]
fn only_statuses_from_200_to_299_are_success() {
    assert!(!is_success(199));
    assert!(is_success(200));
    assert!(is_success(299));
    assert!(!is_success(300));
    assert!(!is_success(404));
}

#[test]
fn a_refused_request_is_answered_with_status_and_body() {
    assert_eq!(
        http_error(404, Some("no such domain".to_string())).message(),
        "HTTP 404 Not Found - no such domain"
    );
    assert_eq!(http_error(401, None).message(), "HTTP 401 Unauthorized - ");
    assert_eq!(http_error(999, None).message(), "HTTP 999 <unknown status code> - ");
    assert_eq!(http_error(100, None).message(), "HTTP 100 Continue - ");
}

fn get(url: &str) -> Request {
    Request {
        method: Method::Get,
        url: url.to_string(),
        user: "api".to_string(),
        password: "key-test".to_string(),
    }
}

fn test_client() -> Client {
    Client::with_base_url("key-test", "example.com", "http://127.0.0.1:8080/v3".to_string())
}

#[test]
fn events_are_asked_for_with_their_filters() {
    let client = test_client();
    assert_eq!(
        client.list_events(Some("failed"), Some("reader@example.com"), 2).unwrap(),
        get("http://127.0.0.1:8080/v3/example.com/events?limit=2&event=failed&recipient=reader@example.com")
    );
    assert_eq!(
        client.list_events(None, Some("r"), 0).unwrap().url,
        "http://127.0.0.1:8080/v3/example.com/events?limit=0&recipient=r"
    );
    assert_eq!(
        client.list_events(Some("e"), None, EVENTS_MAX_LIMIT).unwrap().url,
        "http://127.0.0.1:8080/v3/example.com/events?limit=300&event=e"
    );
    assert_eq!(
        client.list_events(None, None, 20).unwrap().url,
        "http://127.0.0.1:8080/v3/example.com/events?limit=20"
    );
}

#[test]
fn lists_and_records_are_asked_for_at_their_endpoints() {
    let client = test_client();
    let base = "http://127.0.0.1:8080";
    assert_eq!(
        client.list_bounces(1),
        get("http://127.0.0.1:8080/v3/example.com/bounces?limit=1")
    );
    assert_eq!(
        client.list_complaints(1).url,
        format!("{}/v3/example.com/complaints?limit=1", base)
    );
    assert_eq!(
        client.list_unsubscribes(4294967295).url,
        format!("{}/v3/example.com/unsubscribes?limit=4294967295", base)
    );
    assert_eq!(
        client.get_stats(&["accepted", "delivered"], "7d").url,
        format!("{}/v3/example.com/stats/total?event=accepted,delivered&duration=7d", base)
    );
    assert_eq!(
        client.get_stats(&[], "7d").url,
        format!("{}/v3/example.com/stats/total?event=&duration=7d", base)
    );
    assert_eq!(client.fetch_stored_message("https://storage/1"), get("https://storage/1"));
    assert_eq!(client.list_account_ips(false).url, format!("{}/v3/ips", base));
    assert_eq!(client.list_account_ips(true).url, format!("{}/v3/ips?dedicated=true", base));
    assert_eq!(
        client.list_domain_ips(None).url,
        format!("{}/v3/domains/example.com/ips", base)
    );
    assert_eq!(
        client.list_domain_ips(Some("other.com")).url,
        format!("{}/v3/domains/other.com/ips", base)
    );
    assert_eq!(client.get_ip("1.2.3.4").url, format!("{}/v3/ips/1.2.3.4", base));
    assert_eq!(client.list_domains(5), get("http://127.0.0.1:8080/v4/domains?limit=5"));
    assert_eq!(client.fetch_json("u").url, "u");
}

#[test]
fn suppressed_addresses_are_deleted_by_their_endpoints() {
    let client = test_client();
    let request = client.delete_bounce("bad@example.com");
    assert_eq!(request.method, Method::Delete);
    assert_eq!(request.url, "http://127.0.0.1:8080/v3/example.com/bounces/bad@example.com");
    let request = client.delete_complaint("spam@example.com");
    assert_eq!(request.method, Method::Delete);
    assert_eq!(request.url, "http://127.0.0.1:8080/v3/example.com/complaints/spam@example.com");
    let request = client.delete_unsubscribe("gone@example.com");
    assert_eq!(request.method, Method::Delete);
    assert_eq!(request.url, "http://127.0.0.1:8080/v3/example.com/unsubscribes/gone@example.com");
    assert_eq!(request.password, "key-test");
}

#[test]
fn domains_are_asked_for_at_version_4_of_each_region() {
    assert_eq!(
        Client::new("k", "d", Region::Us).list_domains(100).url,
        "https://api.mailgun.net/v4/domains?limit=100"
    );
    assert_eq!(
        Client::new("k", "d", Region::Eu).list_domains(100).url,
        "https://api.eu.mailgun.net/v4/domains?limit=100"
    );
    let odd = Client::with_base_url("k", "d", "/v3/v33/v//v3".to_string());
    assert_eq!(odd.list_domains(1).url, "/v4/v43/v//v4/domains?limit=1");
    assert_eq!(REQUEST_TIMEOUT_SECS, 30);
}

#[test]
fn every_status_but_success_is_an_error() {
    for status in 100..1000 {
        let checked = check_status(status, Some("body".to_string()));
        assert_eq!(checked.is_ok(), status / 100 == 2);
        if let Err(error) = checked {
            assert!(error.message().starts_with(&format!("HTTP {} ", status)));
            assert!(error.message().ends_with(" - body"));
        }
    }
    assert!(check_status(204, None).is_ok());
    assert_eq!(check_status(404, None).unwrap_err().message(), "HTTP 404 Not Found - ");
}

#[test]
fn a_list_is_fetched_until_it_is_complete() {
    let listing = Listing::start(Ok::<_, String>(page(Some("a"), Some("u1")))).unwrap();
    assert_eq!(listing.next.as_deref(), Some("u1"));
    let listing = listing.after_fetch(Ok::<_, String>(page(Some("b"), Some("u2")))).unwrap();
    assert_eq!(listing.next.as_deref(), Some("u2"));
    let listing = listing.after_fetch(Ok::<_, String>(page(None, Some("u3")))).unwrap();
    assert_eq!(listing.next, None);
    assert_eq!(addresses(&listing.list), vec!["a", "b"]);
}

#[test]
fn a_page_that_cannot_be_fetched_fails_the_list() {
    let failed: Result<ComplaintsResponse, String> = Err("no answer".to_string());
    assert_eq!(Listing::start(failed).unwrap_err(), "no answer");
    let listing = Listing::start(Ok::<_, String>(page(Some("a"), Some("u1")))).unwrap();
    assert_eq!(listing.after_fetch(Err("no answer".to_string())).unwrap_err(), "no answer");
}

#[test]
fn a_limit_keeps_the_first_items() {
    let list = || {
        let mut list = page(Some("a"), Some("u1"));
        list.extend_items(page(Some("b"), None));
        list.extend_items(page(Some("c"), None));
        list
    };
    assert_eq!(addresses(&limited(list(), Some(2))), vec!["a", "b"]);
    assert_eq!(addresses(&limited(list(), Some(3))), vec!["a", "b", "c"]);
    assert_eq!(limited(list(), Some(u32::MAX)), list());
    assert_eq!(limited(list(), None), list());
    assert!(limited(list(), Some(0)).items.is_empty());
    let mut bounces = BouncesResponse {
        items: vec![Bounce {
            address: "a".to_string(),
            code: "550".to_string(),
            error: "blocked".to_string(),
            created_at: "2026-01-01".to_string(),
        }],
        paging: None,
    };
    bounces.truncate_items(1);
    assert_eq!(bounces.items.len(), 1);
    bounces.truncate_items(0);
    assert!(BouncesResponse::items_empty(&bounces));
}
