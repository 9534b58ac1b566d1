use mailgun::api::{
    AttachmentInfo, Bounce, BouncesResponse, Complaint, ComplaintsResponse, DeliveryStatus, Domain,
    DomainsResponse, Event, EventsResponse, IpDetails, IpsResponse, MessageHeaders, MessageInfo,
    StatCount, StatEntry, StatsResponse, StorageInfo, StoredMessage, StoredMessageHeaders,
    Timestamp, Unsubscribe, UnsubscribesResponse,
};
use mailgun::message::{
    print_headers, print_message, print_message_attachments, print_message_metadata,
    print_message_text, MESSAGE_PREVIEW_CHARS,
};
use mailgun::report::{
    format_delivery_status, format_event, print_bounces, print_complaints, print_domains,
    print_events, print_ip_details, print_ips, print_stats, print_unsubscribes,
};
use mailgun::stats::StatsTotals;
use mailgun::text::{
    chars_of, contains, format_i32, format_u64, is_before, join, join_slices, left, repeat,
    replace, right, same_text, truncate,
};
use mailgun::time::{format_timestamp, show_time, EARLIEST_SECS, LATEST_SECS};

fn at(number: f64) -> Timestamp {
    Timestamp { secs: number as i64, text: number.to_string() }
}

#[test]
fn formats_timestamps_truncation_and_delivery_status() {
    assert_eq!(format_timestamp(&at(0.0)), "1970-01-01 00:00:00 UTC");
    assert_eq!(truncate("abcdef", 3), "abc...");
    assert_eq!(truncate("éclair", 2), "éc...");
    assert_eq!(truncate("short", 10), "short");

    let status = DeliveryStatus {
        code: Some(550),
        message: Some("Mailbox unavailable because recipient is disabled".to_string()),
        description: None,
    };
    assert_eq!(
        format_delivery_status(&status),
        " [550] Mailbox unavailable because recipient is disabled"
    );

    let code_only = DeliveryStatus { code: Some(250), message: None, description: None };
    let message_only =
        DeliveryStatus { code: None, message: Some("queued".to_string()), description: None };
    let empty = DeliveryStatus { code: None, message: None, description: None };
    assert_eq!(format_delivery_status(&code_only), " [250]");
    assert_eq!(format_delivery_status(&message_only), " queued");
    assert_eq!(format_delivery_status(&empty), "");
}

fn total(n: Option<u64>) -> Option<StatCount> {
    Some(StatCount { total: n, permanent: None, temporary: None })
}

#[test]
fn aggregates_stats_totals_with_missing_counts_as_zero() {
    let entries = vec![
        StatEntry {
            time: "2026-01-01".to_string(),
            accepted: total(Some(10)),
            delivered: total(Some(7)),
            failed: Some(StatCount { total: Some(3), permanent: Some(2), temporary: Some(1) }),
            opened: total(Some(4)),
            clicked: total(Some(2)),
            unsubscribed: total(Some(1)),
            complained: None,
            stored: None,
        },
        StatEntry {
            time: "2026-01-02".to_string(),
            accepted: total(None),
            delivered: None,
            failed: None,
            opened: None,
            clicked: None,
            unsubscribed: None,
            complained: total(Some(1)),
            stored: total(Some(5)),
        },
    ];

    let totals = StatsTotals::from_entries(&entries);

    assert_eq!(totals.accepted, 10);
    assert_eq!(totals.delivered, 7);
    assert_eq!(totals.failed, 3);
    assert_eq!(totals.failed_permanent, 2);
    assert_eq!(totals.failed_temporary, 1);
    assert_eq!(totals.opened, 4);
    assert_eq!(totals.clicked, 2);
    assert_eq!(totals.unsubscribed, 1);
    assert_eq!(totals.complained, 1);
}

#[test]
fn print_functions_handle_empty_and_populated_payloads() {
    assert_eq!(
        print_events(&EventsResponse { items: Vec::new(), paging: None }),
        "No events found.\n"
    );
    let events = EventsResponse {
        items: vec![
            Event {
                id: Some("evt-1".to_string()),
                event: "failed".to_string(),
                timestamp: at(1710000000.0),
                recipient: Some("reader@example.com".to_string()),
                message: Some(MessageInfo {
                    headers: Some(MessageHeaders {
                        message_id: Some("msg-1".to_string()),
                        subject: Some(
                            "A subject that is intentionally longer than forty characters"
                                .to_string(),
                        ),
                        from: Some("sender@example.com".to_string()),
                        to: Some("reader@example.com".to_string()),
                    }),
                }),
                tags: vec!["news".to_string()],
                delivery_status: Some(DeliveryStatus {
                    code: Some(550),
                    message: Some("Mailbox unavailable".to_string()),
                    description: None,
                }),
                reason: None,
                severity: Some("permanent".to_string()),
                storage: Some(StorageInfo { url: "https://storage".to_string() }),
            },
            Event {
                id: None,
                event: "rejected".to_string(),
                timestamp: at(1710000001.0),
                recipient: None,
                message: None,
                tags: Vec::new(),
                delivery_status: None,
                reason: Some("policy".to_string()),
                severity: None,
                storage: None,
            },
        ],
        paging: None,
    };
    assert_eq!(
        print_events(&events),
        "2024-03-09 16:00:00 UTC failed     reader@example.com [550] Mailbox unavailable \
         \"A subject that is intentionally longer t...\"\n\
         2024-03-09 16:00:01 UTC rejected   - (policy)\n"
    );

    assert_eq!(
        print_bounces(&BouncesResponse { items: Vec::new(), paging: None }),
        "No bounced addresses found.\n"
    );
    let bounces = BouncesResponse {
        items: vec![Bounce {
            address: "bad@example.com".to_string(),
            code: "550".to_string(),
            error: "blocked because this address repeatedly failed delivery".to_string(),
            created_at: "2026-01-01".to_string(),
        }],
        paging: None,
    };
    assert_eq!(
        print_bounces(&bounces),
        format!(
            "{:<40} {:>6} {:<30} {}\n{}\n{:<40} {:>6} {:<30} {}\n",
            "ADDRESS",
            "CODE",
            "ERROR",
            "CREATED",
            "-".repeat(100),
            "bad@example.com",
            "550",
            "blocked because this address r...",
            "2026-01-01"
        )
    );

    assert_eq!(
        print_complaints(&ComplaintsResponse { items: Vec::new(), paging: None }),
        "No complaint addresses found.\n"
    );
    let complaints = ComplaintsResponse {
        items: vec![Complaint {
            address: "spam@example.com".to_string(),
            created_at: "2026-01-02".to_string(),
        }],
        paging: None,
    };
    assert_eq!(
        print_complaints(&complaints),
        format!(
            "{:<50} {}\n{}\n{:<50} {}\n",
            "ADDRESS",
            "CREATED",
            "-".repeat(80),
            "spam@example.com",
            "2026-01-02"
        )
    );

    assert_eq!(
        print_unsubscribes(&UnsubscribesResponse { items: Vec::new(), paging: None }),
        "No unsubscribed addresses found.\n"
    );
    let unsubscribes = UnsubscribesResponse {
        items: vec![
            Unsubscribe {
                address: "tagged@example.com".to_string(),
                tags: vec!["newsletter".to_string(), "promo".to_string()],
                created_at: "2026-01-03".to_string(),
            },
            Unsubscribe {
                address: "untagged@example.com".to_string(),
                tags: Vec::new(),
                created_at: "2026-01-04".to_string(),
            },
        ],
        paging: None,
    };
    assert_eq!(
        print_unsubscribes(&unsubscribes),
        format!(
            "{:<40} {:<20} {}\n{}\n{:<40} {:<20} {}\n{:<40} {:<20} {}\n",
            "ADDRESS",
            "TAGS",
            "CREATED",
            "-".repeat(90),
            "tagged@example.com",
            "newsletter, promo",
            "2026-01-03",
            "untagged@example.com",
            "-",
            "2026-01-04"
        )
    );

    assert_eq!(
        print_ips(&IpsResponse { items: Vec::new(), total_count: None }),
        "No IP addresses found.\n"
    );
    assert_eq!(
        print_ips(&IpsResponse { items: vec!["1.2.3.4".to_string()], total_count: Some(1) }),
        "1.2.3.4\n\nTotal: 1\n"
    );
    assert_eq!(
        print_ip_details(&IpDetails {
            ip: "1.2.3.4".to_string(),
            rdns: Some("mail.example.com".to_string()),
            dedicated: Some(true),
        }),
        "IP:        1.2.3.4\nRDNS:      mail.example.com\nDedicated: yes\n"
    );
    assert_eq!(
        print_ip_details(&IpDetails {
            ip: "5.6.7.8".to_string(),
            rdns: None,
            dedicated: Some(false),
        }),
        "IP:        5.6.7.8\nRDNS:      -\nDedicated: no\n"
    );
    assert_eq!(
        print_ip_details(&IpDetails { ip: "9.9.9.9".to_string(), rdns: None, dedicated: None }),
        "IP:        9.9.9.9\nRDNS:      -\nDedicated: -\n"
    );

    assert_eq!(
        print_domains(&DomainsResponse { items: Vec::new(), total_count: None }),
        "No domains found.\n"
    );
    let domains = DomainsResponse {
        items: vec![
            Domain {
                name: "example.com".to_string(),
                state: Some("active".to_string()),
                domain_type: Some("custom".to_string()),
                is_disabled: false,
                created_at: Some("2026-01-01".to_string()),
            },
            Domain {
                name: "disabled.example.com".to_string(),
                state: None,
                domain_type: None,
                is_disabled: true,
                created_at: None,
            },
        ],
        total_count: Some(2),
    };
    assert_eq!(
        print_domains(&domains),
        format!(
            "{:<32} {:<10} {:<10} CREATED\n{}\n{:<32} {:<10} {:<10} {}\n{:<32} {:<10} {:<10} {}\n",
            "NAME",
            "STATE",
            "TYPE",
            "-".repeat(80),
            "example.com",
            "active",
            "custom",
            "2026-01-01",
            "disabled.example.com (disabled)",
            "-",
            "-",
            "-"
        )
    );
}

#[test]
fn print_message_and_stats_handle_optional_and_truncated_fields() {
    let long_text = "x".repeat(MESSAGE_PREVIEW_CHARS + 10);
    let message = StoredMessage {
        headers: StoredMessageHeaders {
            received: vec!["mx1".to_string(), "mx2".to_string()],
            dkim: Some("dkim".to_string()),
            mime_version: Some("1.0".to_string()),
            content_transfer_encoding: Some("quoted-printable".to_string()),
            list_unsubscribe: Some("<mailto:unsubscribe@example.com>".to_string()),
            list_unsubscribe_post: Some("List-Unsubscribe=One-Click".to_string()),
            other: vec![("X-Campaign".to_string(), "summer".to_string())],
        },
        from: Some("sender@example.com".to_string()),
        to: Some("reader@example.com".to_string()),
        subject: Some("Stored".to_string()),
        stripped_text: Some(long_text),
        stripped_html: Some("<p>Body</p>".to_string()),
        stripped_signature: None,
        attachments: vec![AttachmentInfo {
            filename: "report.pdf".to_string(),
            size: 2048,
            content_type: "application/pdf".to_string(),
        }],
    };

    let headers = "=== Headers ===\nReceived: mx1\nReceived[1]: mx2\nDKIM-Signature: dkim\n\
                   MIME-Version: 1.0\nContent-Transfer-Encoding: quoted-printable\n\
                   List-Unsubscribe: <mailto:unsubscribe@example.com>\n\
                   List-Unsubscribe-Post: List-Unsubscribe=One-Click\nX-Campaign: summer\n";
    assert_eq!(print_message(&message, true), headers);
    assert_eq!(
        print_message(&message, false),
        format!(
            "=== Message Details ===\nSubject: Stored\nFrom: sender@example.com\n\
             To: reader@example.com\n\n{}\n=== Body ===\nText (truncated):\n{}\n\
             ... (510 chars total)\n\n=== Attachments (1) ===\n\
             report.pdf (2 KB) [application/pdf]\n",
            headers,
            "x".repeat(500)
        )
    );
    assert_eq!(print_message_text(None), "Text: (none)\n");
    assert_eq!(print_message_text(Some("short body")), "Text:\nshort body\n");

    let stats = StatsResponse {
        start: "2026-01-01".to_string(),
        end: "2026-01-08".to_string(),
        resolution: "day".to_string(),
        stats: vec![StatEntry {
            time: "2026-01-01".to_string(),
            accepted: total(Some(10)),
            delivered: total(Some(5)),
            failed: Some(StatCount { total: Some(1), permanent: Some(1), temporary: Some(0) }),
            opened: total(Some(2)),
            clicked: total(Some(1)),
            unsubscribed: total(Some(1)),
            complained: total(Some(1)),
            stored: None,
        }],
    };
    let open_rate = format!("{:.1}", 2.0 / 5.0 * 100.0);
    let click_rate = format!("{:.1}", 1.0 / 5.0 * 100.0);
    assert_eq!(
        print_stats(&stats, &open_rate, &click_rate),
        "Statistics from 2026-01-01 to 2026-01-08\n\
         Resolution: day\n\
         \n\
         Metric                    Count\n\
         --------------------------------\n\
         Accepted                     10\n\
         Delivered                     5\n\
         Failed (total)                1\n  \
           Permanent                   1\n  \
           Temporary                   0\n\
         Opened                        2\n\
         Clicked                       1\n\
         Unsubscribed                  1\n\
         Complained                    1\n\
         \n\
         Open rate:  40.0%\n\
         Click rate: 20.0%\n"
    );
}

fn entry(delivered: u64) -> StatEntry {
    StatEntry {
        time: "t".to_string(),
        accepted: None,
        delivered: total(Some(delivered)),
        failed: None,
        opened: None,
        clicked: None,
        unsubscribed: None,
        complained: None,
        stored: total(Some(u64::MAX)),
    }
}

#[test]
fn rates_are_shown_only_where_something_was_delivered() {
    let stats = StatsResponse {
        start: "a".to_string(),
        end: "b".to_string(),
        resolution: "day".to_string(),
        stats: Vec::new(),
    };
    let text = print_stats(&stats, "1.0", "2.0");
    assert!(text.starts_with("Statistics from a to b\nResolution: day\n\nMetric"));
    assert!(text.ends_with("Complained                    0\n"));
}

#[test]
fn sums_that_are_too_large_are_no_totals() {
    assert!(StatsTotals::try_from_entries(&[entry(u64::MAX), entry(1)]).is_none());
    let totals = StatsTotals::try_from_entries(&[entry(u64::MAX - 1), entry(1)]).unwrap();
    assert_eq!(totals.delivered, u64::MAX);
    assert_eq!(totals.accepted, 0);
    let failed = |permanent: u64, temporary: u64| {
        let mut e = entry(0);
        e.failed = Some(StatCount {
            total: None,
            permanent: Some(permanent),
            temporary: Some(temporary),
        });
        e
    };
    assert!(StatsTotals::try_from_entries(&[failed(u64::MAX, 0), failed(1, 0)]).is_none());
    assert!(StatsTotals::try_from_entries(&[failed(0, u64::MAX), failed(0, 1)]).is_none());
    assert!(StatsTotals::try_from_entries(&[failed(0, u64::MAX), failed(u64::MAX, 0)]).is_some());
}

#[test]
fn totals_of_two_spans_add_up() {
    let whole = StatsTotals::from_entries(&[entry(3), entry(4), entry(5)]);
    let first = StatsTotals::from_entries(&[entry(3)]);
    let rest = StatsTotals::from_entries(&[entry(4), entry(5)]);
    assert_eq!(whole.delivered, first.delivered + rest.delivered);
}

#[test]
fn timestamps_without_a_date_are_shown_as_they_came() {
    let shown = |secs: i64| format_timestamp(&Timestamp { secs, text: "number".to_string() });
    assert_eq!(shown(LATEST_SECS), "+262142-12-31 23:59:59 UTC");
    assert_eq!(shown(LATEST_SECS + 1), "number");
    assert_eq!(shown(EARLIEST_SECS), "-262143-01-01 00:00:00 UTC");
    assert_eq!(shown(EARLIEST_SECS - 1), "number");
    assert_eq!(shown(i64::MAX), "number");
    assert_eq!(shown(i64::MIN), "number");
    assert_eq!(shown(-1), "1969-12-31 23:59:59 UTC");
    assert_eq!(shown(1710000000), "2024-03-09 16:00:00 UTC");
    assert_eq!(show_time(None, "7.5"), "7.5");
    assert_eq!(show_time(Some("then".to_string()), "7.5"), "then");
}

fn bare_event(name: &str) -> Event {
    Event {
        id: None,
        event: name.to_string(),
        timestamp: at(0.0),
        recipient: None,
        message: None,
        tags: Vec::new(),
        delivery_status: None,
        reason: None,
        severity: None,
        storage: None,
    }
}

#[test]
fn events_show_delivery_before_reason_and_no_dash_as_subject() {
    assert_eq!(format_event("now", &bare_event("opened")), "now opened     -\n");
    assert_eq!(format_event("now", &bare_event("list_member_added")), "now list_member_added -\n");
    let mut event = bare_event("failed");
    event.reason = Some("bounce".to_string());
    event.delivery_status =
        Some(DeliveryStatus { code: Some(-1), message: None, description: None });
    event.message = Some(MessageInfo {
        headers: Some(MessageHeaders {
            message_id: None,
            subject: Some("-".to_string()),
            from: None,
            to: None,
        }),
    });
    assert_eq!(format_event("now", &event), "now failed     - [-1]\n");
    event.delivery_status =
        Some(DeliveryStatus { code: None, message: None, description: None });
    assert_eq!(format_event("now", &event), "now failed     -\n");
    event.message = Some(MessageInfo {
        headers: Some(MessageHeaders {
            message_id: None,
            subject: Some(String::new()),
            from: None,
            to: None,
        }),
    });
    assert_eq!(format_event("now", &event), "now failed     - \"\"\n");
}

#[test]
fn long_delivery_messages_are_cut_at_50_characters() {
    let status = |message: String| DeliveryStatus {
        code: Some(550),
        message: Some(message),
        description: None,
    };
    assert_eq!(
        format_delivery_status(&status("é".repeat(50))),
        format!(" [550] {}", "é".repeat(50))
    );
    assert_eq!(
        format_delivery_status(&status("é".repeat(51))),
        format!(" [550] {}...", "é".repeat(50))
    );
}

#[test]
fn long_tags_are_cut_at_20_characters() {
    let list = UnsubscribesResponse {
        items: vec![Unsubscribe {
            address: "a".to_string(),
            tags: vec!["newsletter".to_string(), "promotions".to_string()],
            created_at: "c".to_string(),
        }],
        paging: None,
    };
    let text = print_unsubscribes(&list);
    assert!(text.ends_with(&format!("{:<40} newsletter, promotio... c\n", "a")));
}

#[test]
fn ips_without_a_total_have_no_last_line() {
    let ips = IpsResponse {
        items: vec!["1.2.3.4".to_string(), "5.6.7.8".to_string()],
        total_count: None,
    };
    assert_eq!(print_ips(&ips), "1.2.3.4\n5.6.7.8\n");
}

#[test]
fn bodies_are_cut_by_their_bytes_and_shown_by_their_characters() {
    let exact = "x".repeat(500);
    assert_eq!(print_message_text(Some(&exact)), format!("Text:\n{}\n", exact));
    let wide = "é".repeat(251);
    assert_eq!(
        print_message_text(Some(&wide)),
        format!("Text (truncated):\n{}\n... (502 chars total)\n", wide)
    );
    let wider = "é".repeat(501);
    assert_eq!(
        print_message_text(Some(&wider)),
        format!("Text (truncated):\n{}\n... (1002 chars total)\n", "é".repeat(500))
    );
    assert_eq!(print_message_text(Some("")), "Text:\n\n");
}

#[test]
fn messages_without_parts_show_what_there_is() {
    let message = StoredMessage {
        headers: StoredMessageHeaders::default(),
        from: None,
        to: None,
        subject: None,
        stripped_text: None,
        stripped_html: None,
        stripped_signature: None,
        attachments: Vec::new(),
    };
    assert_eq!(print_headers(&message.headers), "");
    assert_eq!(print_message_metadata(&message), "");
    assert_eq!(print_message_attachments(&message.attachments), "");
    assert_eq!(print_message(&message, true), "=== Headers ===\n");
    assert_eq!(
        print_message(&message, false),
        "=== Message Details ===\n\n=== Headers ===\n\n=== Body ===\nText: (none)\n"
    );
    let small =
        AttachmentInfo { filename: "a".to_string(), size: 1023, content_type: "t".to_string() };
    assert_eq!(
        print_message_attachments(&[small]),
        "\n=== Attachments (1) ===\na (0 KB) [t]\n"
    );
}

#[test]
fn numbers_are_written_in_decimal() {
    for n in [0, 9, 10, 11, 99, 100, 1234567890, u64::MAX] {
        assert_eq!(format_u64(n), n.to_string());
    }
    for n in [0, 7, -7, 550, i32::MAX, i32::MIN] {
        assert_eq!(format_i32(n), n.to_string());
    }
}

#[test]
fn columns_are_filled_by_characters() {
    for s in ["", "a", "éé", "exactly ten", "longer than that"] {
        assert_eq!(left(s, 10), format!("{:<10}", s));
        assert_eq!(right(s, 10), format!("{:>10}", s));
    }
    assert_eq!(repeat("-", 3), "---");
    assert_eq!(repeat("-", 0), "");
}

#[test]
fn texts_are_cut_joined_and_searched() {
    assert_eq!(truncate("", 0), "");
    assert_eq!(truncate("a", 0), "...");
    assert_eq!(truncate("abc", 3), "abc");
    assert_eq!(join(&[], ", "), "");
    assert_eq!(join(&["a".to_string()], ", "), "a");
    assert_eq!(join(&["a".to_string(), "".to_string(), "b".to_string()], ", "), "a, , b");
    assert_eq!(join_slices(&["a", "b"], ","), "a,b");
    assert_eq!(chars_of("aé"), vec!['a', 'é']);
    for (s, needle) in
        [("", ""), ("", "a"), ("abc", ""), ("abc", "c"), ("abc", "cd"), ("aab", "ab"), ("é", "é")]
    {
        assert_eq!(contains(s, needle), s.contains(needle));
    }
}

#[test]
fn texts_are_replaced_from_the_left() {
    for (s, from, to) in [
        ("", "a", "b"),
        ("aaa", "aa", "b"),
        ("xéx", "é", "ee"),
        ("https://api.mailgun.net/v3", "/v3", "/v4"),
        ("/v3/v3", "/v3", ""),
        ("abab", "ba", "-"),
        ("same", "other", "!"),
    ] {
        assert_eq!(replace(s, from, to), s.replace(from, to));
    }
}

#[test]
fn texts_are_ordered_as_strings_are() {
    let texts = ["", "a", "A", "ab", "b", "é", "z", "\u{FFFD}", "\u{10000}"];
    for a in texts {
        for b in texts {
            assert_eq!(is_before(a, b), a < b);
            assert_eq!(same_text(a, b), a == b);
        }
    }
}
