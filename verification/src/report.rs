//! What the user reads of the answers of the API.

use vstd::prelude::*;

use crate::api::{
    Bounce, BouncesResponse, Complaint, ComplaintsResponse, DeliveryStatus, Domain,
    DomainsResponse, Event, EventsResponse, IpDetails, IpsResponse, MessageHeaders, StatEntry,
    StatsResponse, Unsubscribe, UnsubscribesResponse,
};
use crate::stats::{
    added_up, metrics_add_up_their_own_counts, sum, sums_fit, Metric, StatsTotals,
};
use crate::text::{
    clipped, decimal, format_i32, format_u64, join, joined, left, opt_text, pad_left, pad_right,
    repeat, repeated, right, same_text, signed_decimal, texts, truncate,
};
use crate::time::{format_timestamp, timestamp_text};

verus! {

/// A text that may be missing, which then shows as a dash.
pub open spec fn or_dash(s: Option<Seq<char>>) -> Seq<char> {
    match s {
        Some(s) => s,
        None => "-"@,
    }
}

fn text_or_dash(s: &Option<String>) -> (r: &str)
    ensures
        r@ == or_dash(opt_text(*s)),
{
    match s {
        Some(s) => s.as_str(),
        None => "-",
    }
}

/// A line of dashes.
pub open spec fn rule(width: nat) -> Seq<char> {
    repeated('-', width) + "\n"@
}

fn rule_line(width: usize) -> (r: String)
    ensures
        r@ == rule(width as nat),
{
    proof {
        reveal_strlit("-");
    }
    repeat("-", width).concat("\n")
}

/// What the user reads of a delivery: a code, a message, or both.
pub open spec fn delivery_text(status: DeliveryStatus) -> Seq<char> {
    match (status.code, opt_text(status.message)) {
        (Some(code), Some(message)) => " ["@ + signed_decimal(code as int) + "] "@ + clipped(
            message,
            50,
        ),
        (Some(code), None) => " ["@ + signed_decimal(code as int) + "]"@,
        (None, Some(message)) => " "@ + clipped(message, 50),
        (None, None) => seq![],
    }
}

/// Writes a delivery out: a code, a message, or both.
pub fn format_delivery_status(status: &DeliveryStatus) -> (r: String)
    ensures
        r@ == delivery_text(*status),
{
    match (status.code, &status.message) {
        (Some(code), Some(message)) => " [".to_string().concat(format_i32(code).as_str()).concat(
            "] ",
        ).concat(truncate(message.as_str(), 50).as_str()),
        (Some(code), None) => " [".to_string().concat(format_i32(code).as_str()).concat("]"),
        (None, Some(message)) => " ".to_string().concat(truncate(message.as_str(), 50).as_str()),
        (None, None) => String::new(),
    }
}

/// The subject of the message of an event.
pub open spec fn event_subject(event: Event) -> Option<Seq<char>> {
    match event.message {
        Some(message) => match message.headers {
            Some(headers) => opt_text(headers.subject),
            None => None,
        },
        None => None,
    }
}

/// How an event went: its delivery or else its reason.
pub open spec fn event_detail(event: Event) -> Seq<char> {
    match event.delivery_status {
        Some(status) => delivery_text(status),
        None => match opt_text(event.reason) {
            Some(reason) => " ("@ + reason + ")"@,
            None => seq![],
        },
    }
}

/// The subject of an event in quotes; a dash is no subject.
pub open spec fn quoted_subject(event: Event) -> Seq<char> {
    let subject = or_dash(event_subject(event));
    if subject == "-"@ {
        seq![]
    } else {
        " \""@ + clipped(subject, 40) + "\""@
    }
}

/// The line of an event that happened at `time`.
pub open spec fn event_line(time: Seq<char>, event: Event) -> Seq<char> {
    time + " "@ + pad_right(event.event@, 10) + " "@ + or_dash(opt_text(event.recipient))
        + event_detail(event) + quoted_subject(event) + "\n"@
}

/// The lines of a list of events.
pub open spec fn event_lines(events: Seq<Event>) -> Seq<char>
    decreases events.len(),
{
    if events.len() == 0 {
        seq![]
    } else {
        event_lines(events.drop_last()) + event_line(
            timestamp_text(events.last().timestamp),
            events.last(),
        )
    }
}

fn find_subject(event: &Event) -> (r: &str)
    ensures
        r@ == or_dash(event_subject(*event)),
{
    match &event.message {
        Some(message) => match &message.headers {
            Some(headers) => text_or_dash(&headers.subject),
            None => "-",
        },
        None => "-",
    }
}

/// The line of an event that happened at `time`.
pub fn format_event(time: &str, event: &Event) -> (r: String)
    ensures
        r@ == event_line(time@, *event),
{
    let detail = match &event.delivery_status {
        Some(status) => format_delivery_status(status),
        None => match &event.reason {
            Some(reason) => " (".to_string().concat(reason.as_str()).concat(")"),
            None => String::new(),
        },
    };
    let subject = find_subject(event);
    let quoted = if same_text(subject, "-") {
        String::new()
    } else {
        " \"".to_string().concat(truncate(subject, 40).as_str()).concat("\"")
    };
    time.to_string().concat(" ").concat(left(event.event.as_str(), 10).as_str()).concat(" ").concat(
        text_or_dash(&event.recipient),
    ).concat(detail.as_str()).concat(quoted.as_str()).concat("\n")
}

/// What the user reads of a list of events.
pub fn print_events(resp: &EventsResponse) -> (r: String)
    ensures
        r@ == if resp.items@.len() == 0 {
            "No events found.\n"@
        } else {
            event_lines(resp.items@)
        },
{
    if resp.items.is_empty() {
        return "No events found.\n".to_string();
    }
    let mut out = String::new();
    let mut i: usize = 0;
    assert(resp.items@.take(0) =~= seq![]);
    while i < resp.items.len()
        invariant
            i <= resp.items@.len(),
            out@ == event_lines(resp.items@.take(i as int)),
        decreases resp.items@.len() - i,
    {
        let event = &resp.items[i];
        let time = format_timestamp(&event.timestamp);
        out.append(format_event(time.as_str(), event).as_str());
        assert(resp.items@.take(i + 1).drop_last() =~= resp.items@.take(i as int));
        i += 1;
    }
    assert(resp.items@.take(resp.items@.len() as int) =~= resp.items@);
    out
}

/// The columns of the list of bounces.
pub open spec fn bounce_columns(
    address: Seq<char>,
    code: Seq<char>,
    error: Seq<char>,
    created: Seq<char>,
) -> Seq<char> {
    pad_right(address, 40) + " "@ + pad_left(code, 6) + " "@ + pad_right(error, 30) + " "@ + created
        + "\n"@
}

fn bounce_row(address: &str, code: &str, error: &str, created: &str) -> (r: String)
    ensures
        r@ == bounce_columns(address@, code@, error@, created@),
{
    left(address, 40).concat(" ").concat(right(code, 6).as_str()).concat(" ").concat(
        left(error, 30).as_str(),
    ).concat(" ").concat(created).concat("\n")
}

/// The lines of a list of bounces.
pub open spec fn bounce_lines(bounces: Seq<Bounce>) -> Seq<char>
    decreases bounces.len(),
{
    if bounces.len() == 0 {
        bounce_columns("ADDRESS"@, "CODE"@, "ERROR"@, "CREATED"@) + rule(100)
    } else {
        let bounce = bounces.last();
        bounce_lines(bounces.drop_last()) + bounce_columns(
            bounce.address@,
            bounce.code@,
            clipped(bounce.error@, 30),
            bounce.created_at@,
        )
    }
}

/// What the user reads of a list of bounces.
pub fn print_bounces(resp: &BouncesResponse) -> (r: String)
    ensures
        r@ == if resp.items@.len() == 0 {
            "No bounced addresses found.\n"@
        } else {
            bounce_lines(resp.items@)
        },
{
    if resp.items.is_empty() {
        return "No bounced addresses found.\n".to_string();
    }
    let mut out = bounce_row("ADDRESS", "CODE", "ERROR", "CREATED").concat(
        rule_line(100).as_str(),
    );
    let mut i: usize = 0;
    while i < resp.items.len()
        invariant
            i <= resp.items@.len(),
            out@ == bounce_lines(resp.items@.take(i as int)),
        decreases resp.items@.len() - i,
    {
        let bounce = &resp.items[i];
        out.append(
            bounce_row(
                bounce.address.as_str(),
                bounce.code.as_str(),
                truncate(bounce.error.as_str(), 30).as_str(),
                bounce.created_at.as_str(),
            ).as_str(),
        );
        assert(resp.items@.take(i + 1).drop_last() =~= resp.items@.take(i as int));
        i += 1;
    }
    assert(resp.items@.take(resp.items@.len() as int) =~= resp.items@);
    out
}

/// The columns of the list of complaints.
pub open spec fn complaint_columns(address: Seq<char>, created: Seq<char>) -> Seq<char> {
    pad_right(address, 50) + " "@ + created + "\n"@
}

fn complaint_row(address: &str, created: &str) -> (r: String)
    ensures
        r@ == complaint_columns(address@, created@),
{
    left(address, 50).concat(" ").concat(created).concat("\n")
}

/// The lines of a list of complaints.
pub open spec fn complaint_lines(complaints: Seq<Complaint>) -> Seq<char>
    decreases complaints.len(),
{
    if complaints.len() == 0 {
        complaint_columns("ADDRESS"@, "CREATED"@) + rule(80)
    } else {
        complaint_lines(complaints.drop_last()) + complaint_columns(
            complaints.last().address@,
            complaints.last().created_at@,
        )
    }
}

/// What the user reads of a list of complaints.
pub fn print_complaints(resp: &ComplaintsResponse) -> (r: String)
    ensures
        r@ == if resp.items@.len() == 0 {
            "No complaint addresses found.\n"@
        } else {
            complaint_lines(resp.items@)
        },
{
    if resp.items.is_empty() {
        return "No complaint addresses found.\n".to_string();
    }
    let mut out = complaint_row("ADDRESS", "CREATED").concat(rule_line(80).as_str());
    let mut i: usize = 0;
    while i < resp.items.len()
        invariant
            i <= resp.items@.len(),
            out@ == complaint_lines(resp.items@.take(i as int)),
        decreases resp.items@.len() - i,
    {
        let complaint = &resp.items[i];
        out.append(
            complaint_row(complaint.address.as_str(), complaint.created_at.as_str()).as_str(),
        );
        assert(resp.items@.take(i + 1).drop_last() =~= resp.items@.take(i as int));
        i += 1;
    }
    assert(resp.items@.take(resp.items@.len() as int) =~= resp.items@);
    out
}

/// The tags of an unsubscribed address in one text.
pub open spec fn tags_text(tags: Seq<Seq<char>>) -> Seq<char> {
    if tags.len() == 0 {
        "-"@
    } else {
        joined(tags, ", "@)
    }
}

/// The columns of the list of unsubscribed addresses.
pub open spec fn unsubscribe_columns(
    address: Seq<char>,
    tags: Seq<char>,
    created: Seq<char>,
) -> Seq<char> {
    pad_right(address, 40) + " "@ + pad_right(tags, 20) + " "@ + created + "\n"@
}

fn unsubscribe_row(address: &str, tags: &str, created: &str) -> (r: String)
    ensures
        r@ == unsubscribe_columns(address@, tags@, created@),
{
    left(address, 40).concat(" ").concat(left(tags, 20).as_str()).concat(" ").concat(created).concat(
        "\n",
    )
}

/// The lines of a list of unsubscribed addresses.
pub open spec fn unsubscribe_lines(unsubscribes: Seq<Unsubscribe>) -> Seq<char>
    decreases unsubscribes.len(),
{
    if unsubscribes.len() == 0 {
        unsubscribe_columns("ADDRESS"@, "TAGS"@, "CREATED"@) + rule(90)
    } else {
        let unsubscribe = unsubscribes.last();
        unsubscribe_lines(unsubscribes.drop_last()) + unsubscribe_columns(
            unsubscribe.address@,
            clipped(tags_text(texts(unsubscribe.tags@)), 20),
            unsubscribe.created_at@,
        )
    }
}

/// What the user reads of a list of unsubscribed addresses.
pub fn print_unsubscribes(resp: &UnsubscribesResponse) -> (r: String)
    ensures
        r@ == if resp.items@.len() == 0 {
            "No unsubscribed addresses found.\n"@
        } else {
            unsubscribe_lines(resp.items@)
        },
{
    if resp.items.is_empty() {
        return "No unsubscribed addresses found.\n".to_string();
    }
    let mut out = unsubscribe_row("ADDRESS", "TAGS", "CREATED").concat(rule_line(90).as_str());
    let mut i: usize = 0;
    while i < resp.items.len()
        invariant
            i <= resp.items@.len(),
            out@ == unsubscribe_lines(resp.items@.take(i as int)),
        decreases resp.items@.len() - i,
    {
        let unsubscribe = &resp.items[i];
        let tags = if unsubscribe.tags.is_empty() {
            "-".to_string()
        } else {
            join(unsubscribe.tags.as_slice(), ", ")
        };
        out.append(
            unsubscribe_row(
                unsubscribe.address.as_str(),
                truncate(tags.as_str(), 20).as_str(),
                unsubscribe.created_at.as_str(),
            ).as_str(),
        );
        assert(resp.items@.take(i + 1).drop_last() =~= resp.items@.take(i as int));
        i += 1;
    }
    assert(resp.items@.take(resp.items@.len() as int) =~= resp.items@);
    out
}

/// Each of the texts on a line of its own.
pub open spec fn text_lines(items: Seq<Seq<char>>) -> Seq<char>
    decreases items.len(),
{
    if items.len() == 0 {
        seq![]
    } else {
        text_lines(items.drop_last()) + items.last() + "\n"@
    }
}

/// What the user reads of a list of IP addresses.
pub open spec fn ips_text(items: Seq<Seq<char>>, total_count: Option<u32>) -> Seq<char> {
    if items.len() == 0 {
        "No IP addresses found.\n"@
    } else {
        match total_count {
            Some(total) => text_lines(items) + "\nTotal: "@ + decimal(total as nat) + "\n"@,
            None => text_lines(items),
        }
    }
}

/// What the user reads of a list of IP addresses.
pub fn print_ips(resp: &IpsResponse) -> (r: String)
    ensures
        r@ == ips_text(texts(resp.items@), resp.total_count),
{
    if resp.items.is_empty() {
        return "No IP addresses found.\n".to_string();
    }
    let mut out = String::new();
    let mut i: usize = 0;
    let ghost items = texts(resp.items@);
    assert(items.take(0) =~= seq![]);
    while i < resp.items.len()
        invariant
            i <= resp.items@.len(),
            items == texts(resp.items@),
            out@ == text_lines(items.take(i as int)),
        decreases resp.items@.len() - i,
    {
        out.append(resp.items[i].as_str());
        out.append("\n");
        assert(items.take(i + 1).drop_last() =~= items.take(i as int));
        i += 1;
    }
    assert(items.take(resp.items@.len() as int) =~= items);
    match resp.total_count {
        Some(total) => out.concat("\nTotal: ").concat(format_u64(total as u64).as_str()).concat("\n"),
        None => out,
    }
}

/// An answer that may be missing.
pub open spec fn yes_or_no(answer: Option<bool>) -> Seq<char> {
    match answer {
        Some(true) => "yes"@,
        Some(false) => "no"@,
        None => "-"@,
    }
}

/// What the user reads of an IP address.
pub fn print_ip_details(ip: &IpDetails) -> (r: String)
    ensures
        r@ == "IP:        "@ + ip.ip@ + "\nRDNS:      "@ + or_dash(opt_text(ip.rdns))
            + "\nDedicated: "@ + yes_or_no(ip.dedicated) + "\n"@,
{
    let dedicated = match ip.dedicated {
        Some(true) => "yes",
        Some(false) => "no",
        None => "-",
    };
    "IP:        ".to_string().concat(ip.ip.as_str()).concat("\nRDNS:      ").concat(
        text_or_dash(&ip.rdns),
    ).concat("\nDedicated: ").concat(dedicated).concat("\n")
}

/// The name of a domain in a list.
pub open spec fn domain_name(domain: Domain) -> Seq<char> {
    if domain.is_disabled {
        domain.name@ + " (disabled)"@
    } else {
        domain.name@
    }
}

/// The columns of the list of domains.
pub open spec fn domain_columns(
    name: Seq<char>,
    state: Seq<char>,
    kind: Seq<char>,
    created: Seq<char>,
) -> Seq<char> {
    pad_right(name, 32) + " "@ + pad_right(state, 10) + " "@ + pad_right(kind, 10) + " "@ + created
        + "\n"@
}

fn domain_row(name: &str, state: &str, kind: &str, created: &str) -> (r: String)
    ensures
        r@ == domain_columns(name@, state@, kind@, created@),
{
    left(name, 32).concat(" ").concat(left(state, 10).as_str()).concat(" ").concat(
        left(kind, 10).as_str(),
    ).concat(" ").concat(created).concat("\n")
}

/// The lines of a list of domains.
pub open spec fn domain_lines(domains: Seq<Domain>) -> Seq<char>
    decreases domains.len(),
{
    if domains.len() == 0 {
        domain_columns("NAME"@, "STATE"@, "TYPE"@, "CREATED"@) + rule(80)
    } else {
        let domain = domains.last();
        domain_lines(domains.drop_last()) + domain_columns(
            domain_name(domain),
            or_dash(opt_text(domain.state)),
            or_dash(opt_text(domain.domain_type)),
            or_dash(opt_text(domain.created_at)),
        )
    }
}

/// What the user reads of a list of domains.
pub fn print_domains(resp: &DomainsResponse) -> (r: String)
    ensures
        r@ == if resp.items@.len() == 0 {
            "No domains found.\n"@
        } else {
            domain_lines(resp.items@)
        },
{
    if resp.items.is_empty() {
        return "No domains found.\n".to_string();
    }
    let mut out = domain_row("NAME", "STATE", "TYPE", "CREATED").concat(rule_line(80).as_str());
    let mut i: usize = 0;
    while i < resp.items.len()
        invariant
            i <= resp.items@.len(),
            out@ == domain_lines(resp.items@.take(i as int)),
        decreases resp.items@.len() - i,
    {
        let domain = &resp.items[i];
        let name = if domain.is_disabled {
            domain.name.clone().concat(" (disabled)")
        } else {
            domain.name.clone()
        };
        out.append(
            domain_row(
                name.as_str(),
                text_or_dash(&domain.state),
                text_or_dash(&domain.domain_type),
                text_or_dash(&domain.created_at),
            ).as_str(),
        );
        assert(resp.items@.take(i + 1).drop_last() =~= resp.items@.take(i as int));
        i += 1;
    }
    assert(resp.items@.take(resp.items@.len() as int) =~= resp.items@);
    out
}

/// A line of the table of totals.
pub open spec fn metric_line(label: Seq<char>, value: Seq<char>) -> Seq<char> {
    pad_right(label, 20) + " "@ + pad_left(value, 10) + "\n"@
}

fn metric_row(label: &str, value: &str) -> (r: String)
    ensures
        r@ == metric_line(label@, value@),
{
    left(label, 20).concat(" ").concat(right(value, 10).as_str()).concat("\n")
}

fn count_row(label: &str, value: u64) -> (r: String)
    ensures
        r@ == metric_line(label@, decimal(value as nat)),
{
    metric_row(label, format_u64(value).as_str())
}

/// The line of one total.
pub open spec fn total_line(label: Seq<char>, entries: Seq<StatEntry>, metric: Metric) -> Seq<char> {
    metric_line(label, decimal(sum(entries, metric)))
}

/// The table of totals.
pub open spec fn totals_table(entries: Seq<StatEntry>) -> Seq<char> {
    metric_line("Metric"@, "Count"@) + rule(32) + total_line(
        "Accepted"@,
        entries,
        Metric::Accepted,
    ) + total_line("Delivered"@, entries, Metric::Delivered) + total_line(
        "Failed (total)"@,
        entries,
        Metric::Failed,
    ) + total_line("  Permanent"@, entries, Metric::FailedPermanent) + total_line(
        "  Temporary"@,
        entries,
        Metric::FailedTemporary,
    ) + total_line("Opened"@, entries, Metric::Opened) + total_line(
        "Clicked"@,
        entries,
        Metric::Clicked,
    ) + total_line("Unsubscribed"@, entries, Metric::Unsubscribed) + total_line(
        "Complained"@,
        entries,
        Metric::Complained,
    )
}

/// The rates of opened and clicked messages, which exist where a message was delivered.
pub open spec fn rates_text(
    entries: Seq<StatEntry>,
    open_rate: Seq<char>,
    click_rate: Seq<char>,
) -> Seq<char> {
    if sum(entries, Metric::Delivered) > 0 {
        "\nOpen rate:  "@ + open_rate + "%\nClick rate: "@ + click_rate + "%\n"@
    } else {
        seq![]
    }
}

fn format_totals(totals: &StatsTotals, Ghost(entries): Ghost<Seq<StatEntry>>) -> (r: String)
    requires
        totals.are_sums(entries),
    ensures
        r@ == totals_table(entries),
{
    assert(sum(entries, Metric::Accepted) == totals.total(Metric::Accepted));
    assert(sum(entries, Metric::Delivered) == totals.total(Metric::Delivered));
    assert(sum(entries, Metric::Failed) == totals.total(Metric::Failed));
    assert(sum(entries, Metric::FailedPermanent) == totals.total(Metric::FailedPermanent));
    assert(sum(entries, Metric::FailedTemporary) == totals.total(Metric::FailedTemporary));
    assert(sum(entries, Metric::Opened) == totals.total(Metric::Opened));
    assert(sum(entries, Metric::Clicked) == totals.total(Metric::Clicked));
    assert(sum(entries, Metric::Unsubscribed) == totals.total(Metric::Unsubscribed));
    assert(sum(entries, Metric::Complained) == totals.total(Metric::Complained));
    metric_row("Metric", "Count").concat(rule_line(32).as_str()).concat(
        count_row("Accepted", totals.accepted).as_str(),
    ).concat(count_row("Delivered", totals.delivered).as_str()).concat(
        count_row("Failed (total)", totals.failed).as_str(),
    ).concat(count_row("  Permanent", totals.failed_permanent).as_str()).concat(
        count_row("  Temporary", totals.failed_temporary).as_str(),
    ).concat(count_row("Opened", totals.opened).as_str()).concat(
        count_row("Clicked", totals.clicked).as_str(),
    ).concat(count_row("Unsubscribed", totals.unsubscribed).as_str()).concat(
        count_row("Complained", totals.complained).as_str(),
    )
}

/// What the user reads of statistics. `open_rate` and `click_rate` are the percentages of opened
/// and clicked messages among the delivered ones; they are shown where a message was delivered.
pub fn print_stats(resp: &StatsResponse, open_rate: &str, click_rate: &str) -> (r: String)
    requires
        sums_fit(resp.stats@),
    ensures
        r@ == "Statistics from "@ + resp.start@ + " to "@ + resp.end@ + "\nResolution: "@
            + resp.resolution@ + "\n\n"@ + totals_table(resp.stats@) + rates_text(
            resp.stats@,
            open_rate@,
            click_rate@,
        ),
{
    let totals = StatsTotals::from_entries(resp.stats.as_slice());
    assert(sum(resp.stats@, Metric::Delivered) == totals.total(Metric::Delivered));
    let rates = if totals.delivered > 0 {
        "\nOpen rate:  ".to_string().concat(open_rate).concat("%\nClick rate: ").concat(
            click_rate,
        ).concat("%\n")
    } else {
        String::new()
    };
    "Statistics from ".to_string().concat(resp.start.as_str()).concat(" to ").concat(
        resp.end.as_str(),
    ).concat("\nResolution: ").concat(resp.resolution.as_str()).concat("\n\n").concat(
        format_totals(&totals, Ghost(resp.stats@)).as_str(),
    ).concat(rates.as_str())
}

/// A text that is there is shown as it is, and one that is missing as a dash.
pub proof fn missing_texts_are_dashes(s: Seq<char>)
    ensures
        or_dash(Some(s)) == s,
        or_dash(None) == "-"@,
{
}

/// A rule is a line of as many dashes as it is wide.
pub proof fn a_rule_is_a_line_of_dashes(width: nat)
    ensures
        rule(width).len() == width + 1,
        forall|i: int| 0 <= i < width ==> #[trigger] rule(width)[i] == '-',
        rule(width).last() == '\n',
{
    reveal_strlit("\n");
}

/// A delivery shows its code in brackets and its message, or the first 50 characters of it with
/// an ellipsis, each where it is there; what is shown of one does not depend on the other.
pub proof fn a_delivery_shows_code_and_message(
    code: i32,
    message: String,
    description: Option<String>,
)
    ensures
        delivery_text(DeliveryStatus { code: None, message: None, description }).len() == 0,
        delivery_text(DeliveryStatus { code: Some(code), message: None, description }) == " ["@
            + signed_decimal(code as int) + "]"@,
        message@.len() <= 50 ==> delivery_text(
            DeliveryStatus { code: None, message: Some(message), description },
        ) == " "@ + message@,
        message@.len() > 50 ==> delivery_text(
            DeliveryStatus { code: None, message: Some(message), description },
        ) == " "@ + message@.take(50) + "..."@,
        delivery_text(DeliveryStatus { code: Some(code), message: Some(message), description })
            == delivery_text(DeliveryStatus { code: Some(code), message: None, description })
            + delivery_text(DeliveryStatus { code: None, message: Some(message), description }),
{
    reveal_strlit("] ");
    reveal_strlit("]");
    reveal_strlit(" ");
    let both = DeliveryStatus { code: Some(code), message: Some(message), description };
    let first = DeliveryStatus { code: Some(code), message: None, description };
    let second = DeliveryStatus { code: None, message: Some(message), description };
    assert("] "@ =~= "]"@ + " "@);
    assert(delivery_text(both) =~= delivery_text(first) + delivery_text(second));
    if message@.len() > 50 {
        assert(delivery_text(second) =~= " "@ + message@.take(50) + "..."@);
    }
}

/// The line of an event starts with its time, its kind in ten columns and its recipient.
pub proof fn an_event_line_starts_with_time_kind_and_recipient(time: Seq<char>, event: Event)
    ensures
        event.recipient is Some ==> (time + " "@ + pad_right(event.event@, 10) + " "@
            + event.recipient->0@).is_prefix_of(event_line(time, event)),
        event.recipient is None ==> (time + " "@ + pad_right(event.event@, 10) + " "@
            + "-"@).is_prefix_of(event_line(time, event)),
{
    let head = time + " "@ + pad_right(event.event@, 10) + " "@ + or_dash(opt_text(event.recipient));
    let line = event_line(time, event);
    assert(head =~= line.subrange(0, head.len() as int));
}

/// Where the message of an event has a subject other than a dash, the line of the event ends in
/// that subject in quotes: all of it, or its first 40 characters and an ellipsis where it is
/// longer.
pub proof fn an_event_line_ends_in_the_subject(
    time: Seq<char>,
    event: Event,
    headers: MessageHeaders,
    subject: String,
)
    requires
        event.message is Some,
        event.message->0.headers == Some(headers),
        headers.subject == Some(subject),
        subject@ != "-"@,
    ensures
        subject@.len() <= 40 ==> (" \""@ + subject@ + "\""@ + "\n"@).is_suffix_of(
            event_line(time, event),
        ),
        subject@.len() > 40 ==> (" \""@ + subject@.take(40) + "..."@ + "\""@
            + "\n"@).is_suffix_of(event_line(time, event)),
{
    let line = event_line(time, event);
    assert(event_subject(event) == Some(subject@));
    let end = " \""@ + clipped(subject@, 40) + "\""@ + "\n"@;
    assert(end =~= line.subrange(line.len() - end.len(), line.len() as int));
    if subject@.len() > 40 {
        assert(end =~= " \""@ + subject@.take(40) + "..."@ + "\""@ + "\n"@);
    }
}

/// The line of an event is its time, kind and recipient, then how it went, then its subject: of a
/// delivery what is shown of it, or else the reason in round brackets, or else nothing; and no
/// subject where there is none or where it is a dash.
pub proof fn an_event_line_has_nothing_else(time: Seq<char>, event: Event)
    ensures
        ({
            let recipient = match event.recipient {
                Some(address) => address@,
                None => "-"@,
            };
            let subject = if event.message is Some && event.message->0.headers is Some {
                event.message->0.headers->0.subject
            } else {
                None
            };
            let head = time + " "@ + pad_right(event.event@, 10) + " "@ + recipient;
            let tail = if subject is Some && subject->0@ != "-"@ {
                " \""@ + clipped(subject->0@, 40) + "\""@
            } else {
                seq![]
            };
            &&& event.delivery_status is Some ==> event_line(time, event) == head + delivery_text(
                event.delivery_status->0,
            ) + tail + "\n"@
            &&& event.delivery_status is None && event.reason is Some ==> event_line(time, event)
                == head + (" ("@ + event.reason->0@ + ")"@) + tail + "\n"@
            &&& event.delivery_status is None && event.reason is None ==> event_line(time, event)
                == head + tail + "\n"@
        }),
{
    let head = time + " "@ + pad_right(event.event@, 10) + " "@ + or_dash(opt_text(event.recipient));
    assert(head + seq![] =~= head);
}

/// Each event has a line of its own, with its own time: the lines of two lists one after another
/// are those of the first and then those of the second.
pub proof fn events_have_lines_of_their_own(a: Seq<Event>, b: Seq<Event>, event: Event)
    ensures
        event_lines(a + b) == event_lines(a) + event_lines(b),
        event_lines(seq![event]) == event_line(timestamp_text(event.timestamp), event),
        event_lines(seq![]).len() == 0,
    decreases b.len(),
{
    let one = seq![event];
    assert(one.drop_last() =~= seq![]);
    assert(event_lines(one.drop_last()) =~= seq![]);
    assert(event_lines(one) =~= event_line(timestamp_text(event.timestamp), event));
    if b.len() == 0 {
        assert(a + b =~= a);
        assert(event_lines(a) + event_lines(b) =~= event_lines(a));
    } else {
        events_have_lines_of_their_own(a, b.drop_last(), event);
        let last = event_line(timestamp_text(b.last().timestamp), b.last());
        assert((a + b).drop_last() =~= a + b.drop_last());
        assert((a + b).last() == b.last());
        assert(event_lines(a) + event_lines(b.drop_last()) + last =~= event_lines(a) + (event_lines(
            b.drop_last(),
        ) + last));
    }
}

/// The list of bounces has a title, a rule, and for each bounce one more row, with its own
/// address, code, error and date in their columns. An error is cut after 30 characters.
pub proof fn each_bounce_adds_its_row(bounces: Seq<Bounce>, bounce: Bounce)
    ensures
        bounce_lines(seq![]) == pad_right("ADDRESS"@, 40) + " "@ + pad_left("CODE"@, 6) + " "@
            + pad_right("ERROR"@, 30) + " "@ + "CREATED"@ + "\n"@ + rule(100),
        bounce_lines(bounces.push(bounce)) == bounce_lines(bounces) + (pad_right(
            bounce.address@,
            40,
        ) + " "@ + pad_left(bounce.code@, 6) + " "@ + pad_right(clipped(bounce.error@, 30), 30)
            + " "@ + bounce.created_at@ + "\n"@),
{
    assert(bounces.push(bounce).drop_last() =~= bounces);
}

/// The list of complaints has a title, a rule, and for each complaint one more row, with its own
/// address and date.
pub proof fn each_complaint_adds_its_row(complaints: Seq<Complaint>, complaint: Complaint)
    ensures
        complaint_lines(seq![]) == pad_right("ADDRESS"@, 50) + " "@ + "CREATED"@ + "\n"@ + rule(80),
        complaint_lines(complaints.push(complaint)) == complaint_lines(complaints) + (pad_right(
            complaint.address@,
            50,
        ) + " "@ + complaint.created_at@ + "\n"@),
{
    assert(complaints.push(complaint).drop_last() =~= complaints);
}

/// The list of unsubscribed addresses has a title, a rule, and for each address one more row,
/// with its own tags and date: all tags with commas between them, cut after 20 characters, or a
/// dash where there is none.
pub proof fn each_unsubscribe_adds_its_row(unsubscribes: Seq<Unsubscribe>, unsubscribe: Unsubscribe)
    ensures
        unsubscribe_lines(seq![]) == pad_right("ADDRESS"@, 40) + " "@ + pad_right("TAGS"@, 20)
            + " "@ + "CREATED"@ + "\n"@ + rule(90),
        unsubscribe.tags@.len() > 0 ==> unsubscribe_lines(unsubscribes.push(unsubscribe))
            == unsubscribe_lines(unsubscribes) + (pad_right(unsubscribe.address@, 40) + " "@
            + pad_right(clipped(joined(texts(unsubscribe.tags@), ", "@), 20), 20) + " "@
            + unsubscribe.created_at@ + "\n"@),
        unsubscribe.tags@.len() == 0 ==> unsubscribe_lines(unsubscribes.push(unsubscribe))
            == unsubscribe_lines(unsubscribes) + (pad_right(unsubscribe.address@, 40) + " "@
            + pad_right("-"@, 20) + " "@ + unsubscribe.created_at@ + "\n"@),
{
    reveal_strlit("-");
    assert(unsubscribes.push(unsubscribe).drop_last() =~= unsubscribes);
}

/// Each IP address has a line of its own; behind them stands the total, where it is known.
pub proof fn each_address_has_its_line(
    items: Seq<Seq<char>>,
    item: Seq<char>,
    total: u32,
)
    ensures
        text_lines(seq![]).len() == 0,
        text_lines(items.push(item)) == text_lines(items) + item + "\n"@,
        ips_text(items.push(item), None) == text_lines(items.push(item)),
        ips_text(items.push(item), Some(total)) == text_lines(items.push(item)) + "\nTotal: "@
            + decimal(total as nat) + "\n"@,
        ips_text(seq![], None) == "No IP addresses found.\n"@,
        ips_text(seq![], Some(total)) == "No IP addresses found.\n"@,
{
    assert(items.push(item).drop_last() =~= items);
}

/// An answer is shown as yes, no or a dash.
pub proof fn answers_are_yes_no_or_a_dash()
    ensures
        yes_or_no(Some(true)) == "yes"@,
        yes_or_no(Some(false)) == "no"@,
        yes_or_no(None) == "-"@,
{
}

/// The list of domains has a title, a rule, and for each domain one more row, with its own name,
/// state, type and date, where dashes stand for what is missing. Exactly the disabled ones are
/// marked.
pub proof fn each_domain_adds_its_row(domains: Seq<Domain>, domain: Domain)
    ensures
        domain_lines(seq![]) == pad_right("NAME"@, 32) + " "@ + pad_right("STATE"@, 10) + " "@
            + pad_right("TYPE"@, 10) + " "@ + "CREATED"@ + "\n"@ + rule(80),
        ({
            let name = if domain.is_disabled {
                domain.name@ + " (disabled)"@
            } else {
                domain.name@
            };
            let state = match domain.state {
                Some(state) => state@,
                None => "-"@,
            };
            let kind = match domain.domain_type {
                Some(kind) => kind@,
                None => "-"@,
            };
            let created = match domain.created_at {
                Some(created) => created@,
                None => "-"@,
            };
            domain_lines(domains.push(domain)) == domain_lines(domains) + (pad_right(name, 32)
                + " "@ + pad_right(state, 10) + " "@ + pad_right(kind, 10) + " "@ + created + "\n"@)
        }),
{
    assert(domains.push(domain).drop_last() =~= domains);
}

/// A row of the table of totals: a label in 20 columns and a number in ten.
pub open spec fn labelled_count(label: Seq<char>, count: nat) -> Seq<char> {
    pad_right(label, 20) + " "@ + pad_left(decimal(count), 10) + "\n"@
}

/// Each row of the table of totals holds, beside its label, the counts of that name added up over
/// all intervals, and no other.
pub proof fn each_label_has_its_own_count(entries: Seq<StatEntry>)
    ensures
        totals_table(entries) == pad_right("Metric"@, 20) + " "@ + pad_left("Count"@, 10) + "\n"@
            + rule(32)
            + labelled_count(
            "Accepted"@,
            added_up(
                entries,
                |entry: StatEntry|
                    if entry.accepted is Some && entry.accepted->0.total is Some {
                        entry.accepted->0.total->0 as nat
                    } else {
                        0
                    },
            ),
        )
            + labelled_count(
            "Delivered"@,
            added_up(
                entries,
                |entry: StatEntry|
                    if entry.delivered is Some && entry.delivered->0.total is Some {
                        entry.delivered->0.total->0 as nat
                    } else {
                        0
                    },
            ),
        )
            + labelled_count(
            "Failed (total)"@,
            added_up(
                entries,
                |entry: StatEntry|
                    if entry.failed is Some && entry.failed->0.total is Some {
                        entry.failed->0.total->0 as nat
                    } else {
                        0
                    },
            ),
        )
            + labelled_count(
            "  Permanent"@,
            added_up(
                entries,
                |entry: StatEntry|
                    if entry.failed is Some && entry.failed->0.permanent is Some {
                        entry.failed->0.permanent->0 as nat
                    } else {
                        0
                    },
            ),
        )
            + labelled_count(
            "  Temporary"@,
            added_up(
                entries,
                |entry: StatEntry|
                    if entry.failed is Some && entry.failed->0.temporary is Some {
                        entry.failed->0.temporary->0 as nat
                    } else {
                        0
                    },
            ),
        )
            + labelled_count(
            "Opened"@,
            added_up(
                entries,
                |entry: StatEntry|
                    if entry.opened is Some && entry.opened->0.total is Some {
                        entry.opened->0.total->0 as nat
                    } else {
                        0
                    },
            ),
        )
            + labelled_count(
            "Clicked"@,
            added_up(
                entries,
                |entry: StatEntry|
                    if entry.clicked is Some && entry.clicked->0.total is Some {
                        entry.clicked->0.total->0 as nat
                    } else {
                        0
                    },
            ),
        )
            + labelled_count(
            "Unsubscribed"@,
            added_up(
                entries,
                |entry: StatEntry|
                    if entry.unsubscribed is Some && entry.unsubscribed->0.total is Some {
                        entry.unsubscribed->0.total->0 as nat
                    } else {
                        0
                    },
            ),
        )
            + labelled_count(
            "Complained"@,
            added_up(
                entries,
                |entry: StatEntry|
                    if entry.complained is Some && entry.complained->0.total is Some {
                        entry.complained->0.total->0 as nat
                    } else {
                        0
                    },
            ),
        ),
{
    metrics_add_up_their_own_counts(entries);
}

/// A table of totals only tells the sums: where the counts of one name are the only ones that
/// differ, all rows in front of that name's row and all behind it are the same in both tables.
pub proof fn counts_change_only_their_own_row(a: Seq<StatEntry>, b: Seq<StatEntry>)
    requires
        forall|metric: Metric|
            metric != Metric::Unsubscribed ==> #[trigger] sum(a, metric) == sum(b, metric),
    ensures
        ({
            let head = totals_table(b).len() - labelled_count(
                "Unsubscribed"@,
                sum(b, Metric::Unsubscribed),
            ).len() - labelled_count("Complained"@, sum(b, Metric::Complained)).len();
            &&& totals_table(a).take(head) == totals_table(b).take(head)
            &&& totals_table(a) == totals_table(b).take(head) + labelled_count(
                "Unsubscribed"@,
                sum(a, Metric::Unsubscribed),
            ) + labelled_count("Complained"@, sum(b, Metric::Complained))
        }),
{
    let last = labelled_count("Complained"@, sum(b, Metric::Complained));
    let one = labelled_count("Unsubscribed"@, sum(a, Metric::Unsubscribed));
    let other = labelled_count("Unsubscribed"@, sum(b, Metric::Unsubscribed));
    assert(sum(a, Metric::Accepted) == sum(b, Metric::Accepted));
    assert(sum(a, Metric::Delivered) == sum(b, Metric::Delivered));
    assert(sum(a, Metric::Failed) == sum(b, Metric::Failed));
    assert(sum(a, Metric::FailedPermanent) == sum(b, Metric::FailedPermanent));
    assert(sum(a, Metric::FailedTemporary) == sum(b, Metric::FailedTemporary));
    assert(sum(a, Metric::Opened) == sum(b, Metric::Opened));
    assert(sum(a, Metric::Clicked) == sum(b, Metric::Clicked));
    assert(sum(a, Metric::Complained) == sum(b, Metric::Complained));
    let head = totals_table(b).take(totals_table(b).len() - other.len() - last.len());
    assert(totals_table(b) =~= head + other + last);
    assert(totals_table(a) =~= head + one + last);
    assert(totals_table(a).take(head.len() as int) =~= head);
}

/// The rates are shown exactly where a message was delivered, each behind its own label.
pub proof fn rates_stand_behind_their_labels(
    entries: Seq<StatEntry>,
    open_rate: Seq<char>,
    click_rate: Seq<char>,
)
    ensures
        ({
            let delivered = added_up(
                entries,
                |entry: StatEntry|
                    if entry.delivered is Some && entry.delivered->0.total is Some {
                        entry.delivered->0.total->0 as nat
                    } else {
                        0
                    },
            );
            &&& delivered > 0 ==> rates_text(entries, open_rate, click_rate) == "\nOpen rate:  "@
                + open_rate + "%\nClick rate: "@ + click_rate + "%\n"@
            &&& delivered == 0 ==> rates_text(entries, open_rate, click_rate).len() == 0
        }),
{
    metrics_add_up_their_own_counts(entries);
}

} // verus!
