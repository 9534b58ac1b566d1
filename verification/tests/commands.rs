use mailgun::api::{Complaint, ComplaintsResponse};
use mailgun::client::{Client, Method};
use mailgun::commands::{
    run_bounces, run_command, run_complaints, run_domains, run_events, run_ips, run_message,
    run_stats, run_suppression_command, run_unsubscribes, BouncesCommands, Call, Commands,
    ComplaintsCommands, Job, Step, UnsubscribesCommands,
};
use mailgun::config_commands::ConfigCommands;

const BASE: &str = "http://127.0.0.1:8080/v3";

fn url(job: &Job) -> String {
    let client = Client::with_base_url("key-prod", "example.com", BASE.to_string());
    let request = job.call.request(&client).unwrap();
    assert_eq!(request.user, "api");
    assert_eq!(request.password, "key-prod");
    let method = match request.method {
        Method::Get => "GET",
        Method::Delete => "DELETE",
    };
    format!("{} {}", method, request.url.replace("http://127.0.0.1:8080", ""))
}

#[test]
fn event_and_message_commands_ask_the_expected_endpoints() {
    let job = run_events(
        Some("failed".to_string()),
        Some("reader@example.com".to_string()),
        2,
        false,
    );
    assert!(!job.json);
    assert_eq!(
        url(&job),
        "GET /v3/example.com/events?limit=2&event=failed&recipient=reader@example.com"
    );
    let job = run_message(format!("{}/message", BASE), true, true);
    assert!(job.json);
    assert!(job.headers);
    assert_eq!(url(&job), "GET /v3/message");
    assert_eq!(job.call.done(), None);
}

#[test]
fn suppression_commands_ask_the_expected_endpoints() {
    assert_eq!(url(&run_bounces(1, false, None)), "GET /v3/example.com/bounces?limit=1");
    let job =
        run_bounces(1, true, Some(BouncesCommands::Delete { email: "bad@example.com".to_string() }));
    assert_eq!(url(&job), "DELETE /v3/example.com/bounces/bad@example.com");
    assert_eq!(job.call.done().unwrap(), "Removed bad@example.com from bounce list\n");

    assert_eq!(url(&run_complaints(1, false, None)), "GET /v3/example.com/complaints?limit=1");
    let job = run_complaints(
        1,
        true,
        Some(ComplaintsCommands::Delete { email: "spam@example.com".to_string() }),
    );
    assert_eq!(url(&job), "DELETE /v3/example.com/complaints/spam@example.com");
    assert_eq!(job.call.done().unwrap(), "Removed spam@example.com from complaints list\n");

    assert_eq!(url(&run_unsubscribes(1, false, None)), "GET /v3/example.com/unsubscribes?limit=1");
    let job = run_unsubscribes(
        1,
        true,
        Some(UnsubscribesCommands::Delete { email: "gone@example.com".to_string() }),
    );
    assert_eq!(url(&job), "DELETE /v3/example.com/unsubscribes/gone@example.com");
    assert_eq!(job.call.done().unwrap(), "Removed gone@example.com from unsubscribes list\n");
    assert_eq!(Call::Bounces { limit: 1 }.done(), None);
}

#[test]
fn ip_domain_and_stats_commands_ask_the_expected_endpoints() {
    assert_eq!(
        url(&run_ips(None, false, false, None, false)),
        "GET /v3/domains/example.com/ips"
    );
    assert_eq!(url(&run_ips(None, true, false, None, true)), "GET /v3/ips");
    assert_eq!(url(&run_ips(None, false, true, None, false)), "GET /v3/ips?dedicated=true");
    assert_eq!(
        run_ips(None, false, true, Some("other.com".to_string()), false),
        run_ips(None, true, true, None, false)
    );
    assert_eq!(
        url(&run_ips(None, false, false, Some("other.com".to_string()), false)),
        "GET /v3/domains/other.com/ips"
    );
    assert_eq!(
        url(&run_ips(Some("1.2.3.4".to_string()), true, true, None, false)),
        "GET /v3/ips/1.2.3.4"
    );
    assert_eq!(url(&run_domains(5, true)), "GET /v4/domains?limit=5");
    assert_eq!(
        url(&run_stats("7d".to_string(), false)),
        "GET /v3/example.com/stats/total?event=accepted,delivered,failed,opened,clicked,unsubscribed,complained&duration=7d"
    );
}

#[test]
fn too_many_events_are_refused_before_a_request_is_made() {
    let client = Client::with_base_url("k", "d", BASE.to_string());
    let job = run_events(None, None, 301, false);
    assert_eq!(
        job.call.request(&client).unwrap_err().message(),
        "Limit exceeds maximum allowed by Mailgun API (300)"
    );
    assert!(run_events(None, None, 300, false).call.request(&client).is_ok());
}

#[test]
fn commands_lead_to_calls_and_configuration_commands() {
    assert_eq!(
        run_command(Commands::Events { event: None, recipient: None, limit: 2, json: false }),
        Step::Api(run_events(None, None, 2, false))
    );
    assert_eq!(
        run_command(Commands::Message {
            storage_url: "u".to_string(),
            json: false,
            headers: true
        }),
        Step::Api(run_message("u".to_string(), false, true))
    );
    assert_eq!(
        run_command(Commands::Bounces { limit: 1, json: true, command: None }),
        Step::Api(run_bounces(1, true, None))
    );
    assert_eq!(
        run_suppression_command(Commands::Complaints { limit: 1, json: false, command: None }),
        run_complaints(1, false, None)
    );
    assert_eq!(
        run_command(Commands::Unsubscribes {
            limit: 1,
            json: false,
            command: Some(UnsubscribesCommands::Delete { email: "e".to_string() }),
        }),
        Step::Api(run_unsubscribes(
            1,
            false,
            Some(UnsubscribesCommands::Delete { email: "e".to_string() })
        ))
    );
    assert_eq!(
        run_command(Commands::Stats { duration: "7d".to_string(), json: false }),
        Step::Api(run_stats("7d".to_string(), false))
    );
    assert_eq!(
        run_command(Commands::Ips {
            ip: Some("1.2.3.4".to_string()),
            all: false,
            dedicated: false,
            domain: None,
            json: false,
        }),
        Step::Api(run_ips(Some("1.2.3.4".to_string()), false, false, None, false))
    );
    assert_eq!(
        run_command(Commands::Domains { limit: 5, json: false }),
        Step::Api(run_domains(5, false))
    );
    assert_eq!(
        run_command(Commands::Config { action: Some(ConfigCommands::Path) }),
        Step::Config(Some(ConfigCommands::Path))
    );
}

#[test]
fn lists_of_addresses_show_as_many_results_as_asked_for() {
    let list = || ComplaintsResponse {
        items: ["a", "b", "c"]
            .iter()
            .map(|address| Complaint {
                address: address.to_string(),
                created_at: "2026-01-01".to_string(),
            })
            .collect(),
        paging: None,
    };
    let shown = run_complaints(2, false, None).shown(list());
    assert_eq!(shown.items.len(), 2);
    assert_eq!(shown.items[1].address, "b");
    assert_eq!(run_complaints(20, false, None).shown(list()), list());
    assert_eq!(run_bounces(7, true, None).results, Some(7));
    assert_eq!(run_unsubscribes(7, true, None).results, Some(7));
    let delete = Some(BouncesCommands::Delete { email: "e".to_string() });
    assert_eq!(run_bounces(7, true, delete).results, None);
    assert_eq!(run_events(None, None, 7, false).results, None);
    assert_eq!(run_domains(7, false).results, None);
}
