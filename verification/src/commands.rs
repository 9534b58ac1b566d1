//! The commands of the program, and the requests that they make.

use vstd::prelude::*;

use crate::client::{
    ApiError, ApiErrorView, Client, ClientView, Method, Request, RequestView, EVENTS_MAX_LIMIT,
};
use crate::config_commands::ConfigCommands;
use crate::paging::{collected, limited, Page, Paginated};
use crate::text::{decimal, joined, opt_slice_text, opt_text, replaced, slice_texts};

verus! {

/// A command of the program.
#[derive(Debug, PartialEq)]
pub enum Commands {
    /// Lists recent events.
    Events { event: Option<String>, recipient: Option<String>, limit: u32, json: bool },
    /// Fetches a stored message by its storage URL.
    Message { storage_url: String, json: bool, headers: bool },
    /// Lists bounced addresses, or takes one off the list.
    Bounces { limit: u32, json: bool, command: Option<BouncesCommands> },
    /// Lists addresses that reported spam, or takes one off the list.
    Complaints { limit: u32, json: bool, command: Option<ComplaintsCommands> },
    /// Lists unsubscribed addresses, or takes one off the list.
    Unsubscribes { limit: u32, json: bool, command: Option<UnsubscribesCommands> },
    /// Shows sending statistics.
    Stats { duration: String, json: bool },
    /// Lists sending IP addresses, or shows one of them.
    Ips { ip: Option<String>, all: bool, dedicated: bool, domain: Option<String>, json: bool },
    /// Lists the domains of the account.
    Domains { limit: u32, json: bool },
    /// Shows or changes the configuration.
    Config { action: Option<ConfigCommands> },
}

/// What can be done to the list of bounces.
#[derive(Debug, PartialEq)]
pub enum BouncesCommands {
    /// Takes an address off the list.
    Delete { email: String },
}

/// What can be done to the list of complaints.
#[derive(Debug, PartialEq)]
pub enum ComplaintsCommands {
    /// Takes an address off the list.
    Delete { email: String },
}

/// What can be done to the list of unsubscribed addresses.
#[derive(Debug, PartialEq)]
pub enum UnsubscribesCommands {
    /// Takes an address off the list.
    Delete { email: String },
}

/// What is asked of the API.
#[derive(Debug, PartialEq)]
pub enum Call {
    Events { event: Option<String>, recipient: Option<String>, limit: u32 },
    Message { storage_url: String },
    Bounces { limit: u32 },
    DeleteBounce { email: String },
    Complaints { limit: u32 },
    DeleteComplaint { email: String },
    Unsubscribes { limit: u32 },
    DeleteUnsubscribe { email: String },
    Stats { duration: String },
    Ip { ip: String },
    AccountIps { dedicated: bool },
    DomainIps { domain: Option<String> },
    Domains { limit: u32 },
}

/// A call, and how its answer is shown.
#[derive(Debug, PartialEq)]
pub struct Job {
    pub call: Call,
    /// Whether the answer is shown as JSON.
    pub json: bool,
    /// Whether only the headers of a message are shown.
    pub headers: bool,
    /// How many results of a list that comes in pages are shown at most.
    pub results: Option<u32>,
}

/// What a command leads to.
#[derive(Debug, PartialEq)]
pub enum Step {
    /// A call of the API.
    Api(Job),
    /// A command on the configuration.
    Config(Option<ConfigCommands>),
}

/// The kinds of events that statistics count.
pub open spec fn stats_events() -> Seq<Seq<char>> {
    seq![
        "accepted"@,
        "delivered"@,
        "failed"@,
        "opened"@,
        "clicked"@,
        "unsubscribed"@,
        "complained"@,
    ]
}

impl Call {
    /// The request that a call sends first.
    pub open spec fn request_from(self, client: ClientView) -> Result<RequestView, ApiErrorView> {
        match self {
            Call::Events { event, recipient, limit } => if limit <= EVENTS_MAX_LIMIT {
                Ok(client.get(client.events(opt_text(event), opt_text(recipient), limit)))
            } else {
                Err(ApiErrorView::LimitExceeded)
            },
            Call::Message { storage_url } => Ok(client.request(Method::Get, storage_url@)),
            Call::Bounces { limit } => Ok(
                client.get(client.own("/bounces?limit="@) + decimal(limit as nat)),
            ),
            Call::DeleteBounce { email } => Ok(client.delete(client.own("/bounces/"@) + email@)),
            Call::Complaints { limit } => Ok(
                client.get(client.own("/complaints?limit="@) + decimal(limit as nat)),
            ),
            Call::DeleteComplaint { email } => Ok(
                client.delete(client.own("/complaints/"@) + email@),
            ),
            Call::Unsubscribes { limit } => Ok(
                client.get(client.own("/unsubscribes?limit="@) + decimal(limit as nat)),
            ),
            Call::DeleteUnsubscribe { email } => Ok(
                client.delete(client.own("/unsubscribes/"@) + email@),
            ),
            Call::Stats { duration } => Ok(
                client.get(
                    client.own("/stats/total?event="@) + joined(stats_events(), ","@)
                        + "&duration="@ + duration@,
                ),
            ),
            Call::Ip { ip } => Ok(client.get("/ips/"@ + ip@)),
            Call::AccountIps { dedicated } => Ok(
                client.get(
                    if dedicated {
                        "/ips?dedicated=true"@
                    } else {
                        "/ips"@
                    },
                ),
            ),
            Call::DomainIps { domain } => Ok(
                client.get(
                    "/domains/"@ + match opt_text(domain) {
                        Some(domain) => domain,
                        None => client.domain,
                    } + "/ips"@,
                ),
            ),
            Call::Domains { limit } => Ok(
                client.get_v4("/domains?limit="@ + decimal(limit as nat)),
            ),
        }
    }

    /// The request that this call sends first.
    pub fn request(&self, client: &Client) -> (r: Result<Request, ApiError>)
        ensures
            match self.request_from(client@) {
                Ok(request) => r is Ok && r->Ok_0@ == request,
                Err(error) => r is Err && r->Err_0@ == error,
            },
    {
        match self {
            Call::Events { event, recipient, limit } => client.list_events(
                as_slice(event),
                as_slice(recipient),
                *limit,
            ),
            Call::Message { storage_url } => Ok(client.fetch_stored_message(storage_url.as_str())),
            Call::Bounces { limit } => Ok(client.list_bounces(*limit)),
            Call::DeleteBounce { email } => Ok(client.delete_bounce(email.as_str())),
            Call::Complaints { limit } => Ok(client.list_complaints(*limit)),
            Call::DeleteComplaint { email } => Ok(client.delete_complaint(email.as_str())),
            Call::Unsubscribes { limit } => Ok(client.list_unsubscribes(*limit)),
            Call::DeleteUnsubscribe { email } => Ok(client.delete_unsubscribe(email.as_str())),
            Call::Stats { duration } => {
                let events: Vec<&str> = vec![
                    "accepted",
                    "delivered",
                    "failed",
                    "opened",
                    "clicked",
                    "unsubscribed",
                    "complained",
                ];
                assert(slice_texts(events@) =~= stats_events());
                Ok(client.get_stats(events.as_slice(), duration.as_str()))
            },
            Call::Ip { ip } => Ok(client.get_ip(ip.as_str())),
            Call::AccountIps { dedicated } => Ok(client.list_account_ips(*dedicated)),
            Call::DomainIps { domain } => Ok(client.list_domain_ips(as_slice(domain))),
            Call::Domains { limit } => Ok(client.list_domains(*limit)),
        }
    }

    /// What the user reads after an address was taken off a list.
    pub open spec fn done_text(self) -> Option<Seq<char>> {
        match self {
            Call::DeleteBounce { email } => Some("Removed "@ + email@ + " from bounce list\n"@),
            Call::DeleteComplaint { email } => Some(
                "Removed "@ + email@ + " from complaints list\n"@,
            ),
            Call::DeleteUnsubscribe { email } => Some(
                "Removed "@ + email@ + " from unsubscribes list\n"@,
            ),
            _ => None,
        }
    }

    /// What the user reads after an address was taken off a list; nothing for the calls that
    /// have an answer to show.
    pub fn done(&self) -> (r: Option<String>)
        ensures
            opt_text(r) == self.done_text(),
    {
        match self {
            Call::DeleteBounce { email } => Some(
                "Removed ".to_string().concat(email.as_str()).concat(" from bounce list\n"),
            ),
            Call::DeleteComplaint { email } => Some(
                "Removed ".to_string().concat(email.as_str()).concat(" from complaints list\n"),
            ),
            Call::DeleteUnsubscribe { email } => Some(
                "Removed ".to_string().concat(email.as_str()).concat(" from unsubscribes list\n"),
            ),
            _ => None,
        }
    }
}

fn as_slice(s: &Option<String>) -> (r: Option<&str>)
    ensures
        opt_slice_text(r) == opt_text(*s),
{
    match s {
        Some(s) => Some(s.as_str()),
        None => None,
    }
}

/// A call whose answer is shown as it is.
pub open spec fn plain(call: Call, json: bool) -> Job {
    Job { call, json, headers: false, results: None }
}

/// A call for a list that comes in pages. All its pages are fetched, and no more than `limit` of
/// its results are shown.
pub open spec fn listing(call: Call, limit: u32, json: bool) -> Job {
    Job { call, json, headers: false, results: Some(limit) }
}

impl Job {
    /// What is shown of a list of which all pages were fetched.
    pub fn shown<T: Paginated>(&self, list: T) -> (r: T)
        ensures
            r.page() == list.page().at_most(self.results),
    {
        limited(list, self.results)
    }
}

/// Lists events.
pub fn run_events(
    event: Option<String>,
    recipient: Option<String>,
    limit: u32,
    json: bool,
) -> (r: Job)
    ensures
        r == plain(Call::Events { event, recipient, limit }, json),
{
    Job { call: Call::Events { event, recipient, limit }, json, headers: false, results: None }
}

/// Fetches a stored message.
pub fn run_message(storage_url: String, json: bool, headers: bool) -> (r: Job)
    ensures
        r == (Job { call: Call::Message { storage_url }, json, headers, results: None }),
{
    Job { call: Call::Message { storage_url }, json, headers, results: None }
}

/// Lists no more than `limit` bounces, or takes an address off the list.
pub fn run_bounces(limit: u32, json: bool, command: Option<BouncesCommands>) -> (r: Job)
    ensures
        r == match command {
            Some(BouncesCommands::Delete { email }) => plain(Call::DeleteBounce { email }, json),
            None => listing(Call::Bounces { limit }, limit, json),
        },
{
    match command {
        Some(BouncesCommands::Delete { email }) => {
            Job { call: Call::DeleteBounce { email }, json, headers: false, results: None }
        },
        None => Job { call: Call::Bounces { limit }, json, headers: false, results: Some(limit) },
    }
}

/// Lists no more than `limit` complaints, or takes an address off the list.
pub fn run_complaints(limit: u32, json: bool, command: Option<ComplaintsCommands>) -> (r: Job)
    ensures
        r == match command {
            Some(ComplaintsCommands::Delete { email }) => plain(Call::DeleteComplaint { email }, json),
            None => listing(Call::Complaints { limit }, limit, json),
        },
{
    match command {
        Some(ComplaintsCommands::Delete { email }) => {
            Job { call: Call::DeleteComplaint { email }, json, headers: false, results: None }
        },
        None => Job { call: Call::Complaints { limit }, json, headers: false, results: Some(limit) },
    }
}

/// Lists no more than `limit` unsubscribed addresses, or takes one off the list.
pub fn run_unsubscribes(limit: u32, json: bool, command: Option<UnsubscribesCommands>) -> (r: Job)
    ensures
        r == match command {
            Some(UnsubscribesCommands::Delete { email }) => plain(Call::DeleteUnsubscribe { email }, json),
            None => listing(Call::Unsubscribes { limit }, limit, json),
        },
{
    match command {
        Some(UnsubscribesCommands::Delete { email }) => {
            Job { call: Call::DeleteUnsubscribe { email }, json, headers: false, results: None }
        },
        None => Job { call: Call::Unsubscribes { limit }, json, headers: false, results: Some(limit) },
    }
}

/// Shows sending statistics.
pub fn run_stats(duration: String, json: bool) -> (r: Job)
    ensures
        r == plain(Call::Stats { duration }, json),
{
    Job { call: Call::Stats { duration }, json, headers: false, results: None }
}

/// Which addresses are asked for: a single one, those of the account, or those of a domain. Only
/// the account knows which of its addresses are dedicated.
pub open spec fn ips_call(
    ip: Option<String>,
    all: bool,
    dedicated: bool,
    domain: Option<String>,
) -> Call {
    match ip {
        Some(ip) => Call::Ip { ip },
        None => if all || dedicated {
            Call::AccountIps { dedicated }
        } else {
            Call::DomainIps { domain }
        },
    }
}

/// Lists sending IP addresses, or shows one of them.
pub fn run_ips(
    ip: Option<String>,
    all: bool,
    dedicated: bool,
    domain: Option<String>,
    json: bool,
) -> (r: Job)
    ensures
        r == plain(ips_call(ip, all, dedicated, domain), json),
{
    let call = match ip {
        Some(ip) => Call::Ip { ip },
        None => if all || dedicated {
            Call::AccountIps { dedicated }
        } else {
            Call::DomainIps { domain }
        },
    };
    Job { call, json, headers: false, results: None }
}

/// Lists the domains of the account.
pub fn run_domains(limit: u32, json: bool) -> (r: Job)
    ensures
        r == plain(Call::Domains { limit }, json),
{
    Job { call: Call::Domains { limit }, json, headers: false, results: None }
}

/// What each command leads to.
pub open spec fn step_of(command: Commands) -> Step {
    match command {
        Commands::Events { event, recipient, limit, json } => Step::Api(
            plain(Call::Events { event, recipient, limit }, json),
        ),
        Commands::Message { storage_url, json, headers } => Step::Api(
            Job { call: Call::Message { storage_url }, json, headers, results: None },
        ),
        Commands::Bounces { limit, json, command } => Step::Api(
            match command {
                Some(BouncesCommands::Delete { email }) => plain(
                    Call::DeleteBounce { email },
                    json,
                ),
                None => listing(Call::Bounces { limit }, limit, json),
            },
        ),
        Commands::Complaints { limit, json, command } => Step::Api(
            match command {
                Some(ComplaintsCommands::Delete { email }) => plain(
                    Call::DeleteComplaint { email },
                    json,
                ),
                None => listing(Call::Complaints { limit }, limit, json),
            },
        ),
        Commands::Unsubscribes { limit, json, command } => Step::Api(
            match command {
                Some(UnsubscribesCommands::Delete { email }) => plain(
                    Call::DeleteUnsubscribe { email },
                    json,
                ),
                None => listing(Call::Unsubscribes { limit }, limit, json),
            },
        ),
        Commands::Stats { duration, json } => Step::Api(plain(Call::Stats { duration }, json)),
        Commands::Ips { ip, all, dedicated, domain, json } => Step::Api(
            plain(ips_call(ip, all, dedicated, domain), json),
        ),
        Commands::Domains { limit, json } => Step::Api(plain(Call::Domains { limit }, json)),
        Commands::Config { action } => Step::Config(action),
    }
}

/// Whether a command is about one of the lists of addresses that get no messages.
pub open spec fn is_suppression(command: Commands) -> bool {
    command is Bounces || command is Complaints || command is Unsubscribes
}

/// Runs a command about one of the lists of addresses that get no messages.
pub fn run_suppression_command(command: Commands) -> (r: Job)
    requires
        is_suppression(command),
    ensures
        step_of(command) == Step::Api(r),
{
    match command {
        Commands::Bounces { limit, json, command } => run_bounces(limit, json, command),
        Commands::Complaints { limit, json, command } => run_complaints(limit, json, command),
        Commands::Unsubscribes { limit, json, command } => run_unsubscribes(limit, json, command),
        _ => vstd::pervasive::unreached(),
    }
}

/// Runs a command: says which call or which command on the configuration it stands for.
pub fn run_command(command: Commands) -> (r: Step)
    ensures
        r == step_of(command),
{
    match command {
        Commands::Events { event, recipient, limit, json } => Step::Api(
            run_events(event, recipient, limit, json),
        ),
        Commands::Message { storage_url, json, headers } => Step::Api(
            run_message(storage_url, json, headers),
        ),
        Commands::Bounces { .. } | Commands::Complaints { .. } | Commands::Unsubscribes { .. } => {
            Step::Api(run_suppression_command(command))
        },
        Commands::Stats { duration, json } => Step::Api(run_stats(duration, json)),
        Commands::Ips { ip, all, dedicated, domain, json } => Step::Api(
            run_ips(ip, all, dedicated, domain, json),
        ),
        Commands::Domains { limit, json } => Step::Api(run_domains(limit, json)),
        Commands::Config { action } => Step::Config(action),
    }
}

/// The number of results that a command for one of the lists of addresses asks for.
pub open spec fn results_asked_for(command: Commands) -> Option<u32> {
    match command {
        Commands::Bounces { limit, command: None, .. } => Some(limit),
        Commands::Complaints { limit, command: None, .. } => Some(limit),
        Commands::Unsubscribes { limit, command: None, .. } => Some(limit),
        _ => None,
    }
}

/// Of a list of addresses as many results are shown as the command asks for, or all where there
/// are fewer, and they are the first of all pages.
pub proof fn as_many_results_as_asked_for<T>(command: Commands, first: Page<T>, pages: Seq<Page<T>>)
    requires
        results_asked_for(command) is Some,
    ensures
        step_of(command) is Api,
        ({
            let limit = results_asked_for(command)->0;
            let all = collected(first, pages);
            let shown = all.at_most(step_of(command)->Api_0.results);
            &&& shown.items.len() <= limit
            &&& shown.items.is_prefix_of(all.items)
            &&& all.items.len() <= limit ==> shown == all
            &&& all.items.len() > limit ==> shown.items.len() == limit
        }),
{
}

/// Asking for dedicated addresses asks for those of the account, with or without asking for all.
pub proof fn dedicated_implies_all(domain: Option<String>, all: bool)
    ensures
        ips_call(None, all, true, domain) == (Call::AccountIps { dedicated: true }),
        ips_call(None, all, true, domain) == ips_call(None, true, true, domain),
{
}

/// Only deleting calls change anything: all others are requests to read. Each request carries
/// the key of the client.
pub proof fn requests_are_authenticated(call: Call, client: ClientView)
    ensures
        call.request_from(client) matches Ok(request) ==> {
            &&& request.user == "api"@
            &&& request.password == client.api_key
            &&& (request.method == Method::Delete <==> call.done_text() is Some)
        },
{
}

/// Each call asks for what it is called: the requests for lists start at the list of that name
/// and ask for pages of the size of the limit, those that delete name the address at the end, and
/// all of them start from the address of the client. A request for events is refused exactly
/// where it asks for more than 300.
pub proof fn calls_ask_for_what_they_are_called(
    client: ClientView,
    event: Option<String>,
    recipient: Option<String>,
    text: String,
    domain: Option<String>,
    limit: u32,
)
    ensures
        ({
            let base = client.base_url;
            let own = client.base_url + ("/"@ + client.domain);
            let url = |call: Call| call.request_from(client)->Ok_0.url;
            let events = Call::Events { event, recipient, limit };
            &&& limit > 300 ==> events.request_from(client) == Err::<RequestView, ApiErrorView>(
                ApiErrorView::LimitExceeded,
            )
            &&& limit <= 300 ==> events.request_from(client) == Ok::<RequestView, ApiErrorView>(
                client.get(client.events(opt_text(event), opt_text(recipient), limit)),
            )
            &&& url(Call::Message { storage_url: text }) == text@
            &&& url(Call::Bounces { limit }) == own + "/bounces?limit="@ + decimal(limit as nat)
            &&& url(Call::Complaints { limit }) == own + "/complaints?limit="@ + decimal(
                limit as nat,
            )
            &&& url(Call::Unsubscribes { limit }) == own + "/unsubscribes?limit="@ + decimal(
                limit as nat,
            )
            &&& url(Call::DeleteBounce { email: text }) == own + "/bounces/"@ + text@
            &&& url(Call::DeleteComplaint { email: text }) == own + "/complaints/"@ + text@
            &&& url(Call::DeleteUnsubscribe { email: text }) == own + "/unsubscribes/"@ + text@
            &&& url(Call::Stats { duration: text }) == own + "/stats/total?event="@ + joined(
                seq![
                    "accepted"@,
                    "delivered"@,
                    "failed"@,
                    "opened"@,
                    "clicked"@,
                    "unsubscribed"@,
                    "complained"@,
                ],
                ","@,
            ) + "&duration="@ + text@
            &&& url(Call::Ip { ip: text }) == base + "/ips/"@ + text@
            &&& url(Call::AccountIps { dedicated: true }) == base + "/ips?dedicated=true"@
            &&& url(Call::AccountIps { dedicated: false }) == base + "/ips"@
            &&& domain is Some ==> url(Call::DomainIps { domain }) == base + "/domains/"@
                + domain->0@ + "/ips"@
            &&& domain is None ==> url(Call::DomainIps { domain }) == base + "/domains/"@
                + client.domain + "/ips"@
            &&& url(Call::Domains { limit }) == replaced(base, "/v3"@, "/v4"@)
                + "/domains?limit="@ + decimal(limit as nat)
        }),
{
    let base = client.base_url;
    let own = base + ("/"@ + client.domain);
    let number = decimal(limit as nat);
    let events = joined(stats_events(), ","@);
    assert(base + ("/"@ + client.domain + "/bounces?limit="@ + number) =~= own + "/bounces?limit="@
        + number);
    assert(base + ("/"@ + client.domain + "/complaints?limit="@ + number) =~= own
        + "/complaints?limit="@ + number);
    assert(base + ("/"@ + client.domain + "/unsubscribes?limit="@ + number) =~= own
        + "/unsubscribes?limit="@ + number);
    assert(base + ("/"@ + client.domain + "/bounces/"@ + text@) =~= own + "/bounces/"@ + text@);
    assert(base + ("/"@ + client.domain + "/complaints/"@ + text@) =~= own + "/complaints/"@
        + text@);
    assert(base + ("/"@ + client.domain + "/unsubscribes/"@ + text@) =~= own + "/unsubscribes/"@
        + text@);
    assert(base + ("/"@ + client.domain + "/stats/total?event="@ + events + "&duration="@ + text@)
        =~= own + "/stats/total?event="@ + events + "&duration="@ + text@);
    assert(base + ("/ips/"@ + text@) =~= base + "/ips/"@ + text@);
    if let Some(named) = domain {
        assert(base + ("/domains/"@ + named@ + "/ips"@) =~= base + "/domains/"@ + named@ + "/ips"@);
    }
    assert(base + ("/domains/"@ + client.domain + "/ips"@) =~= base + "/domains/"@ + client.domain
        + "/ips"@);
    let v4 = replaced(base, "/v3"@, "/v4"@);
    assert(v4 + ("/domains?limit="@ + number) =~= v4 + "/domains?limit="@ + number);
}

/// Every call but one for too many events makes a request.
pub proof fn calls_make_requests(call: Call, client: ClientView)
    ensures
        call.request_from(client) is Err <==> {
            &&& call is Events
            &&& call->Events_limit > 300
        },
{
}

/// After an address was taken off a list, the user reads which address and which list; the other
/// calls have an answer of their own.
pub proof fn removals_are_told(email: String, call: Call)
    ensures
        (Call::DeleteBounce { email }).done_text() == Some(
            "Removed "@ + email@ + " from bounce list\n"@,
        ),
        (Call::DeleteComplaint { email }).done_text() == Some(
            "Removed "@ + email@ + " from complaints list\n"@,
        ),
        (Call::DeleteUnsubscribe { email }).done_text() == Some(
            "Removed "@ + email@ + " from unsubscribes list\n"@,
        ),
        !(call is DeleteBounce || call is DeleteComplaint || call is DeleteUnsubscribe)
            ==> call.done_text() is None,
{
}

/// A single address is asked for by itself, whatever else is asked for; the addresses of the
/// account are asked for where all or the dedicated ones are, and those of a domain otherwise.
pub proof fn addresses_are_asked_for_as_told(
    ip: String,
    all: bool,
    dedicated: bool,
    domain: Option<String>,
)
    ensures
        ips_call(Some(ip), all, dedicated, domain) == (Call::Ip { ip }),
        ips_call(None, true, dedicated, domain) == (Call::AccountIps { dedicated }),
        ips_call(None, all, true, domain) == (Call::AccountIps { dedicated: true }),
        ips_call(None, false, false, domain) == (Call::DomainIps { domain }),
{
}

/// Each command leads to the call of its name, with what the command says, and its answer is
/// shown as JSON exactly where the command says so. Only a message can be shown by its headers,
/// and only the lists of addresses have a limit of their own.
pub proof fn commands_keep_what_they_say(command: Commands)
    ensures
        match command {
            Commands::Events { event, recipient, limit, json } => step_of(command) == Step::Api(
                Job {
                    call: Call::Events { event, recipient, limit },
                    json,
                    headers: false,
                    results: None,
                },
            ),
            Commands::Message { storage_url, json, headers } => step_of(command) == Step::Api(
                Job { call: Call::Message { storage_url }, json, headers, results: None },
            ),
            Commands::Bounces { limit, json, command: None } => step_of(command) == Step::Api(
                Job {
                    call: Call::Bounces { limit },
                    json,
                    headers: false,
                    results: Some(limit),
                },
            ),
            Commands::Bounces {
                json,
                command: Some(BouncesCommands::Delete { email }),
                ..
            } => step_of(command) == Step::Api(
                Job { call: Call::DeleteBounce { email }, json, headers: false, results: None },
            ),
            Commands::Complaints { limit, json, command: None } => step_of(command) == Step::Api(
                Job {
                    call: Call::Complaints { limit },
                    json,
                    headers: false,
                    results: Some(limit),
                },
            ),
            Commands::Complaints {
                json,
                command: Some(ComplaintsCommands::Delete { email }),
                ..
            } => step_of(command) == Step::Api(
                Job { call: Call::DeleteComplaint { email }, json, headers: false, results: None },
            ),
            Commands::Unsubscribes { limit, json, command: None } => step_of(command)
                == Step::Api(
                Job {
                    call: Call::Unsubscribes { limit },
                    json,
                    headers: false,
                    results: Some(limit),
                },
            ),
            Commands::Unsubscribes {
                json,
                command: Some(UnsubscribesCommands::Delete { email }),
                ..
            } => step_of(command) == Step::Api(
                Job { call: Call::DeleteUnsubscribe { email }, json, headers: false, results: None },
            ),
            Commands::Stats { duration, json } => step_of(command) == Step::Api(
                Job { call: Call::Stats { duration }, json, headers: false, results: None },
            ),
            Commands::Ips { ip, all, dedicated, domain, json } => step_of(command) == Step::Api(
                Job {
                    call: ips_call(ip, all, dedicated, domain),
                    json,
                    headers: false,
                    results: None,
                },
            ),
            Commands::Domains { limit, json } => step_of(command) == Step::Api(
                Job { call: Call::Domains { limit }, json, headers: false, results: None },
            ),
            Commands::Config { action } => step_of(command) == Step::Config(action),
        },
{
}

/// A job keeps its call and whether its answer is shown as JSON.
pub proof fn jobs_keep_their_calls(call: Call, limit: u32, json: bool)
    ensures
        plain(call, json) == (Job { call, json, headers: false, results: None }),
        listing(call, limit, json) == (Job { call, json, headers: false, results: Some(limit) }),
{
}

} // verus!
