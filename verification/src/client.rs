//! The requests that the Mailgun API understands, and what a refused request is answered.

use vstd::prelude::*;

use crate::config::{Config, ConfigError, Region, SiteView};
use crate::text::{
    decimal, format_u64, join_slices, joined, occurs_at, opt_slice_text, replace, replaced,
    replaced_at_the_end, slice_texts,
};

verus! {

/// How many events a request can ask for.
pub const EVENTS_MAX_LIMIT: u32 = 300;

/// How many seconds a request may take.
pub const REQUEST_TIMEOUT_SECS: u64 = 30;

/// What a request does.
#[derive(Debug, Clone, Copy, PartialEq, Eq, Structural)]
pub enum Method {
    Get,
    Delete,
}

/// A request, ready to be sent, with the credentials of its basic authentication.
#[derive(Debug, PartialEq)]
pub struct Request {
    pub method: Method,
    pub url: String,
    pub user: String,
    pub password: String,
}

/// What a request says.
#[verifier::ext_equal]
pub struct RequestView {
    pub method: Method,
    pub url: Seq<char>,
    pub user: Seq<char>,
    pub password: Seq<char>,
}

impl View for Request {
    type V = RequestView;

    open spec fn view(&self) -> RequestView {
        RequestView {
            method: self.method,
            url: self.url@,
            user: self.user@,
            password: self.password@,
        }
    }
}

/// Why the API gives no answer.
#[derive(Debug)]
pub enum ApiError {
    /// More events than a request can ask for.
    LimitExceeded,
    /// An answer with a status other than success.
    Http { status: String, body: String },
}

/// What an `ApiError` says.
pub enum ApiErrorView {
    LimitExceeded,
    Http { status: Seq<char>, body: Seq<char> },
}

impl View for ApiError {
    type V = ApiErrorView;

    open spec fn view(&self) -> ApiErrorView {
        match self {
            ApiError::LimitExceeded => ApiErrorView::LimitExceeded,
            ApiError::Http { status, body } => ApiErrorView::Http { status: status@, body: body@ },
        }
    }
}

impl ApiErrorView {
    /// The message that the user reads.
    pub open spec fn text(self) -> Seq<char> {
        match self {
            ApiErrorView::LimitExceeded => "Limit exceeds maximum allowed by Mailgun API ("@
                + decimal(EVENTS_MAX_LIMIT as nat) + ")"@,
            ApiErrorView::Http { status, body } => "HTTP "@ + status + " - "@ + body,
        }
    }
}

impl ApiError {
    /// The message that the user reads.
    pub fn message(&self) -> (r: String)
        ensures
            r@ == self@.text(),
    {
        match self {
            ApiError::LimitExceeded => {
                "Limit exceeds maximum allowed by Mailgun API (".to_string().concat(
                    format_u64(EVENTS_MAX_LIMIT as u64).as_str(),
                ).concat(")")
            },
            ApiError::Http { status, body } => {
                "HTTP ".to_string().concat(status.as_str()).concat(" - ").concat(body.as_str())
            },
        }
    }
}

/// Makes the requests of one site.
#[derive(Debug)]
pub struct Client {
    base_url: String,
    api_key: String,
    domain: String,
}

/// What a client knows.
#[verifier::ext_equal]
pub struct ClientView {
    pub base_url: Seq<char>,
    pub api_key: Seq<char>,
    pub domain: Seq<char>,
}

impl View for Client {
    type V = ClientView;

    closed spec fn view(&self) -> ClientView {
        ClientView { base_url: self.base_url@, api_key: self.api_key@, domain: self.domain@ }
    }
}

/// `&event=` with an event type, or nothing.
pub open spec fn event_filter(event_type: Option<Seq<char>>) -> Seq<char> {
    match event_type {
        Some(event) => "&event="@ + event,
        None => seq![],
    }
}

/// `&recipient=` with an address, or nothing.
pub open spec fn recipient_filter(recipient: Option<Seq<char>>) -> Seq<char> {
    match recipient {
        Some(address) => "&recipient="@ + address,
        None => seq![],
    }
}

impl ClientView {
    /// A request with the credentials of the client.
    pub open spec fn request(self, method: Method, url: Seq<char>) -> RequestView {
        RequestView { method, url, user: "api"@, password: self.api_key }
    }

    /// A request for what is at `endpoint`.
    pub open spec fn get(self, endpoint: Seq<char>) -> RequestView {
        self.request(Method::Get, self.base_url + endpoint)
    }

    /// A request for what is at `endpoint` of version 4 of the API.
    pub open spec fn get_v4(self, endpoint: Seq<char>) -> RequestView {
        self.request(Method::Get, replaced(self.base_url, "/v3"@, "/v4"@) + endpoint)
    }

    /// A request to delete what is at `endpoint`.
    pub open spec fn delete(self, endpoint: Seq<char>) -> RequestView {
        self.request(Method::Delete, self.base_url + endpoint)
    }

    /// An endpoint of the domain of the client.
    pub open spec fn own(self, endpoint: Seq<char>) -> Seq<char> {
        "/"@ + self.domain + endpoint
    }

    /// The endpoint of the events that pass the filters.
    pub open spec fn events(
        self,
        event_type: Option<Seq<char>>,
        recipient: Option<Seq<char>>,
        limit: u32,
    ) -> Seq<char> {
        self.own("/events?limit="@) + decimal(limit as nat) + event_filter(event_type)
            + recipient_filter(recipient)
    }
}

impl Client {
    /// A client for a site of a region.
    pub fn new(api_key: &str, domain: &str, region: Region) -> (r: Self)
        ensures
            r@ == (ClientView { base_url: region.base(), api_key: api_key@, domain: domain@ }),
    {
        Client::with_base_url(api_key, domain, region.base_url().to_string())
    }

    /// A client whose requests start from `base_url`.
    pub fn with_base_url(api_key: &str, domain: &str, base_url: String) -> (r: Self)
        ensures
            r@ == (ClientView { base_url: base_url@, api_key: api_key@, domain: domain@ }),
    {
        Client { base_url, api_key: api_key.to_string(), domain: domain.to_string() }
    }

    /// A request with the credentials of the client.
    fn request(&self, method: Method, url: String) -> (r: Request)
        ensures
            r@ == self@.request(method, url@),
    {
        Request { method, url, user: "api".to_string(), password: self.api_key.clone() }
    }

    /// A request for what is at `url`, such as the next page of a list.
    pub fn fetch_json(&self, url: &str) -> (r: Request)
        ensures
            r@ == self@.request(Method::Get, url@),
    {
        self.request(Method::Get, url.to_string())
    }

    fn get(&self, endpoint: &str) -> (r: Request)
        ensures
            r@ == self@.get(endpoint@),
    {
        self.fetch_json(self.base_url.clone().concat(endpoint).as_str())
    }

    /// The domains endpoint is on version 4 of the API, not on version 3.
    fn get_v4(&self, endpoint: &str) -> (r: Request)
        ensures
            r@ == self@.get_v4(endpoint@),
    {
        proof {
            reveal_strlit("/v3");
        }
        let base = replace(self.base_url.as_str(), "/v3", "/v4");
        self.fetch_json(base.concat(endpoint).as_str())
    }

    fn delete(&self, endpoint: &str) -> (r: Request)
        ensures
            r@ == self@.delete(endpoint@),
    {
        self.request(Method::Delete, self.base_url.clone().concat(endpoint))
    }

    fn own(&self, endpoint: &str) -> (r: String)
        ensures
            r@ == self@.own(endpoint@),
    {
        "/".to_string().concat(self.domain.as_str()).concat(endpoint)
    }

    /// Lists events with optional filters.
    pub fn list_events(
        &self,
        event_type: Option<&str>,
        recipient: Option<&str>,
        limit: u32,
    ) -> (r: Result<Request, ApiError>)
        ensures
            limit <= EVENTS_MAX_LIMIT ==> r is Ok && r->Ok_0@ == self@.get(
                self@.events(opt_slice_text(event_type), opt_slice_text(recipient), limit),
            ),
            limit > EVENTS_MAX_LIMIT ==> r is Err && r->Err_0@ == ApiErrorView::LimitExceeded,
    {
        if limit > EVENTS_MAX_LIMIT {
            return Err(ApiError::LimitExceeded);
        }
        let mut endpoint = self.own("/events?limit=").concat(format_u64(limit as u64).as_str());
        match event_type {
            Some(event) => {
                endpoint = endpoint.concat("&event=".to_string().concat(event).as_str());
            },
            None => {
                assert(endpoint@ + event_filter(None) =~= endpoint@);
            },
        }
        match recipient {
            Some(address) => {
                endpoint = endpoint.concat("&recipient=".to_string().concat(address).as_str());
            },
            None => {
                assert(endpoint@ + recipient_filter(None) =~= endpoint@);
            },
        }
        Ok(self.get(endpoint.as_str()))
    }

    /// Asks for the first page of the bounces (the suppression list); a page holds `limit` of them.
    pub fn list_bounces(&self, limit: u32) -> (r: Request)
        ensures
            r@ == self@.get(self@.own("/bounces?limit="@) + decimal(limit as nat)),
    {
        self.get(self.own("/bounces?limit=").concat(format_u64(limit as u64).as_str()).as_str())
    }

    /// Deletes a bounce (takes an address off the suppression list).
    pub fn delete_bounce(&self, email: &str) -> (r: Request)
        ensures
            r@ == self@.delete(self@.own("/bounces/"@) + email@),
    {
        self.delete(self.own("/bounces/").concat(email).as_str())
    }

    /// Asks for the first page of the complaints (spam reports); a page holds `limit` of them.
    pub fn list_complaints(&self, limit: u32) -> (r: Request)
        ensures
            r@ == self@.get(self@.own("/complaints?limit="@) + decimal(limit as nat)),
    {
        self.get(self.own("/complaints?limit=").concat(format_u64(limit as u64).as_str()).as_str())
    }

    /// Deletes a complaint (takes an address off the complaints list).
    pub fn delete_complaint(&self, email: &str) -> (r: Request)
        ensures
            r@ == self@.delete(self@.own("/complaints/"@) + email@),
    {
        self.delete(self.own("/complaints/").concat(email).as_str())
    }

    /// Asks for the first page of the unsubscribes; a page holds `limit` of them.
    pub fn list_unsubscribes(&self, limit: u32) -> (r: Request)
        ensures
            r@ == self@.get(self@.own("/unsubscribes?limit="@) + decimal(limit as nat)),
    {
        self.get(
            self.own("/unsubscribes?limit=").concat(format_u64(limit as u64).as_str()).as_str(),
        )
    }

    /// Deletes an unsubscribe (takes an address off the unsubscribe list).
    pub fn delete_unsubscribe(&self, email: &str) -> (r: Request)
        ensures
            r@ == self@.delete(self@.own("/unsubscribes/"@) + email@),
    {
        self.delete(self.own("/unsubscribes/").concat(email).as_str())
    }

    /// Gets sending statistics.
    pub fn get_stats(&self, event_types: &[&str], duration: &str) -> (r: Request)
        ensures
            r@ == self@.get(
                self@.own("/stats/total?event="@) + joined(slice_texts(event_types@), ","@)
                    + "&duration="@ + duration@,
            ),
    {
        let events = join_slices(event_types, ",");
        self.get(
            self.own("/stats/total?event=").concat(events.as_str()).concat("&duration=").concat(
                duration,
            ).as_str(),
        )
    }

    /// Fetches a stored message by its storage URL.
    pub fn fetch_stored_message(&self, storage_url: &str) -> (r: Request)
        ensures
            r@ == self@.request(Method::Get, storage_url@),
    {
        self.fetch_json(storage_url)
    }

    /// Lists all IP addresses on the account, optionally only dedicated ones.
    pub fn list_account_ips(&self, dedicated: bool) -> (r: Request)
        ensures
            r@ == self@.get(
                if dedicated {
                    "/ips?dedicated=true"@
                } else {
                    "/ips"@
                },
            ),
    {
        if dedicated {
            self.get("/ips?dedicated=true")
        } else {
            self.get("/ips")
        }
    }

    /// Lists IP addresses assigned to a domain (by default the configured one).
    pub fn list_domain_ips(&self, domain: Option<&str>) -> (r: Request)
        ensures
            r@ == self@.get(
                "/domains/"@ + match domain {
                    Some(domain) => domain@,
                    None => self@.domain,
                } + "/ips"@,
            ),
    {
        let domain = match domain {
            Some(domain) => domain,
            None => self.domain.as_str(),
        };
        self.get("/domains/".to_string().concat(domain).concat("/ips").as_str())
    }

    /// Lists all domains on the account.
    pub fn list_domains(&self, limit: u32) -> (r: Request)
        ensures
            r@ == self@.get_v4("/domains?limit="@ + decimal(limit as nat)),
    {
        self.get_v4("/domains?limit=".to_string().concat(format_u64(limit as u64).as_str()).as_str())
    }

    /// Gets details for a single IP address.
    pub fn get_ip(&self, ip: &str) -> (r: Request)
        ensures
            r@ == self@.get("/ips/"@ + ip@),
    {
        self.get("/ips/".to_string().concat(ip).as_str())
    }
}

/// The client of a site.
pub open spec fn client_of(site: SiteView) -> ClientView {
    ClientView { base_url: site.region.base(), api_key: site.api_key, domain: site.domain }
}

/// The client of the site that a configuration resolves to.
pub fn get_client(config: &Config, site: Option<&str>) -> (r: Result<Client, ConfigError>)
    ensures
        match config@.resolved(opt_slice_text(site)) {
            Ok(site) => r is Ok && r->Ok_0@ == client_of(site),
            Err(error) => r is Err && r->Err_0@ == error,
        },
        r is Ok ==> ({
            let site = config@.resolved(opt_slice_text(site))->Ok_0;
            &&& r->Ok_0@.api_key == site.api_key
            &&& r->Ok_0@.domain == site.domain
            &&& r->Ok_0@.base_url == site.region.base()
        }),
        r is Err ==> config@.sites.dom().finite(),
{
    match config.resolve_site(site) {
        Ok(resolved) => Ok(
            Client::new(resolved.api_key.as_str(), resolved.domain.as_str(), resolved.region),
        ),
        Err(error) => Err(error),
    }
}

/// The domains of the account are asked for at version 4 of the API of the same region.
pub proof fn domains_are_on_version_4(
    region: Region,
    api_key: Seq<char>,
    domain: Seq<char>,
    endpoint: Seq<char>,
)
    ensures
        (ClientView { base_url: region.base(), api_key, domain }).get_v4(endpoint).url == match region {
            Region::Us => "https://api.mailgun.net/v4"@,
            Region::Eu => "https://api.eu.mailgun.net/v4"@,
        } + endpoint,
{
    reveal_strlit("https://api.mailgun.net/v3");
    reveal_strlit("https://api.mailgun.net/v4");
    reveal_strlit("https://api.eu.mailgun.net/v3");
    reveal_strlit("https://api.eu.mailgun.net/v4");
    reveal_strlit("/v3");
    reveal_strlit("/v4");
    let whole = region.base();
    let from = "/v3"@;
    let host = whole.take(whole.len() - 3);
    assert(host + from =~= whole);
    assert forall|at: int| 0 <= at < host.len() implies !occurs_at(host + from, from, at) by {
        if occurs_at(whole, from, at) {
            assert(whole.subrange(at, at + 3)[1] == 'v');
            assert(whole[at + 1] == 'v');
        }
    }
    replaced_at_the_end(host, from, "/v4"@);
    match region {
        Region::Us => {
            assert(host + "/v4"@ =~= "https://api.mailgun.net/v4"@);
        },
        Region::Eu => {
            assert(host + "/v4"@ =~= "https://api.eu.mailgun.net/v4"@);
        },
    }
}

/// A request is seen whole, and so is an error.
pub proof fn requests_are_seen_whole(request: Request, status: String, body: String)
    ensures
        request@.method == request.method,
        request@.url == request.url@,
        request@.user == request.user@,
        request@.password == request.password@,
        ApiError::LimitExceeded@ == ApiErrorView::LimitExceeded,
        (ApiError::Http { status, body })@ == (ApiErrorView::Http { status: status@, body: body@ }),
{
}

/// The message of a refused request is its status and all of its body; that of a request for too
/// many events tells how many can be asked for.
pub proof fn refusals_are_shown_whole(status: Seq<char>, body: Seq<char>)
    ensures
        (ApiErrorView::Http { status, body }).text() == "HTTP "@ + status + " - "@ + body,
        ApiErrorView::LimitExceeded.text() == "Limit exceeds maximum allowed by Mailgun API ("@
            + decimal(300) + ")"@,
{
}

/// A client takes the key and the domain of its site, and the address of its region.
pub proof fn a_client_is_that_of_its_site(site: SiteView)
    ensures
        client_of(site).api_key == site.api_key,
        client_of(site).domain == site.domain,
        site.region == Region::Us ==> client_of(site).base_url == "https://api.mailgun.net/v3"@,
        site.region == Region::Eu ==> client_of(site).base_url == "https://api.eu.mailgun.net/v3"@,
{
}

/// Every request carries the key of its client and goes to the address of its client, followed
/// by the whole endpoint; an endpoint of the client's domain names that domain.
pub proof fn requests_go_to_their_endpoints(
    client: ClientView,
    method: Method,
    url: Seq<char>,
    endpoint: Seq<char>,
)
    ensures
        client.request(method, url) == (RequestView {
            method,
            url,
            user: "api"@,
            password: client.api_key,
        }),
        client.get(endpoint).method == Method::Get,
        client.get(endpoint).url == client.base_url + endpoint,
        client.get(endpoint).user == "api"@,
        client.get(endpoint).password == client.api_key,
        client.delete(endpoint).method == Method::Delete,
        client.delete(endpoint).url == client.base_url + endpoint,
        client.delete(endpoint).user == "api"@,
        client.delete(endpoint).password == client.api_key,
        client.get_v4(endpoint).method == Method::Get,
        client.get_v4(endpoint).url == replaced(client.base_url, "/v3"@, "/v4"@) + endpoint,
        client.get_v4(endpoint).user == "api"@,
        client.get_v4(endpoint).password == client.api_key,
        client.own(endpoint) == "/"@ + client.domain + endpoint,
{
}

/// A filter adds its parameter to the request for events, whatever it is and whatever the other
/// one is; without filters only the limit is there.
pub proof fn filters_add_their_parameters(
    client: ClientView,
    event: Seq<char>,
    recipient: Seq<char>,
    limit: u32,
)
    ensures
        client.events(None, None, limit) == "/"@ + client.domain + "/events?limit="@ + decimal(
            limit as nat,
        ),
        client.events(Some(event), None, limit) == client.events(None, None, limit) + "&event="@
            + event,
        client.events(None, Some(recipient), limit) == client.events(None, None, limit)
            + "&recipient="@ + recipient,
        client.events(Some(event), Some(recipient), limit) == client.events(
            Some(event),
            None,
            limit,
        ) + "&recipient="@ + recipient,
{
    let base = "/"@ + client.domain + "/events?limit="@ + decimal(limit as nat);
    assert(client.events(None, None, limit) =~= base);
    assert(client.events(Some(event), None, limit) =~= base + "&event="@ + event);
    assert(client.events(None, Some(recipient), limit) =~= base + "&recipient="@ + recipient);
    assert(client.events(Some(event), Some(recipient), limit) =~= base + "&event="@ + event
        + "&recipient="@ + recipient);
}

} // verus!
