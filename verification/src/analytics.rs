//! Page views for the analytics service.

use crate::cache_control::header_fields;
use crate::ip::{resolve_true_client_ip_address, true_client_ip_of};
use crate::settings::base_settings::BaseSettings;
use crate::settings::environment::Environment;
use http::{HeaderMap, HeaderValue};
use vstd::prelude::*;

verus! {

/// What the browser reports of a page view.
#[derive(Clone, Debug)]
pub struct RequestPayload {
    pub user_agent: String,
    pub url: String,
    pub referrer: String,
    pub screen_width: usize,
}

/// A page view as the analytics service is told of it.
#[derive(Clone, Debug)]
pub struct PageviewEvent {
    /// The site that the view is counted for.
    pub domain: String,
    /// The name of the event.
    pub name: String,
    /// The address of the page.
    pub url: String,
    /// The address that led to the page.
    pub referrer: String,
    /// The width of the visitor's screen.
    pub screen_width: usize,
    /// The browser of the visitor.
    pub user_agent: String,
    /// The address of the visitor.
    pub client_ip: String,
}

/// The site that views are counted for: the site's own in production, a
/// test site otherwise.
pub open spec fn counted_domain(settings: BaseSettings) -> Seq<char> {
    match settings.environment {
        Environment::Production => settings.analytics_domain@,
        Environment::Development => "test.toddgriffin.me"@,
    }
}

/// The status that answers a report of a page view: 200 where the
/// analytics service took it, 500 where it did not.
pub open spec fn status_of(delivered: bool) -> u16 {
    if delivered {
        200
    } else {
        500
    }
}

/// The page view that the analytics service is told of: counted for the
/// site's own domain in production only, and with the address of the client
/// itself, as far as the headers tell it.
pub fn pageview_event(
    headers: &HeaderMap<HeaderValue>,
    settings: &BaseSettings,
    socket_ip: &str,
    incoming_payload: &RequestPayload,
) -> (event: PageviewEvent)
    ensures
        event.domain@ == counted_domain(*settings),
        event.name@ == "pageview"@,
        event.url@ == incoming_payload.url@,
        event.referrer@ == incoming_payload.referrer@,
        event.screen_width == incoming_payload.screen_width,
        event.user_agent@ == incoming_payload.user_agent@,
        event.client_ip@ == true_client_ip_of(socket_ip@, header_fields(*headers)),
{
    let domain = match settings.environment {
        Environment::Production => settings.analytics_domain.clone(),
        Environment::Development => "test.toddgriffin.me".to_owned(),
    };
    PageviewEvent {
        domain,
        name: "pageview".to_owned(),
        url: incoming_payload.url.clone(),
        referrer: incoming_payload.referrer.clone(),
        screen_width: incoming_payload.screen_width,
        user_agent: incoming_payload.user_agent.clone(),
        client_ip: resolve_true_client_ip_address(socket_ip, headers),
    }
}

/// The status that answers a report of a page view.
pub fn analytics_status(delivered: bool) -> (status: u16)
    ensures
        status == status_of(delivered),
{
    if delivered {
        200
    } else {
        500
    }
}

} // verus!
