//! Request dispatch for the scrape endpoint: the decision the exporter loop
//! takes for each inbound request. The host's accept loop hands the request
//! path in and sends the returned status, body and content type back.

use vstd::prelude::*;
use vstd::string::StringExecFns;

use crate::metrics::Metrics;
use crate::render::exposition_text;
use crate::render::render;
use crate::text::str_eq;

verus! {

/// What the exporter answers to one request: a status code, a plain-text
/// body, and, for a successful scrape, the exposition content type.
pub struct HttpResponse {
    pub status: u16,
    pub body: String,
    pub content_type: Option<String>,
}

/// Answers one request by its path. The metrics path gets the rendered
/// registry with status 200 and the exposition content type; every other
/// path gets status 404 with a short non-empty plain-text body. Rendering
/// is total, so no failing answer arises.
pub fn handle_request(metrics: &Metrics, path: &str) -> (r: HttpResponse)
    requires
        metrics.wf(),
    ensures
        path@ == "/metrics"@ ==> r.status == 200 && r.body@ == exposition_text(*metrics) && (
        r.content_type matches Some(t) && t@ == "text/plain; version=0.0.4; charset=utf-8"@),
        path@ != "/metrics"@ ==> r.status == 404 && r.body@ == "not found"@ && r.content_type
            is None,
        r.body@.len() > 0,
{
    if str_eq(path, "/metrics") {
        let body = render(metrics);
        proof {
            reveal_strlit(
                "# HELP tauri_app_up Tauri app up\n# TYPE tauri_app_up gauge\ntauri_app_up ",
            );
        }
        HttpResponse {
            status: 200,
            body,
            content_type: Some(String::from_str("text/plain; version=0.0.4; charset=utf-8")),
        }
    } else {
        proof {
            reveal_strlit("not found");
        }
        HttpResponse { status: 404, body: String::from_str("not found"), content_type: None }
    }
}

} // verus!
