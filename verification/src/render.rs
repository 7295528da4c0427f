//! The delegation renderer: a pure function from a registry snapshot and the
//! shared secret to the dashboard HTML, plus the static sign-in page.

use crate::registry::EntryView;
use crate::registry::services_view;
use vstd::prelude::*;

verus! {

/// The delegation form for one service: a self-submitting form whose action
/// is the service URL with `/generate_auth_cookie` appended, carrying the
/// shared secret and the service URL as hidden fields.
pub open spec fn spec_form_html(secret: Seq<char>, name: Seq<char>, url: Seq<char>) -> Seq<char> {
    "<div class=\"service\"><form action=\""@ + url
        + "/generate_auth_cookie\" method=\"post\" target=\"_blank\"><input type=\"hidden\" name=\"shared_secret\" value=\""@
        + secret + "\"><input type=\"hidden\" name=\"service_url\" value=\""@ + url + "\"><h3>"@
        + name + "</h3><button type=\"submit\">Go to Service</button></form></div>"@
}

/// The delegation forms of one domain's service list, in list order.
pub open spec fn spec_services_html(secret: Seq<char>, services: Seq<EntryView>) -> Seq<char>
    decreases services.len(),
{
    if services.len() == 0 {
        Seq::empty()
    } else {
        spec_services_html(secret, services.drop_last()) + spec_form_html(
            secret,
            services.last().0,
            services.last().1,
        )
    }
}

/// One domain's dashboard section: its heading followed by its forms.
pub open spec fn spec_section_html(
    secret: Seq<char>,
    domain: Seq<char>,
    services: Seq<EntryView>,
) -> Seq<char> {
    "<h2>"@ + domain + "</h2>"@ + spec_services_html(secret, services)
}

/// The view of a snapshot row sequence: each row as (domain, service views).
pub open spec fn snapshot_view(s: Seq<(String, Vec<(String, String)>)>) -> Seq<
    (Seq<char>, Seq<EntryView>),
> {
    s.map_values(|e: (String, Vec<(String, String)>)| (e.0@, services_view(e.1@)))
}

/// The dashboard sections of all rows, in row order.
pub open spec fn spec_sections_html(
    secret: Seq<char>,
    rows: Seq<(Seq<char>, Seq<EntryView>)>,
) -> Seq<char>
    decreases rows.len(),
{
    if rows.len() == 0 {
        Seq::empty()
    } else {
        spec_sections_html(secret, rows.drop_last()) + spec_section_html(
            secret,
            rows.last().0,
            rows.last().1,
        )
    }
}

pub open spec fn spec_dashboard_header() -> Seq<char> {
    "<!DOCTYPE html><html lang=\"en\"><head><meta charset=\"UTF-8\"><title>Services</title></head><body><h1>Services</h1>"@
}

pub open spec fn spec_dashboard_footer() -> Seq<char> {
    "</body></html>"@
}

/// The whole dashboard: header, one section per snapshot row, footer.
pub open spec fn spec_dashboard_html(
    secret: Seq<char>,
    rows: Seq<(Seq<char>, Seq<EntryView>)>,
) -> Seq<char> {
    spec_dashboard_header() + spec_sections_html(secret, rows) + spec_dashboard_footer()
}

/// Renders the dashboard for a registry snapshot: purely a function of the
/// snapshot and the shared secret, with one delegation form per service
/// entry, each embedding the secret verbatim.
pub fn render_dashboard(snapshot: &Vec<(String, Vec<(String, String)>)>, secret: &String) -> (r:
    String)
    ensures
        r@ == spec_dashboard_html(secret@, snapshot_view(snapshot@)),
{
    let mut html = String::from_str(
        "<!DOCTYPE html><html lang=\"en\"><head><meta charset=\"UTF-8\"><title>Services</title></head><body><h1>Services</h1>",
    );
    let mut i: usize = 0;
    while i < snapshot.len()
        invariant
            i <= snapshot@.len(),
            html@ == spec_dashboard_header() + spec_sections_html(
                secret@,
                snapshot_view(snapshot@).take(i as int),
            ),
        decreases snapshot@.len() - i,
    {
        html.append("<h2>");
        html.append(snapshot[i].0.as_str());
        html.append("</h2>");
        let ghost svs = services_view(snapshot@[i as int].1@);
        let mut j: usize = 0;
        while j < snapshot[i].1.len()
            invariant
                i < snapshot@.len(),
                j <= svs.len(),
                svs == services_view(snapshot@[i as int].1@),
                html@ == spec_dashboard_header() + spec_sections_html(
                    secret@,
                    snapshot_view(snapshot@).take(i as int),
                ) + "<h2>"@ + snapshot@[i as int].0@ + "</h2>"@ + spec_services_html(
                    secret@,
                    svs.take(j as int),
                ),
            decreases svs.len() - j,
        {
            html.append("<div class=\"service\"><form action=\"");
            html.append(snapshot[i].1[j].1.as_str());
            html.append(
                "/generate_auth_cookie\" method=\"post\" target=\"_blank\"><input type=\"hidden\" name=\"shared_secret\" value=\"",
            );
            html.append(secret.as_str());
            html.append("\"><input type=\"hidden\" name=\"service_url\" value=\"");
            html.append(snapshot[i].1[j].1.as_str());
            html.append("\"><h3>");
            html.append(snapshot[i].1[j].0.as_str());
            html.append("</h3><button type=\"submit\">Go to Service</button></form></div>");
            proof {
                assert(svs.take(j as int + 1).drop_last() =~= svs.take(j as int));
                assert(svs.take(j as int + 1).last() == svs[j as int]);
                assert(svs[j as int].0 == snapshot@[i as int].1@[j as int].0@);
                assert(svs[j as int].1 == snapshot@[i as int].1@[j as int].1@);
                assert(html@ =~= spec_dashboard_header() + spec_sections_html(
                    secret@,
                    snapshot_view(snapshot@).take(i as int),
                ) + "<h2>"@ + snapshot@[i as int].0@ + "</h2>"@ + spec_services_html(
                    secret@,
                    svs.take(j as int + 1),
                ));
            }
            j = j + 1;
        }
        proof {
            let rows = snapshot_view(snapshot@);
            assert(svs.take(svs.len() as int) =~= svs);
            assert(rows.take(i as int + 1).drop_last() =~= rows.take(i as int));
            assert(rows.take(i as int + 1).last() == rows[i as int]);
            assert(rows[i as int].0 == snapshot@[i as int].0@);
            assert(rows[i as int].1 == services_view(snapshot@[i as int].1@));
            assert(html@ =~= spec_dashboard_header() + spec_sections_html(
                secret@,
                rows.take(i as int + 1),
            ));
        }
        i = i + 1;
    }
    html.append("</body></html>");
    proof {
        assert(snapshot_view(snapshot@).take(snapshot@.len() as int) =~= snapshot_view(snapshot@));
    }
    html
}

/// The sign-in page served at the root path.
pub open spec fn spec_sign_in_page() -> Seq<char> {
    "<!DOCTYPE html><html lang=\"en\"><head><meta charset=\"UTF-8\"><title>Schluessel</title></head><body><form action=\"/authenticate\" method=\"post\" class=\"form-signin\"><h1>This is Schluessel</h1><input type=\"password\" id=\"password\" name=\"password\" placeholder=\"Password\" required><button class=\"btn\" type=\"submit\">Sign in</button></form></body></html>"@
}

/// Renders the static sign-in page.
pub fn sign_in_page() -> (r: String)
    ensures
        r@ == spec_sign_in_page(),
{
    String::from_str(
        "<!DOCTYPE html><html lang=\"en\"><head><meta charset=\"UTF-8\"><title>Schluessel</title></head><body><form action=\"/authenticate\" method=\"post\" class=\"form-signin\"><h1>This is Schluessel</h1><input type=\"password\" id=\"password\" name=\"password\" placeholder=\"Password\" required><button class=\"btn\" type=\"submit\">Sign in</button></form></body></html>",
    )
}

} // verus!
