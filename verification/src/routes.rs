//! Links between the app's pages, and page titles built from names.
use vstd::prelude::*;

verus! {

/// The page of the Mish state with this name.
pub fn mish_state_href(name: &str) -> (r: String)
    ensures
        r@ == "/settings/dag-inspector/mish-state/"@ + name@,
{
    let mut href = String::from_str("/settings/dag-inspector/mish-state/");
    href.append(name);
    href
}

/// The page of the IPLD blob with this CID.
pub fn ipld_blob_href(cid: &str) -> (r: String)
    ensures
        r@ == "/settings/dag-inspector/ipld-blob/"@ + cid@,
{
    let mut href = String::from_str("/settings/dag-inspector/ipld-blob/");
    href.append(cid);
    href
}

/// The login page of the integration with this name.
pub fn integration_href(name: &str) -> (r: String)
    ensures
        r@ == "/integrations/"@ + name@,
{
    let mut href = String::from_str("/integrations/");
    href.append(name);
    href
}

/// The page of the account with this name.
pub fn account_href(name: &str) -> (r: String)
    ensures
        r@ == "/accounts/"@ + name@,
{
    let mut href = String::from_str("/accounts/");
    href.append(name);
    href
}

/// The login page an integration gets.
#[derive(Clone, Copy, Debug, PartialEq, Eq, Structural)]
pub enum LoginPageKind {
    /// The Ring login form.
    Ring,
    /// The page for integrations without a login.
    NotFound,
}

/// The login page for the integration named in the route: Ring has a login
/// form, every other name gets the "not found" page.
pub fn login_page_for(integration: &str) -> (r: LoginPageKind)
    ensures
        r == (if integration@ == "ring"@ {
            LoginPageKind::Ring
        } else {
            LoginPageKind::NotFound
        }),
{
    if crate::text::str_equal(integration, "ring") {
        LoginPageKind::Ring
    } else {
        LoginPageKind::NotFound
    }
}

/// The heading of a login form.
pub fn sign_in_title(name: &str) -> (r: String)
    ensures
        r@ == "Sign in to your "@ + name@ + " account"@,
{
    let mut title = String::from_str("Sign in to your ");
    title.append(name);
    title.append(" account");
    title
}

/// An entry of the side navigation: where it leads and its label.
#[derive(Clone, Debug, PartialEq, Eq)]
pub struct NavbarLink {
    pub path: String,
    pub text: String,
}

/// The side navigation's entries, top to bottom, as (path, label).
pub open spec fn navbar_spec() -> Seq<(Seq<char>, Seq<char>)> {
    seq![
        ("/"@, "Dashboard"@),
        ("/devices"@, "Devices"@),
        ("/actions"@, "Actions"@),
        ("/integrations"@, "Integrations"@),
        ("/settings"@, "Settings"@),
    ]
}

/// A navigation entry.
fn link(path: &str, text: &str) -> (r: NavbarLink)
    ensures
        r.path@ == path@,
        r.text@ == text@,
{
    NavbarLink { path: String::from_str(path), text: String::from_str(text) }
}

/// The side navigation's entries: dashboard, devices, actions, integrations
/// and settings.
pub fn navbar_links() -> (r: Vec<NavbarLink>)
    ensures
        r@.map_values(|l: NavbarLink| (l.path@, l.text@)) == navbar_spec(),
{
    let mut links: Vec<NavbarLink> = Vec::new();
    links.push(link("/", "Dashboard"));
    links.push(link("/devices", "Devices"));
    links.push(link("/actions", "Actions"));
    links.push(link("/integrations", "Integrations"));
    links.push(link("/settings", "Settings"));
    assert(links@.map_values(|l: NavbarLink| (l.path@, l.text@)) =~= navbar_spec());
    links
}

} // verus!
