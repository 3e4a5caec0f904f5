//! The identity of a page: its canonical key, the host and the path of its
//! URL. Two URLs that differ only in scheme, query or fragment name the same
//! page.

use crate::text::{lemma_text_transitive, lemma_text_trichotomy, precedes, text_before};
use crate::weburl::{host_view, Host, HostView, Url, UrlView};
use std::cmp::Ordering;
use vstd::prelude::*;
use vstd::std_specs::cmp::{PartialEqSpecImpl, PartialOrdSpecImpl};

verus! {

/// The canonical key of a URL: its host and its path.
#[derive(Debug, Eq, Ord, Hash)]
pub struct PartialUrl {
    pub host: Option<Host>,
    pub path: String,
}

/// What a `PartialUrl` stands for.
pub struct PartialUrlView {
    pub host: Option<HostView>,
    pub path: Seq<char>,
}

impl View for PartialUrl {
    type V = PartialUrlView;

    open spec fn view(&self) -> PartialUrlView {
        PartialUrlView { host: host_view(self.host), path: self.path@ }
    }
}

/// The canonical key of a URL.
pub open spec fn canonical_key(url: UrlView) -> PartialUrlView {
    PartialUrlView { host: url.host, path: url.path }
}

/// Two URLs name the same page: they have the same canonical key.
pub open spec fn same_page(a: UrlView, b: UrlView) -> bool {
    canonical_key(a) == canonical_key(b)
}

/// The place of a host among the kinds of host: no host first, then domain
/// names, then IPv4 addresses, then IPv6 addresses.
pub open spec fn host_rank(host: Option<HostView>) -> int {
    match host {
        None => 0,
        Some(HostView::Domain(_)) => 1,
        Some(HostView::Ipv4(_)) => 2,
        Some(HostView::Ipv6(_)) => 3,
    }
}

/// The strict order of hosts: by kind, and within a kind by name or by
/// address.
pub open spec fn host_before(a: Option<HostView>, b: Option<HostView>) -> bool {
    match (a, b) {
        (Some(HostView::Domain(x)), Some(HostView::Domain(y))) => text_before(x, y),
        (Some(HostView::Ipv4(x)), Some(HostView::Ipv4(y))) => x < y,
        (Some(HostView::Ipv6(x)), Some(HostView::Ipv6(y))) => x < y,
        _ => host_rank(a) < host_rank(b),
    }
}

/// The strict order of keys: by host, and for one host by path.
pub open spec fn key_before(a: PartialUrlView, b: PartialUrlView) -> bool {
    host_before(a.host, b.host) || (a.host == b.host && text_before(a.path, b.path))
}

/// How key `a` stands to key `b` in the order of keys.
pub open spec fn key_order(a: PartialUrlView, b: PartialUrlView) -> Ordering {
    if a == b {
        Ordering::Equal
    } else if key_before(a, b) {
        Ordering::Less
    } else {
        Ordering::Greater
    }
}

/// The order of hosts is a strict total order.
pub proof fn lemma_host_trichotomy(a: Option<HostView>, b: Option<HostView>)
    ensures
        host_before(a, b) || a == b || host_before(b, a),
        !(host_before(a, b) && a == b),
        !(host_before(b, a) && a == b),
        !(host_before(a, b) && host_before(b, a)),
{
    match (a, b) {
        (Some(HostView::Domain(x)), Some(HostView::Domain(y))) => {
            lemma_text_trichotomy(x, y);
        },
        _ => {},
    }
}

/// The order of hosts is transitive.
pub proof fn lemma_host_transitive(a: Option<HostView>, b: Option<HostView>, c: Option<HostView>)
    requires
        host_before(a, b),
        host_before(b, c),
    ensures
        host_before(a, c),
{
    match (a, b, c) {
        (
            Some(HostView::Domain(x)),
            Some(HostView::Domain(y)),
            Some(HostView::Domain(z)),
        ) => {
            lemma_text_transitive(x, y, z);
        },
        _ => {},
    }
}

/// The order of keys is a strict total order: of `a` before `b`, `a` equal to
/// `b` and `b` before `a`, exactly one holds.
pub proof fn lemma_key_trichotomy(a: PartialUrlView, b: PartialUrlView)
    ensures
        key_before(a, b) || a == b || key_before(b, a),
        !(key_before(a, b) && a == b),
        !(key_before(b, a) && a == b),
        !(key_before(a, b) && key_before(b, a)),
{
    lemma_host_trichotomy(a.host, b.host);
    lemma_text_trichotomy(a.path, b.path);
}

/// The order of keys is transitive.
pub proof fn lemma_key_transitive(a: PartialUrlView, b: PartialUrlView, c: PartialUrlView)
    requires
        key_before(a, b),
        key_before(b, c),
    ensures
        key_before(a, c),
{
    if host_before(a.host, b.host) && host_before(b.host, c.host) {
        lemma_host_transitive(a.host, b.host, c.host);
    }
    if a.host == b.host && b.host == c.host {
        lemma_text_transitive(a.path, b.path, c.path);
    }
}

/// Being the same page is reflexive.
pub proof fn lemma_same_page_reflexive(a: UrlView)
    ensures
        same_page(a, a),
{
}

/// Being the same page is symmetric.
pub proof fn lemma_same_page_symmetric(a: UrlView, b: UrlView)
    requires
        same_page(a, b),
    ensures
        same_page(b, a),
{
}

/// Being the same page is transitive.
pub proof fn lemma_same_page_transitive(a: UrlView, b: UrlView, c: UrlView)
    requires
        same_page(a, b),
        same_page(b, c),
    ensures
        same_page(a, c),
{
}

/// The key of a URL depends on its host and its path alone: whatever else
/// two URLs differ in, scheme, query or fragment, they are the same page when
/// host and path agree, and only then.
pub proof fn lemma_key_reads_host_and_path(a: UrlView, b: UrlView)
    ensures
        same_page(a, b) <==> a.host == b.host && a.path == b.path,
{
}

/// Equality of keys is an equivalence: reflexive, symmetric and transitive.
pub proof fn lemma_key_equality_is_an_equivalence(a: PartialUrl, b: PartialUrl, c: PartialUrl)
    ensures
        vstd::std_specs::cmp::PartialEqSpec::eq_spec(&a, &a),
        vstd::std_specs::cmp::PartialEqSpec::eq_spec(&a, &b)
            ==> vstd::std_specs::cmp::PartialEqSpec::eq_spec(&b, &a),
        vstd::std_specs::cmp::PartialEqSpec::eq_spec(&a, &b)
            && vstd::std_specs::cmp::PartialEqSpec::eq_spec(&b, &c)
            ==> vstd::std_specs::cmp::PartialEqSpec::eq_spec(&a, &c),
{
}

/// Equal keys stand equal in the order of keys, and only they do.
pub proof fn lemma_order_agrees_with_equality(a: PartialUrl, b: PartialUrl)
    ensures
        vstd::std_specs::cmp::PartialOrdSpec::partial_cmp_spec(&a, &b) == Some(Ordering::Equal)
            <==> vstd::std_specs::cmp::PartialEqSpec::eq_spec(&a, &b),
{
    lemma_key_trichotomy(a@, b@);
}

/// Whether two hosts are the same.
pub fn same_host(a: &Option<Host>, b: &Option<Host>) -> (same: bool)
    ensures
        same == (host_view(*a) == host_view(*b)),
{
    match (a, b) {
        (None, None) => true,
        (Some(Host::Domain(x)), Some(Host::Domain(y))) => *x == *y,
        (Some(Host::Ipv4(x)), Some(Host::Ipv4(y))) => *x == *y,
        (Some(Host::Ipv6(x)), Some(Host::Ipv6(y))) => *x == *y,
        _ => false,
    }
}

/// Whether host `a` comes strictly before host `b`.
pub fn host_precedes(a: &Option<Host>, b: &Option<Host>) -> (before: bool)
    ensures
        before == host_before(host_view(*a), host_view(*b)),
{
    match (a, b) {
        (Some(Host::Domain(x)), Some(Host::Domain(y))) => precedes(x.as_str(), y.as_str()),
        (Some(Host::Ipv4(x)), Some(Host::Ipv4(y))) => *x < *y,
        (Some(Host::Ipv6(x)), Some(Host::Ipv6(y))) => *x < *y,
        (None, Some(_)) => true,
        (Some(Host::Domain(_)), Some(_)) => true,
        (Some(Host::Ipv4(_)), Some(Host::Ipv6(_))) => true,
        _ => false,
    }
}

/// A copy of a host.
pub fn copy_host(host: &Option<Host>) -> (copy: Option<Host>)
    ensures
        host_view(copy) == host_view(*host),
{
    match host {
        Some(host) => Some(host.clone()),
        None => None,
    }
}

impl PartialUrl {
    /// The canonical key of `url`.
    pub fn new(url: &Url) -> (key: PartialUrl)
        ensures
            key@ == canonical_key(url@),
    {
        PartialUrl { host: copy_host(&url.host), path: url.path.clone() }
    }

    /// Whether this key comes strictly before `other` in the order of keys.
    pub fn comes_before(&self, other: &PartialUrl) -> (before: bool)
        ensures
            before == key_before(self@, other@),
    {
        host_precedes(&self.host, &other.host) || (same_host(&self.host, &other.host) && precedes(
            self.path.as_str(),
            other.path.as_str(),
        ))
    }
}

impl Clone for PartialUrl {
    fn clone(&self) -> (copy: PartialUrl)
        ensures
            copy@ == self@,
    {
        PartialUrl { host: copy_host(&self.host), path: self.path.clone() }
    }
}

impl PartialEq for PartialUrl {
    /// Two keys are equal when host and path are.
    fn eq(&self, other: &PartialUrl) -> (equal: bool) {
        same_host(&self.host, &other.host) && self.path == other.path
    }
}

impl PartialEqSpecImpl for PartialUrl {
    open spec fn obeys_eq_spec() -> bool {
        true
    }

    open spec fn eq_spec(&self, other: &PartialUrl) -> bool {
        self@ == other@
    }
}

impl PartialOrd for PartialUrl {
    /// Keys are ordered by host, and for one host by path.
    fn partial_cmp(&self, other: &PartialUrl) -> (order: Option<Ordering>) {
        proof {
            lemma_key_trichotomy(self@, other@);
        }
        if self.comes_before(other) {
            Some(Ordering::Less)
        } else if other.comes_before(self) {
            Some(Ordering::Greater)
        } else {
            Some(Ordering::Equal)
        }
    }
}

impl PartialOrdSpecImpl for PartialUrl {
    open spec fn obeys_partial_cmp_spec() -> bool {
        true
    }

    open spec fn partial_cmp_spec(&self, other: &PartialUrl) -> Option<Ordering> {
        Some(key_order(self@, other@))
    }
}

} // verus!
