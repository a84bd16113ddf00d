//! Where the browser may go, and how long it waits before it does.

use vstd::prelude::*;
use crate::text;

verus! {

/// The domain name in a URL, as `url::Url::parse` and `Url::domain` find it.
pub uninterp spec fn domain_in(url: Seq<char>) -> Option<Seq<char>>;

/// The host in a URL, as `url::Url::parse` and `Url::host_str` find it.
pub uninterp spec fn host_in(url: Seq<char>) -> Option<Seq<char>>;

/// `url::Url::parse` and `Url::domain`: `None` where the text is no URL, or its
/// host is an address or missing.
#[verifier::external_body]
pub(crate) fn url_domain(url: &str) -> (r: Option<String>)
    ensures
        text::opt_view(r) == domain_in(url@),
{
    url::Url::parse(url).ok().and_then(|u| u.domain().map(|d| d.to_string()))
}

/// `url::Url::parse` and `Url::host_str`: `None` where the text is no URL, or has
/// no host.
#[verifier::external_body]
pub(crate) fn url_host(url: &str) -> (r: Option<String>)
    ensures
        text::opt_view(r) == host_in(url@),
{
    url::Url::parse(url).ok().and_then(|u| u.host_str().map(|h| h.to_string()))
}

/// Whether a domain is `listed` or lies below it.
pub open spec fn within(domain: Seq<char>, listed: Seq<char>) -> bool {
    domain == listed || ("."@ + listed).is_suffix_of(domain)
}

/// Whether a domain is on the list, or below a domain on it.
pub open spec fn on_list(domain: Seq<char>, list: Seq<Seq<char>>) -> bool {
    exists|i: int| 0 <= i < list.len() && within(domain, #[trigger] list[i])
}

/// Whether the browser may go to a URL with the given domain name: there is no list,
/// or the URL has no domain name, or its domain is on the list.
pub open spec fn may_go(domain: Option<Seq<char>>, allowed: Option<Seq<Seq<char>>>) -> bool {
    match allowed {
        None => true,
        Some(list) => match domain {
            None => true,
            Some(d) => on_list(d, list),
        },
    }
}

/// Whether a domain is on the list, or below a domain on it.
pub fn domain_allowed(domain: &str, list: &Vec<String>) -> (r: bool)
    ensures
        r == on_list(domain@, text::views(list@)),
{
    let mut i: usize = 0;
    while i < list.len()
        invariant
            i <= list@.len(),
            forall|j: int| 0 <= j < i ==> !within(domain@, #[trigger] text::views(list@)[j]),
        decreases list@.len() - i,
    {
        assert(text::views(list@)[i as int] == list@[i as int]@);
        let mut below = text::owned(".");
        below.append(list[i].as_str());
        if text::same(domain, list[i].as_str()) || text::ends_with(domain, below.as_str()) {
            return true;
        }
        i += 1;
    }
    false
}

/// Whether the browser may go to a URL with the given domain name.
pub fn domain_permitted(domain: &Option<String>, allowed: &Option<Vec<String>>) -> (r: bool)
    ensures
        r == may_go(text::opt_view(*domain), text::opt_views(*allowed)),
{
    match (allowed, domain) {
        (Some(list), Some(d)) => domain_allowed(d.as_str(), list),
        _ => true,
    }
}

/// How long to wait, in milliseconds, before a visit to a host that is known to
/// serve challenges: one and a half seconds, and up to as much again by chance.
pub open spec fn challenger_delay(nanos: u64, iteration: u64) -> u64 {
    (1500 + (nanos ^ iteration) % 1500) as u64
}

pub fn pre_nav_delay_ms(nanos: u64, iteration: u64) -> (r: u64)
    ensures
        r == challenger_delay(nanos, iteration),
        1500 <= r <= 2999,
{
    1500 + (nanos ^ iteration) % 1500
}

/// Two to the power of `n`.
pub open spec fn power_of_two(n: nat) -> nat
    decreases n,
{
    if n == 0 {
        1
    } else {
        2 * power_of_two((n - 1) as nat)
    }
}

/// How many seconds to wait after the given attempt, counted from one: `base`,
/// doubled after each further attempt; `None` after the last one.
pub open spec fn retry_wait(attempt: u32, max_attempts: u32, base: u64) -> Option<nat> {
    if attempt < max_attempts {
        Some(base as nat * power_of_two((attempt - 1) as nat))
    } else {
        None
    }
}

/// How many seconds to wait after the given attempt.
pub fn retry_delay_secs(attempt: u32, max_attempts: u32, base: u64) -> (r: Option<u64>)
    requires
        1 <= attempt,
        attempt < max_attempts ==> base * power_of_two((attempt - 1) as nat) <= u64::MAX,
    ensures
        match r {
            Some(secs) => retry_wait(attempt, max_attempts, base) == Some(secs as nat),
            None => retry_wait(attempt, max_attempts, base) is None,
        },
{
    if attempt >= max_attempts {
        return None;
    }
    let mut secs: u64 = base;
    let mut i: u32 = 1;
    let ghost whole = base as nat * power_of_two((attempt - 1) as nat);
    while i < attempt
        invariant
            1 <= i <= attempt,
            secs as nat * power_of_two((attempt - i) as nat) == whole,
            whole <= u64::MAX,
        decreases attempt - i,
    {
        proof {
            lemma_power_step(secs as nat, (attempt - i) as nat);
        }
        secs = secs * 2;
        i += 1;
    }
    assert(secs as nat * power_of_two(0) == secs) by (nonlinear_arith)
        requires
            power_of_two(0) == 1,
    ;
    Some(secs)
}

proof fn lemma_power_step(f: nat, n: nat)
    requires
        n >= 1,
    ensures
        f * power_of_two(n) == (f * 2) * power_of_two((n - 1) as nat),
        power_of_two((n - 1) as nat) >= 1,
        (f * 2) * power_of_two((n - 1) as nat) >= f * 2,
{
    lemma_power_positive((n - 1) as nat);
    let p = power_of_two((n - 1) as nat);
    assert(f * (2 * p) == (f * 2) * p) by (nonlinear_arith);
    assert((f * 2) * p >= f * 2) by (nonlinear_arith)
        requires
            p >= 1,
    ;
}

proof fn lemma_power_positive(n: nat)
    ensures
        power_of_two(n) >= 1,
    decreases n,
{
    if n > 0 {
        lemma_power_positive((n - 1) as nat);
    }
}

// ---------------------------------------------------------------------------
// Laws
// ---------------------------------------------------------------------------

/// A domain that merely ends with the letters of a listed one is not let in by it.
pub proof fn law_lookalike_domains_are_refused(prefix: Seq<char>, listed: Seq<char>)
    requires
        prefix.len() > 0,
        prefix.last() != '.',
    ensures
        !within(prefix + listed, listed),
{
    reveal_strlit(".");
    let d = prefix + listed;
    if ("."@ + listed).is_suffix_of(d) {
        let s = "."@ + listed;
        assert(d.subrange(d.len() - s.len(), d.len() as int) == s);
        assert(d.subrange(d.len() - s.len(), d.len() as int)[0] == d[prefix.len() - 1]);
        assert(s[0] == '.');
    }
}

/// Every domain below a listed one is let in.
pub proof fn law_subdomains_are_allowed(prefix: Seq<char>, listed: Seq<char>)
    ensures
        within(prefix + "."@ + listed, listed),
{
    let d = prefix + "."@ + listed;
    let s = "."@ + listed;
    assert(d.subrange(d.len() - s.len(), d.len() as int) == s);
}

/// With an empty list no URL with a domain name can be visited.
pub proof fn law_empty_list_refuses_every_domain(domain: Seq<char>)
    ensures
        !may_go(Some(domain), Some(Seq::empty())),
{
}

/// A domain is let in where it is listed itself, and a longer list lets in no less and
/// only what its new line lets in more.
pub proof fn law_lists_let_in_what_they_name(
    domain: Seq<char>,
    list: Seq<Seq<char>>,
    listed: Seq<char>,
)
    ensures
        within(listed, listed),
        on_list(domain, list.push(listed)) <==> on_list(domain, list) || within(domain, listed),
        may_go(Some(domain), Some(list)) <==> on_list(domain, list),
        may_go(None, Some(list)),
        may_go(Some(domain), None),
        within(domain, listed) ==> listed.is_suffix_of(domain),
{
    let more = list.push(listed);
    if on_list(domain, list) {
        let i = choose|i: int| 0 <= i < list.len() && within(domain, #[trigger] list[i]);
        assert(more[i] == list[i]);
    }
    if within(domain, listed) {
        assert(more[list.len() as int] == listed);
        reveal_strlit(".");
        if domain != listed {
            let s = "."@ + listed;
            assert(domain.subrange(domain.len() - s.len(), domain.len() as int) =~= s);
            assert(domain.subrange(domain.len() - listed.len(), domain.len() as int) =~= listed) by {
                let t = domain.subrange(domain.len() - listed.len(), domain.len() as int);
                assert forall|k: int| 0 <= k < listed.len() implies #[trigger] t[k] == listed[k] by {
                    assert(domain.subrange(domain.len() - s.len(), domain.len() as int)[k + 1]
                        == s[k + 1]);
                }
            }
        }
    }
    if on_list(domain, more) {
        let i = choose|i: int| 0 <= i < more.len() && within(domain, #[trigger] more[i]);
        if i < list.len() {
            assert(more[i] == list[i]);
        }
    }
}

/// The waits between attempts double, from the first one on, and there is none after the
/// last attempt.
pub proof fn law_waits_double(attempt: u32, max_attempts: u32, base: u64)
    requires
        1 <= attempt,
    ensures
        retry_wait(attempt, max_attempts, base) is Some <==> attempt < max_attempts,
        1 < max_attempts ==> retry_wait(1, max_attempts, base) == Some(base as nat),
        attempt + 1 < max_attempts ==> retry_wait((attempt + 1) as u32, max_attempts, base)->0 == 2
            * retry_wait(attempt, max_attempts, base)->0,
{
    let one = power_of_two(0);
    assert(base as nat * one == base as nat) by (nonlinear_arith)
        requires
            one == 1,
    ;
    if attempt + 1 < max_attempts {
        let p = power_of_two((attempt - 1) as nat);
        assert(power_of_two(attempt as nat) == 2 * p);
        assert(base as nat * (2 * p) == 2 * (base as nat * p)) by (nonlinear_arith);
    }
}

/// The wait before a host that challenges visitors is between one and a half and three
/// seconds, and every wait in between can come up.
pub proof fn law_challengers_are_waited_for(nanos: u64, iteration: u64)
    ensures
        1500 <= challenger_delay(nanos, iteration) < 3000,
        nanos < 1500 ==> challenger_delay(nanos, 0) == 1500 + nanos,
{
    assert(nanos ^ 0 == nanos) by (bit_vector);
}

} // verus!
