//! Network addresses of the validators of a local swarm.

use vstd::prelude::*;
use crate::text::{decimal, push_decimal, push_str, string_of};

verus! {

/// The network address `/ip4/<host>/tcp/<port>/http`.
pub open spec fn http_address(host: Seq<char>, port: u16) -> Seq<char> {
    "/ip4/"@ + host + "/tcp/"@ + decimal(port as nat) + "/http"@
}

/// Different ports give different addresses on a host, so the validators of
/// a swarm, on consecutive ports, never share an address.
pub proof fn lemma_http_address_distinct_ports(host: Seq<char>, a: u16, b: u16)
    ensures
        a != b ==> http_address(host, a) != http_address(host, b),
{
    reveal_strlit("/ip4/");
    reveal_strlit("/tcp/");
    reveal_strlit("/http");
    if a != b && http_address(host, a) == http_address(host, b) {
        crate::text::lemma_decimal_reads_back(a as nat);
        crate::text::lemma_decimal_reads_back(b as nat);
        let da = decimal(a as nat);
        let db = decimal(b as nat);
        let prefix = "/ip4/"@ + host + "/tcp/"@;
        let x = http_address(host, a);
        assert(x.len() == prefix.len() + da.len() + 5);
        assert(http_address(host, b).len() == prefix.len() + db.len() + 5);
        assert(x.subrange(prefix.len() as int, (prefix.len() + da.len()) as int) =~= da);
        assert(http_address(host, b).subrange(prefix.len() as int, (prefix.len() + db.len()) as int) =~= db);
    }
}

/// The network address of the validator at `index`, where a consensus port
/// is configured: the validators listen on consecutive ports from it, on the
/// configured host or else on the loopback address. Without a port the
/// validator keeps the address its configuration gives.
pub fn validator_network_address(host: Option<&str>, port: Option<u16>, index: u16) -> (r: Option<String>)
    requires
        port matches Some(p) ==> p + index <= u16::MAX,
    ensures
        match (host, port) {
            (Some(h), Some(p)) => r matches Some(a) && a@ == http_address(h@, (p + index) as u16),
            (None, Some(p)) => r matches Some(a) && a@ == http_address("127.0.0.1"@, (p + index) as u16),
            (_, None) => r is None,
        },
{
    match port {
        None => None,
        Some(p) => {
            let mut a = string_of("/ip4/");
            match host {
                Some(h) => push_str(&mut a, h),
                None => push_str(&mut a, "127.0.0.1"),
            }
            push_str(&mut a, "/tcp/");
            push_decimal(&mut a, (p + index) as u64);
            push_str(&mut a, "/http");
            Some(a)
        },
    }
}

} // verus!
