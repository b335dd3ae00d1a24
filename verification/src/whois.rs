//! The registry server queried for a domain, by its top-level label.
//! The lookup itself is network I/O and happens outside; whether the
//! query names a bare network address is decided outside too and handed
//! in as a flag.

use vstd::prelude::*;
use crate::strutil::{ascii_lower, lower_seq, str_eq};
use crate::urlparse::{last_index_of, lemma_last_index_none, rfind_char};
use vstd::string::StrSliceExecFns;

verus! {

/// The last label of the lower-cased domain: what follows the last dot,
/// or the whole text without one.
pub open spec fn spec_tld(domain: Seq<char>) -> Seq<char> {
    let lower = lower_seq(domain);
    lower.subrange(last_index_of(lower, '.') + 1, lower.len() as int)
}

/// The registry server for a top-level label; a bare network address
/// goes to the address registry, anything unknown to the root registry.
pub open spec fn spec_whois_server(tld: Seq<char>, is_ip: bool) -> Seq<char> {
    if tld == "com"@ || tld == "net"@ {
        "whois.verisign-grs.com"@
    } else if tld == "org"@ {
        "whois.pir.org"@
    } else if tld == "info"@ {
        "whois.afilias.net"@
    } else if tld == "biz"@ {
        "whois.biz"@
    } else if tld == "name"@ {
        "whois.nic.name"@
    } else if tld == "mobi"@ {
        "whois.dotmobiregistry.net"@
    } else if tld == "online"@ || tld == "site"@ {
        "whois.nic.online"@
    } else if tld == "xyz"@ {
        "whois.nic.xyz"@
    } else if tld == "tech"@ {
        "whois.nic.tech"@
    } else if tld == "app"@ {
        "whois.nic.google"@
    } else if tld == "io"@ {
        "whois.nic.io"@
    } else if tld == "ai"@ {
        "whois.nic.ai"@
    } else if tld == "co"@ {
        "whois.nic.co"@
    } else if tld == "me"@ {
        "whois.nic.me"@
    } else if tld == "tv"@ {
        "whois.nic.tv"@
    } else if tld == "gg"@ {
        "whois.nic.gg"@
    } else if tld == "cc"@ {
        "whois.nic.cc"@
    } else if tld == "us"@ {
        "whois.nic.us"@
    } else if tld == "uk"@ {
        "whois.nic.uk"@
    } else if tld == "de"@ {
        "whois.denic.de"@
    } else if tld == "fr"@ {
        "whois.nic.fr"@
    } else if tld == "cn"@ {
        "whois.cnnic.cn"@
    } else if tld == "jp"@ {
        "whois.jprs.jp"@
    } else if tld == "kr"@ {
        "whois.kr"@
    } else if tld == "ru"@ {
        "whois.tld.ru"@
    } else if tld == "ca"@ {
        "whois.ca.fury.ca"@
    } else if tld == "au"@ {
        "whois.auda.org.au"@
    } else if tld == "br"@ {
        "whois.registro.br"@
    } else if tld == "nl"@ {
        "whois.domain-registry.nl"@
    } else if tld == "es"@ {
        "whois.nic.es"@
    } else if tld == "it"@ {
        "whois.nic.it"@
    } else if tld == "ch"@ {
        "whois.nic.ch"@
    } else if tld == "at"@ {
        "whois.nic.at"@
    } else if tld == "be"@ {
        "whois.dns.be"@
    } else if tld == "se"@ {
        "whois.iis.se"@
    } else if tld == "no"@ {
        "whois.norid.no"@
    } else if tld == "pl"@ {
        "whois.dns.pl"@
    } else if tld == "dk"@ {
        "whois.dk-hostmaster.dk"@
    } else if tld == "fi"@ {
        "whois.fi"@
    } else if tld == "gr"@ {
        "whois.ripe.net"@
    } else if tld == "eu"@ {
        "whois.eu"@
    } else if tld == "in"@ {
        "whois.registry.in"@
    } else if tld == "sg"@ {
        "whois.sgnic.sg"@
    } else if tld == "my"@ {
        "whois.mynic.my"@
    } else if tld == "th"@ {
        "whois.thnic.co.th"@
    } else if tld == "vn"@ {
        "whois.nic.vn"@
    } else if tld == "id"@ {
        "whois.id"@
    } else if tld == "ph"@ {
        "whois.dot.ph"@
    } else if tld == "tw"@ {
        "whois.twnic.net.tw"@
    } else if tld == "hk"@ {
        "whois.hkirc.hk"@
    } else if tld == "nz"@ {
        "whois.srs.net.nz"@
    } else if tld == "za"@ {
        "whois.registry.net.za"@
    } else if tld == "mx"@ {
        "whois.mx"@
    } else if is_ip {
        "whois.arin.net"@
    } else {
        "whois.iana.org"@
    }
}

/// Pick the registry server for a query.
pub fn determine_whois_server(domain: &str, is_ip: bool) -> (r: String)
    ensures
        r@ == spec_whois_server(spec_tld(domain@), is_ip),
{
    let lower = ascii_lower(domain);
    let llen = lower.as_str().unicode_len();
    let start = match rfind_char(lower.as_str(), '.') {
        Some(i) => i + 1,
        None => {
            proof {
                lemma_last_index_none(lower@, '.');
            }
            0
        },
    };
    let tld_s = lower.as_str().substring_char(start, llen).to_owned();
    let tld = tld_s.as_str();
    proof {
        assert(tld@ == spec_tld(domain@));
    }
    if str_eq(tld, "com") || str_eq(tld, "net") {
        "whois.verisign-grs.com".to_owned()
    } else if str_eq(tld, "org") {
        "whois.pir.org".to_owned()
    } else if str_eq(tld, "info") {
        "whois.afilias.net".to_owned()
    } else if str_eq(tld, "biz") {
        "whois.biz".to_owned()
    } else if str_eq(tld, "name") {
        "whois.nic.name".to_owned()
    } else if str_eq(tld, "mobi") {
        "whois.dotmobiregistry.net".to_owned()
    } else if str_eq(tld, "online") || str_eq(tld, "site") {
        "whois.nic.online".to_owned()
    } else if str_eq(tld, "xyz") {
        "whois.nic.xyz".to_owned()
    } else if str_eq(tld, "tech") {
        "whois.nic.tech".to_owned()
    } else if str_eq(tld, "app") {
        "whois.nic.google".to_owned()
    } else if str_eq(tld, "io") {
        "whois.nic.io".to_owned()
    } else if str_eq(tld, "ai") {
        "whois.nic.ai".to_owned()
    } else if str_eq(tld, "co") {
        "whois.nic.co".to_owned()
    } else if str_eq(tld, "me") {
        "whois.nic.me".to_owned()
    } else if str_eq(tld, "tv") {
        "whois.nic.tv".to_owned()
    } else if str_eq(tld, "gg") {
        "whois.nic.gg".to_owned()
    } else if str_eq(tld, "cc") {
        "whois.nic.cc".to_owned()
    } else if str_eq(tld, "us") {
        "whois.nic.us".to_owned()
    } else if str_eq(tld, "uk") {
        "whois.nic.uk".to_owned()
    } else if str_eq(tld, "de") {
        "whois.denic.de".to_owned()
    } else if str_eq(tld, "fr") {
        "whois.nic.fr".to_owned()
    } else if str_eq(tld, "cn") {
        "whois.cnnic.cn".to_owned()
    } else if str_eq(tld, "jp") {
        "whois.jprs.jp".to_owned()
    } else if str_eq(tld, "kr") {
        "whois.kr".to_owned()
    } else if str_eq(tld, "ru") {
        "whois.tld.ru".to_owned()
    } else if str_eq(tld, "ca") {
        "whois.ca.fury.ca".to_owned()
    } else if str_eq(tld, "au") {
        "whois.auda.org.au".to_owned()
    } else if str_eq(tld, "br") {
        "whois.registro.br".to_owned()
    } else if str_eq(tld, "nl") {
        "whois.domain-registry.nl".to_owned()
    } else if str_eq(tld, "es") {
        "whois.nic.es".to_owned()
    } else if str_eq(tld, "it") {
        "whois.nic.it".to_owned()
    } else if str_eq(tld, "ch") {
        "whois.nic.ch".to_owned()
    } else if str_eq(tld, "at") {
        "whois.nic.at".to_owned()
    } else if str_eq(tld, "be") {
        "whois.dns.be".to_owned()
    } else if str_eq(tld, "se") {
        "whois.iis.se".to_owned()
    } else if str_eq(tld, "no") {
        "whois.norid.no".to_owned()
    } else if str_eq(tld, "pl") {
        "whois.dns.pl".to_owned()
    } else if str_eq(tld, "dk") {
        "whois.dk-hostmaster.dk".to_owned()
    } else if str_eq(tld, "fi") {
        "whois.fi".to_owned()
    } else if str_eq(tld, "gr") {
        "whois.ripe.net".to_owned()
    } else if str_eq(tld, "eu") {
        "whois.eu".to_owned()
    } else if str_eq(tld, "in") {
        "whois.registry.in".to_owned()
    } else if str_eq(tld, "sg") {
        "whois.sgnic.sg".to_owned()
    } else if str_eq(tld, "my") {
        "whois.mynic.my".to_owned()
    } else if str_eq(tld, "th") {
        "whois.thnic.co.th".to_owned()
    } else if str_eq(tld, "vn") {
        "whois.nic.vn".to_owned()
    } else if str_eq(tld, "id") {
        "whois.id".to_owned()
    } else if str_eq(tld, "ph") {
        "whois.dot.ph".to_owned()
    } else if str_eq(tld, "tw") {
        "whois.twnic.net.tw".to_owned()
    } else if str_eq(tld, "hk") {
        "whois.hkirc.hk".to_owned()
    } else if str_eq(tld, "nz") {
        "whois.srs.net.nz".to_owned()
    } else if str_eq(tld, "za") {
        "whois.registry.net.za".to_owned()
    } else if str_eq(tld, "mx") {
        "whois.mx".to_owned()
    } else if is_ip {
        "whois.arin.net".to_owned()
    } else {
        "whois.iana.org".to_owned()
    }
}

} // verus!
