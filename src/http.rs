use vstd::prelude::*;
use vstd::string::StringExecFns;

verus! {

/// The method of an outbound HTTP request.
#[derive(Clone, Copy, Debug, PartialEq, Eq, Structural)]
pub enum HttpMethod {
    GET,
    POST,
}

/// `User-Agent`.
pub open spec fn user_agent_key() -> Seq<char> {
    seq!['U', 's', 'e', 'r', '-', 'A', 'g', 'e', 'n', 't']
}

/// `Net-Type`.
pub open spec fn net_type_key() -> Seq<char> {
    seq!['N', 'e', 't', '-', 'T', 'y', 'p', 'e']
}

/// `Cookie`.
pub open spec fn cookie_key() -> Seq<char> {
    seq!['C', 'o', 'o', 'k', 'i', 'e']
}

/// `Wifi`.
pub open spec fn wifi() -> Seq<char> {
    seq!['W', 'i', 'f', 'i']
}

/// The user agent of client `version`: `QQ/<version> CFNetwork/1126`.
pub open spec fn user_agent_of(version: Seq<char>) -> Seq<char> {
    seq!['Q', 'Q', '/'] + version + seq![
        ' ',
        'C',
        'F',
        'N',
        'e',
        't',
        'w',
        'o',
        'r',
        'k',
        '/',
        '1',
        '1',
        '2',
        '6',
    ]
}

/// The headers of a request to the platform's HTTP services, as name and
/// value pairs: the user agent of `version`, the network type, and the
/// cookie when there is one.
pub fn make_headers(version: &str, cookie: String) -> (r: Vec<(String, String)>)
    ensures
        r@.len() == if cookie@.len() == 0 {
            2int
        } else {
            3int
        },
        r@[0].0@ == user_agent_key(),
        r@[0].1@ == user_agent_of(version@),
        r@[1].0@ == net_type_key(),
        r@[1].1@ == wifi(),
        cookie@.len() != 0 ==> r@[2].0@ == cookie_key() && r@[2].1@ == cookie@,
{
    proof {
        reveal_strlit("User-Agent");
        reveal_strlit("QQ/");
        reveal_strlit(" CFNetwork/1126");
        reveal_strlit("Net-Type");
        reveal_strlit("Wifi");
        reveal_strlit("Cookie");
    }
    let mut agent = String::from_str("QQ/");
    agent.append(version);
    agent.append(" CFNetwork/1126");
    assert(agent@ =~= user_agent_of(version@));
    let mut headers: Vec<(String, String)> = Vec::new();
    let k = String::from_str("User-Agent");
    assert(k@ =~= user_agent_key());
    headers.push((k, agent));
    let k = String::from_str("Net-Type");
    let v = String::from_str("Wifi");
    assert(k@ =~= net_type_key());
    assert(v@ =~= wifi());
    headers.push((k, v));
    if cookie.as_str().unicode_len() != 0 {
        let k = String::from_str("Cookie");
        assert(k@ =~= cookie_key());
        headers.push((k, cookie));
    }
    headers
}

} // verus!
