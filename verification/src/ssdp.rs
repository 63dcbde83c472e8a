//! The SSDP announcement engine: what each NOTIFY carries, which incoming
//! datagrams count as a search for this service, how the receive buffer is
//! drained and capped, and the per-sender alive/byebye discipline.
//!
//! The sockets themselves live outside the crate; these functions decide what
//! is sent, what a received buffer means, and when a sender must stop.

use vstd::prelude::*;

use crate::addr::{
    spec_dec, spec_endpoint_text, spec_hex, spec_is_ipv4, spec_kept_v4, spec_kept_v6,
    spec_is_loopback, dec_bytes, IpAddrWithScopeId,
};
use crate::codec::{
    ascii_seq, ascii_vec, bytes_eq, decode_messages, is_ascii_ws, is_value_byte, is_tchar,
    msg_well_formed, header_well_formed, valid_token, valid_value, spec_decode, HttpHeader,
    HttpMessage, HttpVersion, MessageModel,
};
use crate::{IoErrorKind, PlatformAbstractionError};

verus! {

/// The port the SSDP multicast groups listen on.
pub const SSDP_PORT: u16 = 1900;

/// The buffer size past which a receiver clears its buffer after draining.
pub const RECEIVE_BUFFER_CAP: usize = 4096;

/// The service type identifier the agent announces and answers for.
pub open spec fn spec_service_type() -> Seq<u8> {
    ascii_seq("urn:dragon-claw:service:DragonClawAgent:1"@)
}

/// Writes the service type identifier.
pub fn service_type_bytes() -> (r: Vec<u8>)
    ensures
        r@ == spec_service_type(),
{
    proof {
        reveal_strlit("urn:dragon-claw:service:DragonClawAgent:1");
    }
    ascii_vec("urn:dragon-claw:service:DragonClawAgent:1")
}

/// The agent version, as announced in the user agent header.
#[derive(Debug, Clone, Copy, PartialEq, Eq, Structural)]
pub struct AgentVersion {
    pub major: u32,
    pub minor: u32,
    pub patch: u32,
}

/// The user agent value: the agent name and its dotted version.
pub open spec fn spec_user_agent(v: AgentVersion) -> Seq<u8> {
    ascii_seq("DragonClaw/"@) + spec_dec(v.major as nat) + seq![46u8] + spec_dec(v.minor as nat)
        + seq![46u8] + spec_dec(v.patch as nat)
}

/// Whether a NOTIFY announces or retracts the service.
#[derive(Debug, Clone, Copy, PartialEq, Eq, Structural)]
pub enum NotificationSubtype {
    /// The service is alive.
    Alive,
    /// The service is going away.
    ByeBye,
}

/// The value of the NTS header for each notification subtype.
pub open spec fn spec_nts_value(nts: NotificationSubtype) -> Seq<u8> {
    match nts {
        NotificationSubtype::Alive => ascii_seq("ssdp:alive"@),
        NotificationSubtype::ByeBye => ascii_seq("ssdp:byebye"@),
    }
}

/// The HOST header value: the well-known multicast group of the family.
pub open spec fn spec_host_value(v4: bool) -> Seq<u8> {
    if v4 {
        ascii_seq("239.255.255.250:1900"@)
    } else {
        ascii_seq("[ff05::c]:1900"@)
    }
}

/// The model of an announcement: a `NOTIFY * HTTP/1.1` with exactly the
/// headers HOST, NT, USER-AGENT, NTS, CACHE-CONTROL, LOCATION and MAN.
pub open spec fn spec_notify_message(
    v4: bool,
    endpoint: Seq<u8>,
    nts: NotificationSubtype,
    version: AgentVersion,
) -> MessageModel {
    (
        ascii_seq("NOTIFY"@),
        ascii_seq("*"@),
        HttpVersion::V11,
        seq![
            (ascii_seq("HOST"@), spec_host_value(v4)),
            (ascii_seq("NT"@), spec_service_type()),
            (ascii_seq("USER-AGENT"@), spec_user_agent(version)),
            (ascii_seq("NTS"@), spec_nts_value(nts)),
            (ascii_seq("CACHE-CONTROL"@), ascii_seq("max-age=30"@)),
            (ascii_seq("LOCATION"@), ascii_seq("tcp://"@) + endpoint),
            (ascii_seq("MAN"@), seq![34u8] + ascii_seq("ssdp:discover"@) + seq![34u8]),
        ],
    )
}

/// A printable ASCII byte, never whitespace.
pub open spec fn is_printable(b: u8) -> bool {
    33 <= b <= 126
}

proof fn lemma_bytes_concat(a: Seq<u8>, b: Seq<u8>, p: spec_fn(u8) -> bool)
    requires
        forall|i: int| 0 <= i < a.len() ==> p(a[i]),
        forall|i: int| 0 <= i < b.len() ==> p(b[i]),
    ensures
        forall|i: int| 0 <= i < (a + b).len() ==> p((a + b)[i]),
{
    assert forall|i: int| 0 <= i < (a + b).len() implies p((a + b)[i]) by {
        if i < a.len() {
            assert((a + b)[i] == a[i]);
        } else {
            assert((a + b)[i] == b[i - a.len()]);
        }
    }
}

proof fn lemma_dec_printable(n: nat)
    ensures
        forall|i: int| 0 <= i < spec_dec(n).len() ==> is_printable(#[trigger] spec_dec(n)[i]),
        spec_dec(n).len() > 0,
    decreases n,
{
    if n < 10 {
    } else {
        lemma_dec_printable(n / 10);
        assert forall|i: int| 0 <= i < spec_dec(n).len() implies is_printable(
            #[trigger] spec_dec(n)[i],
        ) by {
            if i < spec_dec(n / 10).len() {
                assert(spec_dec(n)[i] == spec_dec(n / 10)[i]);
            } else {
                assert(spec_dec(n)[i] == (48 + n % 10) as u8);
            }
        }
    }
}

proof fn lemma_hex_printable(n: nat)
    ensures
        forall|i: int| 0 <= i < spec_hex(n).len() ==> is_printable(#[trigger] spec_hex(n)[i]),
        spec_hex(n).len() > 0,
    decreases n,
{
    if n < 16 {
    } else {
        lemma_hex_printable(n / 16);
        assert forall|i: int| 0 <= i < spec_hex(n).len() implies is_printable(
            #[trigger] spec_hex(n)[i],
        ) by {
            if i < spec_hex(n / 16).len() {
                assert(spec_hex(n)[i] == spec_hex(n / 16)[i]);
            }
        }
    }
}

proof fn lemma_addr_text_printable(a: IpAddrWithScopeId)
    ensures
        forall|i: int|
            0 <= i < crate::addr::spec_addr_text(a).len() ==> is_printable(
                #[trigger] crate::addr::spec_addr_text(a)[i],
            ),
{
    let p = |b: u8| is_printable(b);
    match a {
        IpAddrWithScopeId::V4 { octets } => {
            lemma_dec_printable(octets[0] as nat);
            lemma_dec_printable(octets[1] as nat);
            lemma_dec_printable(octets[2] as nat);
            lemma_dec_printable(octets[3] as nat);
            let d0 = spec_dec(octets[0] as nat);
            let d1 = spec_dec(octets[1] as nat);
            let d2 = spec_dec(octets[2] as nat);
            let d3 = spec_dec(octets[3] as nat);
            let dot = seq![46u8];
            assert(dot[0] == 46);
            lemma_bytes_concat(d0, dot, p);
            lemma_bytes_concat(d0 + dot, d1, p);
            lemma_bytes_concat(d0 + dot + d1, dot, p);
            lemma_bytes_concat(d0 + dot + d1 + dot, d2, p);
            lemma_bytes_concat(d0 + dot + d1 + dot + d2, dot, p);
            lemma_bytes_concat(d0 + dot + d1 + dot + d2 + dot, d3, p);
        },
        IpAddrWithScopeId::V6 { segments, .. } => {
            let h0 = spec_hex(segments[0] as nat);
            let h1 = spec_hex(segments[1] as nat);
            let h2 = spec_hex(segments[2] as nat);
            let h3 = spec_hex(segments[3] as nat);
            let h4 = spec_hex(segments[4] as nat);
            let h5 = spec_hex(segments[5] as nat);
            let h6 = spec_hex(segments[6] as nat);
            let h7 = spec_hex(segments[7] as nat);
            lemma_hex_printable(segments[0] as nat);
            lemma_hex_printable(segments[1] as nat);
            lemma_hex_printable(segments[2] as nat);
            lemma_hex_printable(segments[3] as nat);
            lemma_hex_printable(segments[4] as nat);
            lemma_hex_printable(segments[5] as nat);
            lemma_hex_printable(segments[6] as nat);
            lemma_hex_printable(segments[7] as nat);
            let c = seq![58u8];
            assert(c[0] == 58);
            let t1 = h0 + c;
            lemma_bytes_concat(h0, c, p);
            let t2 = t1 + h1;
            lemma_bytes_concat(t1, h1, p);
            let t3 = t2 + c;
            lemma_bytes_concat(t2, c, p);
            let t4 = t3 + h2;
            lemma_bytes_concat(t3, h2, p);
            let t5 = t4 + c;
            lemma_bytes_concat(t4, c, p);
            let t6 = t5 + h3;
            lemma_bytes_concat(t5, h3, p);
            let t7 = t6 + c;
            lemma_bytes_concat(t6, c, p);
            let t8 = t7 + h4;
            lemma_bytes_concat(t7, h4, p);
            let t9 = t8 + c;
            lemma_bytes_concat(t8, c, p);
            let t10 = t9 + h5;
            lemma_bytes_concat(t9, h5, p);
            let t11 = t10 + c;
            lemma_bytes_concat(t10, c, p);
            let t12 = t11 + h6;
            lemma_bytes_concat(t11, h6, p);
            let t13 = t12 + c;
            lemma_bytes_concat(t12, c, p);
            lemma_bytes_concat(t13, h7, p);
        },
    }
}

/// Every byte of the textual endpoint is printable, so the LOCATION value it
/// feeds is a legal, trimmed header value.
pub proof fn lemma_endpoint_text_printable(a: IpAddrWithScopeId, port: u16)
    ensures
        forall|i: int|
            0 <= i < spec_endpoint_text(a, port).len() ==> is_printable(
                #[trigger] spec_endpoint_text(a, port)[i],
            ),
        spec_endpoint_text(a, port).len() > 0,
{
    let p = |b: u8| is_printable(b);
    lemma_addr_text_printable(a);
    lemma_dec_printable(port as nat);
    let at = crate::addr::spec_addr_text(a);
    let dp = spec_dec(port as nat);
    if spec_is_ipv4(a) {
        let c = seq![58u8];
        assert(c[0] == 58);
        lemma_bytes_concat(at, c, p);
        lemma_bytes_concat(at + c, dp, p);
    } else {
        let ob = seq![91u8];
        let cb = seq![93u8, 58u8];
        assert(ob[0] == 91);
        assert(cb[0] == 93 && cb[1] == 58);
        lemma_bytes_concat(ob, at, p);
        lemma_bytes_concat(ob + at, cb, p);
        lemma_bytes_concat(ob + at + cb, dp, p);
    }
}

proof fn lemma_printable_value(s: Seq<u8>)
    requires
        s.len() > 0,
        forall|i: int| 0 <= i < s.len() ==> is_printable(#[trigger] s[i]),
    ensures
        valid_value(s),
        !is_ascii_ws(s[0]),
        !is_ascii_ws(s[s.len() - 1]),
{
    assert forall|i: int| 0 <= i < s.len() implies is_value_byte(s[i]) by {
        assert(is_printable(s[i]));
    }
}

/// Builds one announcement for the given interface endpoint: the NOTIFY the
/// sender multicasts, alive or byebye. The result is well formed, so decoding
/// what was sent yields it back.
pub fn build_ssdp_message(
    addr: &IpAddrWithScopeId,
    port: u16,
    nts: NotificationSubtype,
    version: &AgentVersion,
) -> (m: HttpMessage)
    ensures
        m@ == spec_notify_message(
            spec_is_ipv4(*addr),
            spec_endpoint_text(*addr, port),
            nts,
            *version,
        ),
        msg_well_formed(m@),
{
    proof {
        reveal_strlit("NOTIFY");
        reveal_strlit("*");
        reveal_strlit("HOST");
        reveal_strlit("NT");
        reveal_strlit("USER-AGENT");
        reveal_strlit("NTS");
        reveal_strlit("CACHE-CONTROL");
        reveal_strlit("LOCATION");
        reveal_strlit("MAN");
        reveal_strlit("239.255.255.250:1900");
        reveal_strlit("[ff05::c]:1900");
        reveal_strlit("urn:dragon-claw:service:DragonClawAgent:1");
        reveal_strlit("DragonClaw/");
        reveal_strlit("ssdp:alive");
        reveal_strlit("ssdp:byebye");
        reveal_strlit("max-age=30");
        reveal_strlit("tcp://");
        reveal_strlit("ssdp:discover");
    }
    let method = ascii_vec("NOTIFY");
    let target = ascii_vec("*");
    let mut headers: Vec<HttpHeader> = Vec::new();

    let host_value = if addr.is_ipv4() {
        ascii_vec("239.255.255.250:1900")
    } else {
        ascii_vec("[ff05::c]:1900")
    };
    headers.push(HttpHeader { name: ascii_vec("HOST"), value: host_value });

    headers.push(HttpHeader { name: ascii_vec("NT"), value: service_type_bytes() });

    let mut ua = ascii_vec("DragonClaw/");
    let d_major = dec_bytes(version.major);
    crate::addr::append_vec(&mut ua, &d_major);
    ua.push(46);
    let d_minor = dec_bytes(version.minor);
    crate::addr::append_vec(&mut ua, &d_minor);
    ua.push(46);
    let d_patch = dec_bytes(version.patch);
    crate::addr::append_vec(&mut ua, &d_patch);
    proof {
        assert(ua@ =~= spec_user_agent(*version));
    }
    headers.push(HttpHeader { name: ascii_vec("USER-AGENT"), value: ua });

    let nts_value = match nts {
        NotificationSubtype::Alive => ascii_vec("ssdp:alive"),
        NotificationSubtype::ByeBye => ascii_vec("ssdp:byebye"),
    };
    headers.push(HttpHeader { name: ascii_vec("NTS"), value: nts_value });

    headers.push(HttpHeader { name: ascii_vec("CACHE-CONTROL"), value: ascii_vec("max-age=30") });

    let mut location = ascii_vec("tcp://");
    let ep = addr.endpoint_text(port);
    crate::addr::append_vec(&mut location, &ep);
    headers.push(HttpHeader { name: ascii_vec("LOCATION"), value: location });

    let mut man: Vec<u8> = Vec::new();
    man.push(34);
    let discover = ascii_vec("ssdp:discover");
    crate::addr::append_vec(&mut man, &discover);
    man.push(34);
    proof {
        assert(man@ =~= seq![34u8] + ascii_seq("ssdp:discover"@) + seq![34u8]);
    }
    headers.push(HttpHeader { name: ascii_vec("MAN"), value: man });

    let m = HttpMessage { method, target, version: HttpVersion::V11, headers };
    let ghost model = spec_notify_message(
        spec_is_ipv4(*addr),
        spec_endpoint_text(*addr, port),
        nts,
        *version,
    );
    proof {
        assert(m.headers@.map_values(|h: HttpHeader| h@) =~= model.3);
        assert(m@ == model);
        lemma_notify_well_formed(spec_is_ipv4(*addr), *addr, port, nts, *version);
    }
    m
}

/// Every announcement the agent builds is well formed.
proof fn lemma_notify_well_formed(
    v4: bool,
    addr: IpAddrWithScopeId,
    port: u16,
    nts: NotificationSubtype,
    version: AgentVersion,
)
    requires
        v4 == spec_is_ipv4(addr),
    ensures
        msg_well_formed(spec_notify_message(v4, spec_endpoint_text(addr, port), nts, version)),
{
    reveal_strlit("NOTIFY");
    reveal_strlit("*");
    reveal_strlit("HOST");
    reveal_strlit("NT");
    reveal_strlit("USER-AGENT");
    reveal_strlit("NTS");
    reveal_strlit("CACHE-CONTROL");
    reveal_strlit("LOCATION");
    reveal_strlit("MAN");
    reveal_strlit("239.255.255.250:1900");
    reveal_strlit("[ff05::c]:1900");
    reveal_strlit("urn:dragon-claw:service:DragonClawAgent:1");
    reveal_strlit("DragonClaw/");
    reveal_strlit("ssdp:alive");
    reveal_strlit("ssdp:byebye");
    reveal_strlit("max-age=30");
    reveal_strlit("tcp://");
    reveal_strlit("ssdp:discover");
    let p = |b: u8| is_printable(b);
    let m = spec_notify_message(v4, spec_endpoint_text(addr, port), nts, version);
    assert(valid_token(m.0)) by {
        assert forall|i: int| 0 <= i < m.0.len() implies is_tchar(m.0[i]) by {
            assert(m.0[i] == ("NOTIFY"@[i] as u8));
        }
    }
    assert(crate::codec::valid_target(m.1)) by {
        assert(m.1[0] == ("*"@[0] as u8));
    }
    // Header names are tokens.
    assert(valid_token(ascii_seq("HOST"@)));
    assert(valid_token(ascii_seq("NT"@)));
    assert(valid_token(ascii_seq("USER-AGENT"@)));
    assert(valid_token(ascii_seq("NTS"@)));
    assert(valid_token(ascii_seq("CACHE-CONTROL"@)));
    assert(valid_token(ascii_seq("LOCATION"@)));
    assert(valid_token(ascii_seq("MAN"@)));
    // Header values are non-empty printable runs.
    let host = spec_host_value(v4);
    assert(host.len() > 0 && forall|i: int| 0 <= i < host.len() ==> is_printable(#[trigger] host[i]));
    lemma_printable_value(host);
    let nt = spec_service_type();
    assert(nt.len() > 0 && forall|i: int| 0 <= i < nt.len() ==> is_printable(#[trigger] nt[i]));
    lemma_printable_value(nt);
    let ua_lit = ascii_seq("DragonClaw/"@);
    assert(forall|i: int| 0 <= i < ua_lit.len() ==> is_printable(#[trigger] ua_lit[i]));
    lemma_dec_printable(version.major as nat);
    lemma_dec_printable(version.minor as nat);
    lemma_dec_printable(version.patch as nat);
    let dot = seq![46u8];
    assert(dot[0] == 46);
    let ua1 = ua_lit + spec_dec(version.major as nat);
    lemma_bytes_concat(ua_lit, spec_dec(version.major as nat), p);
    let ua2 = ua1 + dot;
    lemma_bytes_concat(ua1, dot, p);
    let ua3 = ua2 + spec_dec(version.minor as nat);
    lemma_bytes_concat(ua2, spec_dec(version.minor as nat), p);
    let ua4 = ua3 + dot;
    lemma_bytes_concat(ua3, dot, p);
    let ua5 = ua4 + spec_dec(version.patch as nat);
    lemma_bytes_concat(ua4, spec_dec(version.patch as nat), p);
    assert(ua5 == spec_user_agent(version));
    lemma_printable_value(ua5);
    let ntsv = spec_nts_value(nts);
    assert(ntsv.len() > 0 && forall|i: int| 0 <= i < ntsv.len() ==> is_printable(
        #[trigger] ntsv[i],
    )) by {
        match nts {
            NotificationSubtype::Alive => {},
            NotificationSubtype::ByeBye => {},
        }
    }
    lemma_printable_value(ntsv);
    let cc = ascii_seq("max-age=30"@);
    assert(cc.len() > 0 && forall|i: int| 0 <= i < cc.len() ==> is_printable(#[trigger] cc[i]));
    lemma_printable_value(cc);
    let loc_lit = ascii_seq("tcp://"@);
    assert(forall|i: int| 0 <= i < loc_lit.len() ==> is_printable(#[trigger] loc_lit[i]));
    lemma_endpoint_text_printable(addr, port);
    let loc = loc_lit + spec_endpoint_text(addr, port);
    lemma_bytes_concat(loc_lit, spec_endpoint_text(addr, port), p);
    lemma_printable_value(loc);
    let q = seq![34u8];
    assert(q[0] == 34);
    let disc = ascii_seq("ssdp:discover"@);
    assert(forall|i: int| 0 <= i < disc.len() ==> is_printable(#[trigger] disc[i]));
    let man1 = q + disc;
    lemma_bytes_concat(q, disc, p);
    let man = man1 + q;
    lemma_bytes_concat(man1, q, p);
    assert(man == seq![34u8] + ascii_seq("ssdp:discover"@) + seq![34u8]);
    lemma_printable_value(man);
    assert forall|i: int| 0 <= i < m.3.len() implies header_well_formed(#[trigger] m.3[i]) by {
        if i == 0 {
            assert(m.3[i] == (ascii_seq("HOST"@), host));
        } else if i == 1 {
            assert(m.3[i] == (ascii_seq("NT"@), nt));
        } else if i == 2 {
            assert(m.3[i] == (ascii_seq("USER-AGENT"@), spec_user_agent(version)));
        } else if i == 3 {
            assert(m.3[i] == (ascii_seq("NTS"@), ntsv));
        } else if i == 4 {
            assert(m.3[i] == (ascii_seq("CACHE-CONTROL"@), cc));
        } else if i == 5 {
            assert(m.3[i] == (ascii_seq("LOCATION"@), loc));
        } else {
            assert(m.3[i] == (ascii_seq("MAN"@), man));
        }
    }
}

/// The value of the first header with the given (lower-case) name.
pub open spec fn spec_header_lookup(hs: Seq<(Seq<u8>, Seq<u8>)>, name: Seq<u8>) -> Option<Seq<u8>>
    decreases hs.len(),
{
    if hs.len() == 0 {
        None
    } else if hs[0].0 == name {
        Some(hs[0].1)
    } else {
        spec_header_lookup(hs.drop_first(), name)
    }
}

/// A decoded message solicits an announcement exactly when it is an
/// `M-SEARCH` whose `ST` header equals the service type. Decoded header
/// names are lower case, so the lookup name is `st`.
pub open spec fn spec_is_matching_search(m: MessageModel) -> bool {
    m.0 == ascii_seq("M-SEARCH"@) && spec_header_lookup(m.3, ascii_seq("st"@)) == Some(
        spec_service_type(),
    )
}

/// Returns whether the message solicits an announcement.
pub fn is_matching_search(m: &HttpMessage) -> (r: bool)
    ensures
        r == spec_is_matching_search(m@),
{
    proof {
        reveal_strlit("M-SEARCH");
        reveal_strlit("st");
    }
    let msearch = ascii_vec("M-SEARCH");
    if !bytes_eq(m.method.as_slice(), msearch.as_slice()) {
        return false;
    }
    let st_name = ascii_vec("st");
    let st = service_type_bytes();
    let ghost models = m@.3;
    proof {
        assert(models.skip(0int) =~= models);
    }
    let mut i: usize = 0;
    while i < m.headers.len()
        invariant
            0 <= i <= m.headers@.len(),
            models == m.headers@.map_values(|h: HttpHeader| h@),
            models.len() == m.headers@.len(),
            st_name@ == ascii_seq("st"@),
            st@ == spec_service_type(),
            m@.0 == ascii_seq("M-SEARCH"@),
            m@.3 == models,
            spec_header_lookup(models, st_name@) == spec_header_lookup(
                models.skip(i as int),
                st_name@,
            ),
        decreases m.headers@.len() - i,
    {
        if bytes_eq(m.headers[i].name.as_slice(), st_name.as_slice()) {
            proof {
                assert(models.skip(i as int)[0] == models[i as int]);
                assert(models[i as int] == m.headers@[i as int]@);
                assert(models[i as int].0 == st_name@);
                assert(spec_header_lookup(models.skip(i as int), st_name@) == Some(
                    models[i as int].1,
                ));
            }
            let res = bytes_eq(m.headers[i].value.as_slice(), st.as_slice());
            proof {
                assert(res == (models[i as int].1 == spec_service_type()));
            }
            return res;
        }
        proof {
            assert(models.skip(i as int)[0] == models[i as int]);
            assert(models.skip(i as int).drop_first() =~= models.skip(i + 1));
        }
        i += 1;
    }
    proof {
        assert(models.skip(models.len() as int).len() == 0);
    }
    false
}

/// Whether any decoded message solicits an announcement.
pub open spec fn spec_any_search(ms: Seq<MessageModel>) -> bool {
    exists|i: int| 0 <= i < ms.len() && spec_is_matching_search(ms[i])
}

/// What one receiver pass found: the decoded messages, whether the senders
/// must be woken, and whether the buffer overflowed and was cleared.
pub struct ReceiveOutcome {
    pub messages: Vec<HttpMessage>,
    pub notify: bool,
    pub cleared: bool,
}

/// Handles the bytes gathered so far by a receiver: decodes every complete
/// message, asks for a sender wake-up when one of them solicits it, and
/// clears the buffer when the undecoded remainder has outgrown the cap.
pub fn receive_step(buffer: &mut Vec<u8>) -> (r: ReceiveOutcome)
    ensures
        r.messages@.map_values(|m: HttpMessage| m@) == spec_decode(old(buffer)@).0,
        r.notify == spec_any_search(spec_decode(old(buffer)@).0),
        r.cleared == (spec_decode(old(buffer)@).1.len() > RECEIVE_BUFFER_CAP as int),
        final(buffer)@ == if spec_decode(old(buffer)@).1.len() > RECEIVE_BUFFER_CAP as int {
            Seq::<u8>::empty()
        } else {
            spec_decode(old(buffer)@).1
        },
{
    let messages = decode_messages(buffer);
    let ghost models = messages@.map_values(|m: HttpMessage| m@);
    let mut cleared = false;
    if buffer.len() > RECEIVE_BUFFER_CAP {
        buffer.clear();
        cleared = true;
    }
    let mut notify = false;
    let mut i: usize = 0;
    while i < messages.len()
        invariant
            0 <= i <= messages@.len(),
            models == messages@.map_values(|m: HttpMessage| m@),
            models.len() == messages@.len(),
            notify == spec_any_search(models.take(i as int)),
        decreases messages@.len() - i,
    {
        if is_matching_search(&messages[i]) {
            notify = true;
        }
        proof {
            let pre = models.take(i as int);
            let now = models.take(i + 1);
            if spec_is_matching_search(models[i as int]) {
                assert(now[i as int] == models[i as int]);
                assert(spec_any_search(now));
            } else {
                if spec_any_search(now) {
                    let j = choose|j: int| 0 <= j < now.len() && spec_is_matching_search(now[j]);
                    if j < i as int {
                        assert(pre[j] == now[j]);
                        assert(spec_any_search(pre));
                    } else {
                        assert(now[j] == models[i as int]);
                    }
                } else {
                    if spec_any_search(pre) {
                        let j = choose|j: int|
                            0 <= j < pre.len() && spec_is_matching_search(pre[j]);
                        assert(now[j] == pre[j]);
                        assert(spec_any_search(now));
                    }
                }
            }
        }
        i += 1;
    }
    proof {
        assert(models.take(models.len() as int) =~= models);
    }
    ReceiveOutcome { messages, notify, cleared }
}

/// A matching search among the decoded messages makes the pass ask for a
/// wake-up.
pub proof fn lemma_search_sets_notify(ms: Seq<MessageModel>, i: int)
    requires
        0 <= i < ms.len(),
        spec_is_matching_search(ms[i]),
    ensures
        spec_any_search(ms),
{
}

/// One announcement sender, bound to one interface endpoint. It announces
/// the service periodically and retracts it once, when told to shut down.
pub struct SsdpSender {
    pub addr: IpAddrWithScopeId,
    pub port: u16,
    pub finished: bool,
    pub byebyes_sent: u32,
}

/// The sender bookkeeping invariant: exactly one byebye has been sent when
/// and only when the sender has finished.
pub open spec fn sender_inv(s: SsdpSender) -> bool {
    s.byebyes_sent == if s.finished {
        1int
    } else {
        0int
    }
}

impl SsdpSender {
    /// A fresh sender for one interface endpoint: running, nothing retracted.
    pub fn new(addr: IpAddrWithScopeId, port: u16) -> (r: Self)
        ensures
            r.addr == addr,
            r.port == port,
            !r.finished,
            r.byebyes_sent == 0,
            sender_inv(r),
    {
        SsdpSender { addr, port, finished: false, byebyes_sent: 0 }
    }

    /// One wake of the sender, from the periodic timer or a notifier. With
    /// the shutdown flag clear it stays running and announces the service
    /// alive; with the flag set it finishes and retracts it, exactly once.
    pub fn on_wake(&mut self, shutdown: bool, version: &AgentVersion) -> (msg: HttpMessage)
        requires
            !old(self).finished,
            sender_inv(*old(self)),
        ensures
            sender_inv(*final(self)),
            final(self).addr == old(self).addr,
            final(self).port == old(self).port,
            final(self).finished == shutdown,
            final(self).byebyes_sent == if shutdown {
                1int
            } else {
                0int
            },
            msg@ == spec_notify_message(
                spec_is_ipv4(old(self).addr),
                spec_endpoint_text(old(self).addr, old(self).port),
                if shutdown {
                    NotificationSubtype::ByeBye
                } else {
                    NotificationSubtype::Alive
                },
                *version,
            ),
            msg_well_formed(msg@),
    {
        let nts = if shutdown {
            NotificationSubtype::ByeBye
        } else {
            NotificationSubtype::Alive
        };
        let msg = build_ssdp_message(&self.addr, self.port, nts, version);
        if shutdown {
            self.finished = true;
            self.byebyes_sent = self.byebyes_sent + 1;
        }
        msg
    }
}

/// A finished sender has retracted the service exactly once.
pub proof fn lemma_byebye_exactly_once(s: SsdpSender)
    requires
        sender_inv(s),
        s.finished,
    ensures
        s.byebyes_sent == 1,
{
}

/// One announcement session: a sender per interface endpoint, and the
/// shutdown flag they all observe on their next wake.
pub struct SsdpSession {
    pub senders: Vec<SsdpSender>,
    pub shutdown: bool,
}

/// The session invariant: every sender keeps its own bookkeeping invariant,
/// and while the session is not shutting down, no sender has finished.
pub open spec fn session_inv(s: SsdpSession) -> bool {
    forall|i: int|
        0 <= i < s.senders@.len() ==> sender_inv(#[trigger] s.senders@[i]) && (!s.shutdown
            ==> !s.senders@[i].finished)
}

impl SsdpSession {
    /// A session announcing on the given interface addresses, one sender
    /// each, all running.
    pub fn create(addrs: &Vec<IpAddrWithScopeId>, port: u16) -> (r: Self)
        ensures
            session_inv(r),
            !r.shutdown,
            r.senders@.len() == addrs@.len(),
            forall|i: int|
                0 <= i < addrs@.len() ==> (#[trigger] r.senders@[i]).addr == addrs@[i]
                    && r.senders@[i].port == port && !r.senders@[i].finished,
    {
        let mut senders: Vec<SsdpSender> = Vec::new();
        let mut i: usize = 0;
        while i < addrs.len()
            invariant
                0 <= i <= addrs@.len(),
                senders@.len() == i,
                forall|j: int|
                    0 <= j < i ==> (#[trigger] senders@[j]).addr == addrs@[j] && senders@[j].port
                        == port && !senders@[j].finished && senders@[j].byebyes_sent == 0,
            decreases addrs@.len() - i,
        {
            senders.push(SsdpSender::new(addrs[i], port));
            i += 1;
        }
        SsdpSession { senders, shutdown: false }
    }

    /// Begins the stop: raises the flag. Each sender observes it on its
    /// next wake, retracts the service once and finishes.
    pub fn request_stop(&mut self)
        requires
            session_inv(*old(self)),
        ensures
            session_inv(*final(self)),
            final(self).shutdown,
            final(self).senders == old(self).senders,
    {
        self.shutdown = true;
    }
}

/// Once a session has shut down and every sender has observed it, each
/// active sender has retracted the service exactly once.
pub proof fn lemma_session_retracts_each_sender_once(s: SsdpSession)
    requires
        session_inv(s),
        forall|i: int| 0 <= i < s.senders@.len() ==> (#[trigger] s.senders@[i]).finished,
    ensures
        forall|i: int| 0 <= i < s.senders@.len() ==> (#[trigger] s.senders@[i]).byebyes_sent == 1,
{
}

/// The addresses a session announces on: the caller's address alone when it
/// is specific, else every local address.
pub fn select_announce_addresses(
    bind_unspecified: bool,
    bind_addr: IpAddrWithScopeId,
    locals: Vec<IpAddrWithScopeId>,
) -> (r: Vec<IpAddrWithScopeId>)
    ensures
        r@ == if bind_unspecified {
            locals@
        } else {
            seq![bind_addr]
        },
{
    if bind_unspecified {
        locals
    } else {
        let mut v: Vec<IpAddrWithScopeId> = Vec::new();
        v.push(bind_addr);
        proof {
            assert(v@ =~= seq![bind_addr]);
        }
        v
    }
}

/// How the one receiver of an address family is set up: the family decides
/// the socket domain and the multicast group, and the group is joined once
/// per local address of the family.
pub struct ReceiverPlan {
    /// The family: an IPv4 receiver when true, else IPv6.
    pub v4: bool,
    /// The local addresses on which to join the multicast group.
    pub group_joins: Vec<IpAddrWithScopeId>,
}

/// Plans the receiver of one address family: none when the family has no
/// address; otherwise the family of the first address with a join for every
/// address.
pub fn plan_receiver(addrs: &Vec<IpAddrWithScopeId>) -> (r: Option<ReceiverPlan>)
    ensures
        r is Some <==> addrs@.len() > 0,
        r is Some ==> r->0.v4 == spec_is_ipv4(addrs@[0]) && r->0.group_joins@ == addrs@,
{
    if addrs.len() == 0 {
        return None;
    }
    let v4 = addrs[0].is_ipv4();
    let mut joins: Vec<IpAddrWithScopeId> = Vec::new();
    let mut i: usize = 0;
    while i < addrs.len()
        invariant
            0 <= i <= addrs@.len(),
            joins@ == addrs@.take(i as int),
        decreases addrs@.len() - i,
    {
        joins.push(addrs[i]);
        proof {
            assert(joins@ =~= addrs@.take(i + 1));
        }
        i += 1;
    }
    proof {
        assert(joins@ =~= addrs@);
    }
    Some(ReceiverPlan { v4, group_joins: joins })
}

/// The verdict after binding: a session exists only if at least one family
/// receiver bound; with none, setup fails with `AddressNotAvailable`.
pub fn ssdp_setup_outcome(receivers_bound: usize) -> (r: Result<(), PlatformAbstractionError>)
    ensures
        r is Ok <==> receivers_bound > 0,
        r is Err ==> r == Result::<(), PlatformAbstractionError>::Err(
            PlatformAbstractionError::Io(IoErrorKind::AddressNotAvailable),
        ),
{
    if receivers_bound == 0 {
        Err(PlatformAbstractionError::Io(IoErrorKind::AddressNotAvailable))
    } else {
        Ok(())
    }
}

/// With only loopback interfaces, both address families come out empty, so
/// no receiver can bind and setup must report `AddressNotAvailable`.
pub proof fn lemma_loopback_only_leaves_no_family(addrs: Seq<IpAddrWithScopeId>)
    requires
        forall|i: int| 0 <= i < addrs.len() ==> spec_is_loopback(#[trigger] addrs[i]),
    ensures
        spec_kept_v4(addrs).len() == 0,
        spec_kept_v6(addrs).len() == 0,
    decreases addrs.len(),
{
    reveal(Seq::filter);
    if addrs.len() > 0 {
        let pre = addrs.drop_last();
        assert forall|i: int| 0 <= i < pre.len() implies spec_is_loopback(#[trigger] pre[i]) by {
            assert(pre[i] == addrs[i]);
        }
        lemma_loopback_only_leaves_no_family(pre);
        assert(spec_is_loopback(addrs.last()));
    }
}

} // verus!
