//! The computer's DNS host name, kept as the wide-character units the
//! platform query returned, and the derived names the DNS-SD registration
//! needs.

use vstd::prelude::*;

verus! {

/// What a run of UTF-16 code units decodes to, when it is valid UTF-16.
pub uninterp spec fn utf16_decode(units: Seq<u16>) -> Option<Seq<char>>;

/// Relies on `String::from_utf16`: decodes UTF-16 code units into a string,
/// failing exactly on invalid UTF-16.
#[verifier::external_body]
fn utf16_to_string(units: &Vec<u16>) -> (r: Option<String>)
    ensures
        r is Some <==> utf16_decode(units@) is Some,
        r is Some ==> r->0@ == utf16_decode(units@)->0,
{
    String::from_utf16(units).ok()
}

/// The failure of turning a host name into text.
#[derive(Debug, Clone, Copy, PartialEq, Eq, Structural)]
pub enum ComputerNameError {
    /// The stored units are not valid UTF-16.
    InvalidUtf16,
}

/// The wide-character units of an ASCII text.
pub open spec fn utf16_of_ascii(s: Seq<char>) -> Seq<u16> {
    Seq::new(s.len(), |i: int| s[i] as u16)
}

/// The computer's DNS host name as wide-character units, without a
/// terminator.
pub struct ComputerName {
    dns_host_name: Vec<u16>,
}

impl ComputerName {
    /// Wraps the units of a host name as the platform query returned them.
    pub fn new(dns_host_name: Vec<u16>) -> (r: Self)
        ensures
            r@ == dns_host_name@,
    {
        ComputerName { dns_host_name }
    }

    /// Attempts to convert the DNS host name to a UTF-8 string.
    pub fn dns_host_name_to_string(&self) -> (r: Result<String, ComputerNameError>)
        ensures
            r is Ok <==> utf16_decode(self@) is Some,
            r is Ok ==> r->Ok_0@ == utf16_decode(self@)->0,
            r is Err ==> r->Err_0 == ComputerNameError::InvalidUtf16,
    {
        match utf16_to_string(&self.dns_host_name) {
            Some(s) => Ok(s),
            None => Err(ComputerNameError::InvalidUtf16),
        }
    }

    /// Deconstructs this name into the wide-character units of the DNS host
    /// name.
    pub fn into_dns_host_name(self) -> (r: Vec<u16>)
        ensures
            r@ == self@,
    {
        self.dns_host_name
    }

    /// The host name the DNS-SD registration uses: the DNS host name with
    /// `.local` appended, terminated.
    pub fn mdns_host_name(&self) -> (r: Vec<u16>)
        ensures
            r@ == self@ + utf16_of_ascii(".local"@) + seq![0u16],
    {
        proof {
            reveal_strlit(".local");
        }
        let mut out: Vec<u16> = Vec::new();
        let mut i: usize = 0;
        while i < self.dns_host_name.len()
            invariant
                0 <= i <= self@.len(),
                out@ == self@.take(i as int),
        decreases self@.len() - i,
        {
            out.push(self.dns_host_name[i]);
            proof {
                assert(out@ =~= self@.take(i + 1));
            }
            i += 1;
        }
        proof {
            assert(out@ =~= self@);
        }
        out.push(46);
        out.push(108);
        out.push(111);
        out.push(99);
        out.push(97);
        out.push(108);
        out.push(0);
        proof {
            assert(out@ =~= self@ + utf16_of_ascii(".local"@) + seq![0u16]);
        }
        out
    }
}

impl View for ComputerName {
    type V = Seq<u16>;

    closed spec fn view(&self) -> Seq<u16> {
        self.dns_host_name@
    }
}

/// The DNS-SD instance name for a service name: the name followed by the
/// fixed service type and domain, terminated.
pub fn service_instance_name(service_name: &Vec<u16>) -> (r: Vec<u16>)
    ensures
        r@ == service_name@ + utf16_of_ascii("._dragon-claw._tcp.local"@) + seq![0u16],
{
    proof {
        reveal_strlit("._dragon-claw._tcp.local");
    }
    let mut out: Vec<u16> = Vec::new();
    let mut i: usize = 0;
    while i < service_name.len()
        invariant
            0 <= i <= service_name@.len(),
            out@ == service_name@.take(i as int),
        decreases service_name@.len() - i,
    {
        out.push(service_name[i]);
        proof {
            assert(out@ =~= service_name@.take(i + 1));
        }
        i += 1;
    }
    proof {
        assert(out@ =~= service_name@);
    }
    let suffix: &str = "._dragon-claw._tcp.local";
    let suffix_bytes = crate::codec::ascii_vec(suffix);
    let mut j: usize = 0;
    while j < suffix_bytes.len()
        invariant
            0 <= j <= suffix_bytes@.len(),
            suffix_bytes@ == crate::codec::ascii_seq("._dragon-claw._tcp.local"@),
            out@ == service_name@ + utf16_of_ascii("._dragon-claw._tcp.local"@.take(j as int)),
        decreases suffix_bytes@.len() - j,
    {
        out.push(suffix_bytes[j] as u16);
        proof {
            reveal_strlit("._dragon-claw._tcp.local");
            assert(out@ =~= service_name@ + utf16_of_ascii(
                "._dragon-claw._tcp.local"@.take(j + 1),
            ));
        }
        j += 1;
    }
    proof {
        assert("._dragon-claw._tcp.local"@.take(suffix_bytes@.len() as int)
            =~= "._dragon-claw._tcp.local"@);
    }
    out.push(0);
    proof {
        assert(out@ =~= service_name@ + utf16_of_ascii("._dragon-claw._tcp.local"@)
            + seq![0u16]);
    }
    out
}

} // verus!
