use vstd::prelude::*;
use vstd::string::StringSliceAdditionalSpecFns;

use crate::environment::{parse_u8, parsed_unsigned};
use crate::session::session_lifetime_seconds;

verus! {

/// Whether traces are exported.
#[derive(Clone, Copy, Debug, PartialEq, Eq)]
pub enum Tracing {
    Enabled,
    Disabled,
}

/// The secret that signs session cookies.
pub type AppSecret = [u8; 64];

/// The application secret from the value of its setting, which must be
/// exactly 64 bytes long.
pub fn get_app_secret(secret: &str) -> (secret_bytes: AppSecret)
    requires
        secret.spec_bytes().len() == 64,
    ensures
        secret_bytes@ == secret.spec_bytes(),
{
    let bytes = secret.as_bytes();
    let mut secret_bytes: AppSecret = [0u8; 64];
    let mut i: usize = 0;
    while i < 64
        invariant
            i <= 64,
            bytes@ == secret.spec_bytes(),
            bytes@.len() == 64,
            forall|j: int| 0 <= j < i ==> secret_bytes@[j] == bytes@[j],
        decreases 64 - i,
    {
        secret_bytes[i] = bytes[i];
        i = i + 1;
    }
    proof {
        assert(secret_bytes@ =~= bytes@);
    }
    secret_bytes
}

/// How the session cookie is configured.
#[derive(Debug, Clone, Copy, PartialEq, Eq)]
pub struct SessionSettings {
    /// Only sessions that already exist are stored again.
    pub existing_only: bool,
    /// How long a session lives, in seconds.
    pub ttl_seconds: u64,
    /// The cookie is sent to the site that set it only (`SameSite=Strict`).
    pub same_site_strict: bool,
    /// The cookie is hidden from scripts.
    pub http_only: bool,
    /// The cookie is sent over HTTPS only.
    pub secure: bool,
}

/// The session cookie configuration for a lifetime in minutes and the
/// secure-cookie setting.
pub fn build_session_layer(session_duration_minutes: u64, is_secure_cookie: bool) -> (settings: SessionSettings)
    requires
        session_duration_minutes * 60 <= u64::MAX,
    ensures
        settings.existing_only,
        settings.ttl_seconds == session_duration_minutes * 60,
        settings.same_site_strict,
        settings.http_only,
        settings.secure == is_secure_cookie,
{
    SessionSettings {
        existing_only: true,
        ttl_seconds: session_lifetime_seconds(session_duration_minutes),
        same_site_strict: true,
        http_only: true,
        secure: is_secure_cookie,
    }
}

// ---------------------------------------------------------------------------
// Socket addresses
// ---------------------------------------------------------------------------

/// An IPv4 address and a port.
#[derive(Debug, Clone, Copy, PartialEq, Eq)]
pub struct SocketAddress {
    pub ip: [u8; 4],
    pub port: u16,
}

/// Why a text is not an IPv4 address.
#[derive(Debug, Clone, Copy, PartialEq, Eq)]
pub enum AddressError {
    /// A part between dots is not a number from 0 to 255.
    InvalidOctet,
    /// There are not exactly four parts.
    WrongOctetCount,
}

/// The parts of `text` between occurrences of `sep`, as `str::split` gives
/// them (an empty text has one empty part).
pub open spec fn split_on(text: Seq<char>, sep: char) -> Seq<Seq<char>>
    decreases text.len(),
{
    if text.len() == 0 {
        seq![Seq::<char>::empty()]
    } else {
        let earlier = split_on(text.drop_last(), sep);
        if text.last() == sep {
            earlier.push(Seq::empty())
        } else {
            earlier.update(earlier.len() - 1, earlier.last().push(text.last()))
        }
    }
}

/// Every part reads as a `u8`.
pub open spec fn all_octets(parts: Seq<Seq<char>>) -> bool {
    forall|i: int| 0 <= i < parts.len() ==> (#[trigger] parsed_unsigned(parts[i], 255)) is Some
}

/// The octets of a dotted IPv4 address: an error if some part is not a
/// `u8`, else an error if there are not four parts, else the four values.
pub open spec fn parsed_ipv4(text: Seq<char>) -> Result<Seq<u8>, AddressError> {
    let parts = split_on(text, '.');
    if !all_octets(parts) {
        Err(AddressError::InvalidOctet)
    } else if parts.len() != 4 {
        Err(AddressError::WrongOctetCount)
    } else {
        Ok(Seq::new(4, |i: int| parsed_unsigned(parts[i], 255)->0 as u8))
    }
}

proof fn lemma_split_nonempty(text: Seq<char>, sep: char)
    ensures
        split_on(text, sep).len() >= 1,
        split_on(text, sep).len() <= text.len() + 1,
    decreases text.len(),
{
    if text.len() > 0 {
        lemma_split_nonempty(text.drop_last(), sep);
    }
}

/// Reads a dotted IPv4 address.
pub fn parse_ipv4(text: &str) -> (octets: Result<[u8; 4], AddressError>)
    ensures
        match octets {
            Ok(o) => parsed_ipv4(text@) == Ok::<Seq<u8>, AddressError>(o@),
            Err(e) => parsed_ipv4(text@) == Err::<Seq<u8>, AddressError>(e),
        },
{
    let n = text.unicode_len();
    let mut values: Vec<u8> = Vec::new();
    let mut invalid = false;
    let mut start: usize = 0;
    let mut i: usize = 0;
    proof {
        assert(text@.take(0) =~= Seq::<char>::empty());
        assert(text@.subrange(0, 0) =~= Seq::<char>::empty());
    }
    while i < n
        invariant
            i <= n,
            n == text@.len(),
            start <= i,
            ({
                let parts = split_on(text@.take(i as int), '.');
                &&& parts.len() >= 1
                &&& parts.last() == text@.subrange(start as int, i as int)
                &&& invalid == !all_octets(parts.drop_last())
                &&& !invalid ==> values@.len() == parts.len() - 1
                &&& !invalid ==> forall|k: int|
                    0 <= k < values@.len() ==> parsed_unsigned(parts[k], 255) == Some(
                        values@[k] as nat,
                    )
            }),
        decreases n - i,
    {
        let c = text.get_char(i);
        let ghost parts = split_on(text@.take(i as int), '.');
        proof {
            assert(text@.take(i + 1).drop_last() =~= text@.take(i as int));
            assert(text@.take(i + 1).last() == c);
            lemma_split_nonempty(text@.take(i as int), '.');
        }
        if c == '.' {
            let segment = text.substring_char(start, i);
            let value = parse_u8(segment);
            let ghost next = split_on(text@.take(i + 1), '.');
            proof {
                assert(next =~= parts.push(Seq::<char>::empty()));
                assert(next.drop_last() =~= parts);
                assert(parts =~= parts.drop_last().push(parts.last()));
            }
            match value {
                Some(v) => {
                    if !invalid {
                        values.push(v);
                    }
                },
                None => {
                    invalid = true;
                },
            }
            proof {
                if !all_octets(parts.drop_last()) {
                    let k = choose|k: int|
                        0 <= k < parts.drop_last().len() && !(parsed_unsigned(parts.drop_last()[k], 255) is Some);
                    assert(parts[k] == parts.drop_last()[k]);
                }
                if value is None {
                    assert(!(parsed_unsigned(parts[parts.len() - 1], 255) is Some));
                }
                if all_octets(parts.drop_last()) && value is Some {
                    assert forall|k: int| 0 <= k < parts.len() implies (#[trigger] parsed_unsigned(parts[k], 255)) is Some by {
                        if k < parts.len() - 1 {
                            assert(parts[k] == parts.drop_last()[k]);
                        }
                    }
                }
                assert(next.last() =~= text@.subrange(i + 1, i + 1));
            }
            start = i + 1;
        } else {
            let ghost next = split_on(text@.take(i + 1), '.');
            proof {
                assert(next =~= parts.update(parts.len() - 1, parts.last().push(c)));
                assert(next.drop_last() =~= parts.drop_last());
                assert(next.last() =~= text@.subrange(start as int, i + 1));
            }
        }
        i = i + 1;
    }
    let last = text.substring_char(start, n);
    let last_value = parse_u8(last);
    let ghost parts = split_on(text@, '.');
    proof {
        assert(text@.take(n as int) =~= text@);
        assert(parts =~= parts.drop_last().push(parts.last()));
    }
    let all_valid = !invalid && last_value.is_some();
    proof {
        if all_valid {
            assert forall|k: int| 0 <= k < parts.len() implies (#[trigger] parsed_unsigned(parts[k], 255)) is Some by {
                if k < parts.len() - 1 {
                    assert(parts[k] == parts.drop_last()[k]);
                }
            }
        } else if !invalid {
            assert(!(parsed_unsigned(parts[parts.len() - 1], 255) is Some));
        } else {
            let k = choose|k: int|
                0 <= k < parts.drop_last().len() && !(parsed_unsigned(parts.drop_last()[k], 255) is Some);
            assert(parts[k] == parts.drop_last()[k]);
        }
    }
    if !all_valid {
        return Err(AddressError::InvalidOctet);
    }
    if values.len() != 3 {
        return Err(AddressError::WrongOctetCount);
    }
    let octets = [values[0], values[1], values[2], last_value.unwrap()];
    proof {
        let expected = Seq::new(4, |k: int| parsed_unsigned(parts[k], 255)->0 as u8);
        assert(octets@ =~= expected);
    }
    Ok(octets)
}

/// The socket address for a dotted IPv4 address and a port. The address
/// must read as four octets.
pub fn build_socket_from_ip_port(ipv4_address: &str, port: u16) -> (address: SocketAddress)
    requires
        parsed_ipv4(ipv4_address@) is Ok,
    ensures
        parsed_ipv4(ipv4_address@) == Ok::<Seq<u8>, AddressError>(address.ip@),
        address.port == port,
{
    match parse_ipv4(ipv4_address) {
        Ok(ip) => SocketAddress { ip, port },
        Err(_) => SocketAddress { ip: [0u8, 0u8, 0u8, 0u8], port },
    }
}

} // verus!
