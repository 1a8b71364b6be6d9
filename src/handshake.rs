//! The simple RTMP handshake: C0/C1 from the client, S0/S1/S2 from the
//! server, C2 from the client. The exchange on the socket is the caller's;
//! these functions check what the client sent and build what the server
//! sends.
use vstd::prelude::*;
use vstd::string::StringExecFns;

verus! {

/// The size of C1, C2, S1 and S2: a 4-byte time field, a 4-byte field
/// (zeroes in C1/S1, the peer's time in C2/S2) and 1528 bytes of random
/// data or their echo.
pub const HANDSHAKE_CHUNK_SIZE: usize = 1536;

/// The random part of S1.
pub const RANDOM_SIZE: usize = 1528;

pub const RTMP_VERSION: u8 = 0x03;

pub const ZEROES_NOT_ZERO: &'static str = "Zeroes field in handshake must be all zeroes";

pub const TIMESTAMP_MISMATCH: &'static str = "Echoed timestamp does not match";

pub const RANDOM_ECHO_MISMATCH: &'static str = "Random data echo does not match";

pub const CLOCK_BEFORE_EPOCH: &'static str =
    "Could not generate timestamp for handshake, clock may have gone backwards";

#[derive(Debug, PartialEq, Eq)]
pub enum HandshakeError {
    UnsupportedVersion(u8),
    ReadError,
    WriteError,
    InvalidHandshake(String),
}

/// The decimal digits of `n`.
pub open spec fn decimal(n: nat) -> Seq<char>
    decreases n,
{
    if n < 10 {
        digit_text(n)
    } else {
        decimal(n / 10) + digit_text(n % 10)
    }
}

pub open spec fn digit_text(d: nat) -> Seq<char> {
    if d == 0 {
        "0"@
    } else if d == 1 {
        "1"@
    } else if d == 2 {
        "2"@
    } else if d == 3 {
        "3"@
    } else if d == 4 {
        "4"@
    } else if d == 5 {
        "5"@
    } else if d == 6 {
        "6"@
    } else if d == 7 {
        "7"@
    } else if d == 8 {
        "8"@
    } else {
        "9"@
    }
}

fn digit(d: u8) -> (r: &'static str)
    requires
        d < 10,
    ensures
        r@ == digit_text(d as nat),
{
    match d {
        0 => "0",
        1 => "1",
        2 => "2",
        3 => "3",
        4 => "4",
        5 => "5",
        6 => "6",
        7 => "7",
        8 => "8",
        _ => "9",
    }
}

/// The text of a handshake error.
pub open spec fn error_text(e: HandshakeError) -> Seq<char> {
    match e {
        HandshakeError::UnsupportedVersion(v) => "RTMP version "@ + decimal(v as nat)
            + " is unsupported"@,
        HandshakeError::ReadError => "Failed to read from socket"@,
        HandshakeError::WriteError => "Failed to write to socket"@,
        HandshakeError::InvalidHandshake(s) => "Invalid handshake: "@ + s@,
    }
}

impl HandshakeError {
    /// The error as text.
    pub fn message(&self) -> (r: String)
        ensures
            r@ == error_text(*self),
    {
        match self {
            HandshakeError::UnsupportedVersion(v) => {
                let mut s = String::from_str("RTMP version ");
                let v = *v;
                if v >= 100 {
                    s.append(digit(v / 100));
                }
                if v >= 10 {
                    s.append(digit((v / 10) % 10));
                }
                s.append(digit(v % 10));
                s.append(" is unsupported");
                proof {
                    let n = v as nat;
                    if n >= 100 {
                        assert(decimal(n / 10) == decimal(n / 100) + digit_text((n / 10) % 10));
                        assert(decimal(n / 100) == digit_text(n / 100));
                    } else if n >= 10 {
                        assert(decimal(n / 10) == digit_text(n / 10));
                        assert((n / 10) % 10 == n / 10);
                    }
                }
                s
            },
            HandshakeError::ReadError => String::from_str("Failed to read from socket"),
            HandshakeError::WriteError => String::from_str("Failed to write to socket"),
            HandshakeError::InvalidHandshake(text) => {
                let mut s = String::from_str("Invalid handshake: ");
                s.append(text.as_str());
                s
            },
        }
    }
}

/// Checks C0, the version the client asks for.
pub fn check_c0(version: u8) -> (r: Result<(), HandshakeError>)
    ensures
        version == RTMP_VERSION ==> r is Ok,
        version != RTMP_VERSION ==> r == Err::<(), HandshakeError>(
            HandshakeError::UnsupportedVersion(version),
        ),
{
    if version != RTMP_VERSION {
        return Err(HandshakeError::UnsupportedVersion(version));
    }
    Ok(())
}

pub open spec fn zeroes_field_clear(c1: Seq<u8>) -> bool {
    forall|i: int| 4 <= i < 8 ==> c1[i] == 0
}

/// Checks C1: its second field must be all zeroes.
pub fn check_c1(c1: &[u8; HANDSHAKE_CHUNK_SIZE]) -> (r: Result<(), HandshakeError>)
    ensures
        zeroes_field_clear(c1@) ==> r is Ok,
        !zeroes_field_clear(c1@) ==> (r matches Err(HandshakeError::InvalidHandshake(s)) && s@
            == ZEROES_NOT_ZERO@),
{
    let mut i: usize = 4;
    while i < 8
        invariant
            4 <= i <= 8,
            c1@.len() == HANDSHAKE_CHUNK_SIZE,
            forall|j: int| 4 <= j < i ==> c1@[j] == 0,
        decreases 8 - i,
    {
        if c1[i] != 0 {
            return Err(HandshakeError::InvalidHandshake(ZEROES_NOT_ZERO.to_owned()));
        }
        i = i + 1;
    }
    Ok(())
}

/// The four big-endian bytes of the low 32 bits of `millis`.
pub open spec fn timestamp_of(millis: u128) -> Seq<u8> {
    seq![
        ((millis / 0x100_0000) % 0x100) as u8,
        ((millis / 0x1_0000) % 0x100) as u8,
        ((millis / 0x100) % 0x100) as u8,
        (millis % 0x100) as u8,
    ]
}

/// The handshake timestamp: the low 32 bits of the milliseconds since the
/// Unix epoch, big-endian. `None` stands for a clock set before the epoch.
pub fn timestamp_from_millis(millis: Option<u128>) -> (r: Result<[u8; 4], HandshakeError>)
    ensures
        millis matches Some(m) ==> (r matches Ok(t) && t@ == timestamp_of(m)),
        millis is None ==> (r matches Err(HandshakeError::InvalidHandshake(s)) && s@
            == CLOCK_BEFORE_EPOCH@),
{
    match millis {
        Some(m) => {
            let t = [
                ((m / 0x100_0000) % 0x100) as u8,
                ((m / 0x1_0000) % 0x100) as u8,
                ((m / 0x100) % 0x100) as u8,
                (m % 0x100) as u8,
            ];
            assert(t@ =~= timestamp_of(m));
            Ok(t)
        },
        None => Err(HandshakeError::InvalidHandshake(CLOCK_BEFORE_EPOCH.to_owned())),
    }
}

/// Relies on `rand::fill`: fills the buffer with random bytes and leaves its
/// length as it was.
#[verifier::external_body]
fn random_bytes(n: usize) -> (r: Vec<u8>)
    ensures
        r@.len() == n,
{
    let mut v = vec![0u8; n];
    rand::fill(&mut v[..]);
    v
}

/// S0 and S1: the version, the server's timestamp, four zeroes and 1528
/// random bytes.
pub fn make_s0_s1(timestamp: [u8; 4]) -> (r: Vec<u8>)
    ensures
        r@.len() == 1 + HANDSHAKE_CHUNK_SIZE,
        r@[0] == RTMP_VERSION,
        r@.subrange(1, 5) == timestamp@,
        forall|i: int| 5 <= i < 9 ==> r@[i] == 0,
{
    let mut out: Vec<u8> = Vec::new();
    out.push(RTMP_VERSION);
    let mut i: usize = 0;
    while i < 4
        invariant
            i <= 4,
            out@.len() == 1 + i,
            out@[0] == RTMP_VERSION,
            forall|j: int| 1 <= j < 1 + i ==> out@[j] == timestamp@[j - 1],
        decreases 4 - i,
    {
        out.push(timestamp[i]);
        i = i + 1;
    }
    while i < 8
        invariant
            4 <= i <= 8,
            out@.len() == 1 + i,
            out@[0] == RTMP_VERSION,
            forall|j: int| 1 <= j < 5 ==> out@[j] == timestamp@[j - 1],
            forall|j: int| 5 <= j < 1 + i ==> out@[j] == 0,
        decreases 8 - i,
    {
        out.push(0);
        i = i + 1;
    }
    let random = random_bytes(RANDOM_SIZE);
    let mut k: usize = 0;
    while k < RANDOM_SIZE
        invariant
            k <= RANDOM_SIZE,
            random@.len() == RANDOM_SIZE,
            out@.len() == 9 + k,
            out@[0] == RTMP_VERSION,
            forall|j: int| 1 <= j < 5 ==> out@[j] == timestamp@[j - 1],
            forall|j: int| 5 <= j < 9 ==> out@[j] == 0,
        decreases RANDOM_SIZE - k,
    {
        out.push(random[k]);
        k = k + 1;
    }
    assert(out@.subrange(1, 5) =~= timestamp@);
    out
}

/// S2: the client's C1 with its second field replaced by the time at which
/// the server read C1.
pub fn make_s2(c1: &[u8; HANDSHAKE_CHUNK_SIZE], read_timestamp: [u8; 4]) -> (r: Vec<u8>)
    ensures
        r@ == c1@.subrange(0, 4) + read_timestamp@ + c1@.subrange(8, HANDSHAKE_CHUNK_SIZE as int),
{
    let mut out: Vec<u8> = Vec::new();
    let mut i: usize = 0;
    while i < HANDSHAKE_CHUNK_SIZE
        invariant
            i <= HANDSHAKE_CHUNK_SIZE,
            c1@.len() == HANDSHAKE_CHUNK_SIZE,
            out@.len() == i,
            forall|j: int|
                0 <= j < i ==> out@[j] == if 4 <= j < 8 {
                    read_timestamp@[j - 4]
                } else {
                    c1@[j]
                },
        decreases HANDSHAKE_CHUNK_SIZE - i,
    {
        if 4 <= i && i < 8 {
            out.push(read_timestamp[i - 4]);
        } else {
            out.push(c1[i]);
        }
        i = i + 1;
    }
    assert(out@ =~= c1@.subrange(0, 4) + read_timestamp@ + c1@.subrange(
        8,
        HANDSHAKE_CHUNK_SIZE as int,
    ));
    out
}

/// Checks C2 against S1: the time field and the random data must be echoed;
/// the second field is not checked.
pub fn check_c2(s1: &[u8; HANDSHAKE_CHUNK_SIZE], c2: &[u8; HANDSHAKE_CHUNK_SIZE]) -> (r: Result<
    (),
    HandshakeError,
>)
    ensures
        c2@.subrange(0, 4) != s1@.subrange(0, 4) ==> (r matches Err(
            HandshakeError::InvalidHandshake(s),
        ) && s@ == TIMESTAMP_MISMATCH@),
        c2@.subrange(0, 4) == s1@.subrange(0, 4) && c2@.subrange(8, HANDSHAKE_CHUNK_SIZE as int)
            != s1@.subrange(8, HANDSHAKE_CHUNK_SIZE as int) ==> (r matches Err(
            HandshakeError::InvalidHandshake(s),
        ) && s@ == RANDOM_ECHO_MISMATCH@),
        c2@.subrange(0, 4) == s1@.subrange(0, 4) && c2@.subrange(8, HANDSHAKE_CHUNK_SIZE as int)
            == s1@.subrange(8, HANDSHAKE_CHUNK_SIZE as int) ==> r is Ok,
{
    let mut i: usize = 0;
    while i < 4
        invariant
            i <= 4,
            c2@.len() == HANDSHAKE_CHUNK_SIZE,
            s1@.len() == HANDSHAKE_CHUNK_SIZE,
            forall|j: int| 0 <= j < i ==> c2@[j] == s1@[j],
        decreases 4 - i,
    {
        if c2[i] != s1[i] {
            assert(c2@.subrange(0, 4)[i as int] != s1@.subrange(0, 4)[i as int]);
            return Err(HandshakeError::InvalidHandshake(TIMESTAMP_MISMATCH.to_owned()));
        }
        i = i + 1;
    }
    assert(c2@.subrange(0, 4) =~= s1@.subrange(0, 4));
    let mut k: usize = 8;
    while k < HANDSHAKE_CHUNK_SIZE
        invariant
            8 <= k <= HANDSHAKE_CHUNK_SIZE,
            c2@.len() == HANDSHAKE_CHUNK_SIZE,
            s1@.len() == HANDSHAKE_CHUNK_SIZE,
            c2@.subrange(0, 4) == s1@.subrange(0, 4),
            forall|j: int| 8 <= j < k ==> c2@[j] == s1@[j],
        decreases HANDSHAKE_CHUNK_SIZE - k,
    {
        if c2[k] != s1[k] {
            assert(c2@.subrange(8, HANDSHAKE_CHUNK_SIZE as int)[k - 8] != s1@.subrange(
                8,
                HANDSHAKE_CHUNK_SIZE as int,
            )[k - 8]);
            return Err(HandshakeError::InvalidHandshake(RANDOM_ECHO_MISMATCH.to_owned()));
        }
        k = k + 1;
    }
    assert(c2@.subrange(8, HANDSHAKE_CHUNK_SIZE as int) =~= s1@.subrange(
        8,
        HANDSHAKE_CHUNK_SIZE as int,
    ));
    Ok(())
}

} // verus!
