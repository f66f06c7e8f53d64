//! The error taxonomy shared by the relay, the transport and the drivers.

use vstd::prelude::*;
use vstd::string::StringExecFns;

verus! {

/// Every failure the library or its embedding can surface.  Payloads are
/// plain values so that contracts can speak about them exactly.
#[derive(Debug)]
pub enum NudgeError {
    /// A host-OS failure from a socket or file operation, as text.
    Io(String),
    /// A malformed integer on the wire.
    ParseError(String),
    /// Bytes that were not valid UTF-8 where text was expected.
    Utf8Error(String),
    /// A body that could not be decoded as JSON.
    JsonParseError(String),
    /// A read buffer larger than the 65532-byte datagram payload cap.
    BufferSizeLimitExceeded(usize),
    /// A write payload larger than the 65532-byte datagram payload cap.
    DataPacketLimitExceeded(usize),
    /// The passphrase minter exhausted its collision-retry budget.
    PassphraseGenerationError,
    /// A receiver quoted a passphrase with no live offer behind it.
    PassphraseNotFound,
    /// The relay answered with an `ERROR` line; the payload is that line.
    ServerError(String),
    /// A control message carried a different tag than the context expected:
    /// first the expected tag, then the received one.
    ReceiveExpectationNotMet(String, String),
    /// The OS could not report a hostname when one was requested.
    HostnameError,
    /// An interactive prompt was required but prompts were forbidden.
    NoPromptExit,
    /// Post-transfer verification failed: expected hash, then actual hash.
    HashMismatch(String, String),
    /// The relay received a datagram with an unrecognised tag.
    UnknownCommand,
}

pub type Result<T> = core::result::Result<T, NudgeError>;

/// The character for one decimal digit.
pub open spec fn digit_char(d: int) -> char {
    if d == 0 {
        '0'
    } else if d == 1 {
        '1'
    } else if d == 2 {
        '2'
    } else if d == 3 {
        '3'
    } else if d == 4 {
        '4'
    } else if d == 5 {
        '5'
    } else if d == 6 {
        '6'
    } else if d == 7 {
        '7'
    } else if d == 8 {
        '8'
    } else {
        '9'
    }
}

/// The decimal digits of `n`, most significant first.
pub open spec fn decimal_of(n: int) -> Seq<char>
    decreases n,
{
    if n < 0 {
        Seq::empty()
    } else if n < 10 {
        seq![digit_char(n)]
    } else {
        decimal_of(n / 10) + seq![digit_char(n % 10)]
    }
}

/// The digits of `n` above its lowest `ds.len()` ones, or nothing once
/// every digit has been collected.
spec fn lead_digits(m: int, collected: nat) -> Seq<char> {
    if m == 0 && collected > 0 {
        Seq::empty()
    } else {
        decimal_of(m)
    }
}

/// The characters of collected digits, least significant first in `ds`,
/// most significant first in the result.
spec fn collected_chars(ds: Seq<u64>) -> Seq<char>
    decreases ds.len(),
{
    if ds.len() == 0 {
        Seq::empty()
    } else {
        seq![digit_char(ds.last() as int)] + collected_chars(ds.drop_last())
    }
}

fn push_digit(s: &mut String, d: u64)
    requires
        d < 10,
    ensures
        final(s)@ == old(s)@ + seq![digit_char(d as int)],
{
    proof {
        reveal_strlit("0");
        reveal_strlit("1");
        reveal_strlit("2");
        reveal_strlit("3");
        reveal_strlit("4");
        reveal_strlit("5");
        reveal_strlit("6");
        reveal_strlit("7");
        reveal_strlit("8");
        reveal_strlit("9");
    }
    if d == 0 {
        s.append("0");
    } else if d == 1 {
        s.append("1");
    } else if d == 2 {
        s.append("2");
    } else if d == 3 {
        s.append("3");
    } else if d == 4 {
        s.append("4");
    } else if d == 5 {
        s.append("5");
    } else if d == 6 {
        s.append("6");
    } else if d == 7 {
        s.append("7");
    } else if d == 8 {
        s.append("8");
    } else {
        s.append("9");
    }
    proof {
        assert(s@ =~= old(s)@ + seq![digit_char(d as int)]);
    }
}

/// Renders `n` in decimal.
fn decimal_string(n: u64) -> (r: String)
    ensures
        r@ == decimal_of(n as int),
{
    let mut digits: Vec<u64> = Vec::new();
    let mut m = n;
    loop
        invariant_except_break
            digits@.len() > 0 ==> m > 0,
            forall|j: int| 0 <= j < digits@.len() ==> (#[trigger] digits@[j]) < 10,
            decimal_of(n as int) == lead_digits(m as int, digits@.len()) + collected_chars(
                digits@,
            ),
        ensures
            digits@.len() > 0,
            forall|j: int| 0 <= j < digits@.len() ==> (#[trigger] digits@[j]) < 10,
            decimal_of(n as int) == collected_chars(digits@),
        decreases m,
    {
        let ghost prev = digits@;
        let ghost m0 = m as int;
        let d = m % 10;
        digits.push(d);
        m = m / 10;
        proof {
            assert(digits@.drop_last() =~= prev);
            assert(digits@.last() == d);
            assert(collected_chars(digits@) =~= seq![digit_char(d as int)] + collected_chars(
                prev,
            ));
            if m0 < 10 {
                assert(decimal_of(m0) == seq![digit_char(m0)]);
                assert(lead_digits(m0, prev.len()) == decimal_of(m0));
            } else {
                assert(decimal_of(m0) == decimal_of(m0 / 10) + seq![digit_char(m0 % 10)]);
            }
            assert(decimal_of(n as int) =~= lead_digits(m as int, digits@.len())
                + collected_chars(digits@));
        }
        if m == 0 {
            proof {
                assert(lead_digits(m as int, digits@.len()) =~= Seq::<char>::empty());
                assert(decimal_of(n as int) =~= collected_chars(digits@));
            }
            break;
        }
    }
    let mut out = String::new();
    let mut k = digits.len();
    proof {
        assert(digits@.take(digits@.len() as int) =~= digits@);
        assert(out@ + collected_chars(digits@) =~= collected_chars(digits@));
    }
    while k > 0
        invariant
            k <= digits@.len(),
            forall|j: int| 0 <= j < digits@.len() ==> (#[trigger] digits@[j]) < 10,
            out@ + collected_chars(digits@.take(k as int)) == decimal_of(n as int),
        decreases k,
    {
        let ghost before = out@;
        push_digit(&mut out, digits[k - 1]);
        proof {
            assert(digits@.take(k as int).drop_last() =~= digits@.take(k - 1));
            assert(digits@.take(k as int).last() == digits@[k - 1]);
            assert(before + collected_chars(digits@.take(k as int)) =~= out@ + collected_chars(
                digits@.take(k - 1),
            ));
        }
        k = k - 1;
    }
    proof {
        assert(digits@.take(0) =~= Seq::<u64>::empty());
        assert(out@ =~= decimal_of(n as int));
    }
    out
}

impl NudgeError {
    /// The text shown to a user, and the reason the relay puts after
    /// `ERROR` in its reply.
    pub fn message(&self) -> (r: String)
        ensures
            match self {
                NudgeError::Io(_) => r@ == "IO Error"@,
                NudgeError::ParseError(_) => r@ == "Failed to parse filesize"@,
                NudgeError::Utf8Error(_) => r@ == "UTF-8 conversion error"@,
                NudgeError::JsonParseError(_) => r@ == "Failed to parse JSON"@,
                NudgeError::BufferSizeLimitExceeded(n) => r@
                    == "Buffer size exceeds the maximum allowed limit of 65532 bytes. Received: "@
                    + decimal_of(n as int) + " bytes."@,
                NudgeError::DataPacketLimitExceeded(n) => r@
                    == "Data packet exceeds the maximum allowed limit of 65532 bytes. Received: "@
                    + decimal_of(n as int) + " bytes."@,
                NudgeError::PassphraseGenerationError => r@ == "Failed to generate passphrase"@,
                NudgeError::PassphraseNotFound => r@ == "Passphrase not found"@,
                NudgeError::ServerError(t) => r@ == "Server returned error: "@ + t@,
                NudgeError::ReceiveExpectationNotMet(e, g) => r@ == "Expected "@ + e@
                    + ", but received "@ + g@,
                NudgeError::HostnameError => r@ == "Cannot get hostname"@,
                NudgeError::NoPromptExit => r@ == "Exited because --no-prompt was passed"@,
                NudgeError::HashMismatch(e, a) => r@ == "Hash mismatch! Expected: "@ + e@
                    + ", Received: "@ + a@,
                NudgeError::UnknownCommand => r@ == "Unknown command"@,
            },
    {
        match self {
            NudgeError::Io(_) => "IO Error".to_owned(),
            NudgeError::ParseError(_) => "Failed to parse filesize".to_owned(),
            NudgeError::Utf8Error(_) => "UTF-8 conversion error".to_owned(),
            NudgeError::JsonParseError(_) => "Failed to parse JSON".to_owned(),
            NudgeError::BufferSizeLimitExceeded(n) => {
                let mut s: String =
                    "Buffer size exceeds the maximum allowed limit of 65532 bytes. Received: ".to_owned();
                s.append(decimal_string(*n as u64).as_str());
                s.append(" bytes.");
                s
            },
            NudgeError::DataPacketLimitExceeded(n) => {
                let mut s: String =
                    "Data packet exceeds the maximum allowed limit of 65532 bytes. Received: ".to_owned();
                s.append(decimal_string(*n as u64).as_str());
                s.append(" bytes.");
                s
            },
            NudgeError::PassphraseGenerationError => "Failed to generate passphrase".to_owned(),
            NudgeError::PassphraseNotFound => "Passphrase not found".to_owned(),
            NudgeError::ServerError(t) => {
                let mut s: String = "Server returned error: ".to_owned();
                s.append(t.as_str());
                s
            },
            NudgeError::ReceiveExpectationNotMet(e, g) => {
                let mut s: String = "Expected ".to_owned();
                s.append(e.as_str());
                s.append(", but received ");
                s.append(g.as_str());
                s
            },
            NudgeError::HostnameError => "Cannot get hostname".to_owned(),
            NudgeError::NoPromptExit => "Exited because --no-prompt was passed".to_owned(),
            NudgeError::HashMismatch(e, a) => {
                let mut s: String = "Hash mismatch! Expected: ".to_owned();
                s.append(e.as_str());
                s.append(", Received: ");
                s.append(a.as_str());
                s
            },
            NudgeError::UnknownCommand => "Unknown command".to_owned(),
        }
    }
}

} // verus!
