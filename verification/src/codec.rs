//! Framing of control messages: an ASCII tag, one space, a single-line body.
//! Replies from the relay carry a trailing newline; trailing NULs and
//! whitespace from fixed-size receive buffers are tolerated.

use vstd::prelude::*;
use vstd::string::StrSliceExecFns;
use vstd::string::StringExecFns;

use crate::error::NudgeError;
use crate::error::Result;

verus! {

/// Sender asks the relay for a passphrase.
pub const TAG_S2X_RP: &'static str = "S2X_RP";

/// Relay hands the minted passphrase to the sender.
pub const TAG_X2S_PPM: &'static str = "X2S_PPM";

/// Receiver asks the relay for the file info behind a passphrase.
pub const TAG_R2X_RFI: &'static str = "R2X_RFI";

/// Relay answers the receiver with the file info.
pub const TAG_X2R_AFI: &'static str = "X2R_AFI";

/// Receiver asks the relay to broker the sender's connection.
pub const TAG_R2X_RSC: &'static str = "R2X_RSC";

/// Relay tells the sender where the receiver is.
pub const TAG_X2S_SCON: &'static str = "X2S_SCON";

/// Relay reports a failure; the rest of the line is free-form text.
pub const TAG_ERROR: &'static str = "ERROR";

/// The whitespace the wire tolerates around tags and bodies.
pub open spec fn is_wsp(c: char) -> bool {
    c == ' ' || c == '\t' || c == '\r' || c == '\n'
}

/// Length of `s` once trailing NUL padding is dropped.
pub open spec fn nul_trim_len(s: Seq<char>) -> nat
    decreases s.len(),
{
    if s.len() > 0 && s.last() == '\u{0}' {
        nul_trim_len(s.drop_last())
    } else {
        s.len()
    }
}

/// `s` without its trailing NUL padding.
pub open spec fn trim_trailing_nuls(s: Seq<char>) -> Seq<char> {
    s.take(nul_trim_len(s) as int)
}

/// Length of the leading run of non-whitespace characters: the tag.
pub open spec fn tag_len(s: Seq<char>) -> nat
    decreases s.len(),
{
    if s.len() == 0 || is_wsp(s[0]) {
        0
    } else {
        1 + tag_len(s.skip(1))
    }
}

/// The tag of a framed message: everything before the first whitespace.
pub open spec fn tag_of(s: Seq<char>) -> Seq<char> {
    s.take(tag_len(s) as int)
}

/// Length of the leading run of whitespace characters.
pub open spec fn wsp_start_len(s: Seq<char>) -> nat
    decreases s.len(),
{
    if s.len() > 0 && is_wsp(s[0]) {
        1 + wsp_start_len(s.skip(1))
    } else {
        0
    }
}

/// Length of `s` once trailing whitespace is dropped.
pub open spec fn wsp_trim_len(s: Seq<char>) -> nat
    decreases s.len(),
{
    if s.len() > 0 && is_wsp(s.last()) {
        wsp_trim_len(s.drop_last())
    } else {
        s.len()
    }
}

/// `s` with whitespace stripped from both ends.
pub open spec fn trim_wsp(s: Seq<char>) -> Seq<char> {
    let t = s.skip(wsp_start_len(s) as int);
    t.take(wsp_trim_len(t) as int)
}

/// The body handed to the decoder: what follows the tag, trimmed.
pub open spec fn body_of(s: Seq<char>) -> Seq<char> {
    trim_wsp(s.skip(tag_len(s) as int))
}

/// A line the relay marked as a failure: `ERROR` and a space.
pub open spec fn is_error_line(s: Seq<char>) -> bool {
    s.len() >= 6 && s.take(6) == "ERROR "@
}

proof fn lemma_nul_trim_len_bound(s: Seq<char>)
    ensures
        nul_trim_len(s) <= s.len(),
    decreases s.len(),
{
    if s.len() > 0 && s.last() == '\u{0}' {
        lemma_nul_trim_len_bound(s.drop_last());
    }
}

proof fn lemma_tag_len_bound(s: Seq<char>)
    ensures
        tag_len(s) <= s.len(),
        forall|j: int| 0 <= j < tag_len(s) ==> !is_wsp(#[trigger] s[j]),
        tag_len(s) < s.len() ==> is_wsp(s[tag_len(s) as int]),
    decreases s.len(),
{
    if !(s.len() == 0 || is_wsp(s[0])) {
        lemma_tag_len_bound(s.skip(1));
        assert forall|j: int| 0 <= j < tag_len(s) implies !is_wsp(#[trigger] s[j]) by {
            if j > 0 {
                assert(s.skip(1)[j - 1] == s[j]);
            }
        }
    }
}

proof fn lemma_wsp_trim_len_bound(s: Seq<char>)
    ensures
        wsp_trim_len(s) <= s.len(),
    decreases s.len(),
{
    if s.len() > 0 && is_wsp(s.last()) {
        lemma_wsp_trim_len_bound(s.drop_last());
    }
}

proof fn lemma_wsp_start_len_bound(s: Seq<char>)
    ensures
        wsp_start_len(s) <= s.len(),
    decreases s.len(),
{
    if s.len() > 0 && is_wsp(s[0]) {
        lemma_wsp_start_len_bound(s.skip(1));
    }
}

/// Whether two string slices hold the same characters.
pub fn str_eq(a: &str, b: &str) -> (r: bool)
    ensures
        r == (a@ == b@),
{
    let left: String = a.to_owned();
    let right: String = b.to_owned();
    left == right
}

/// Index just past the payload of `s`, ignoring trailing NUL padding.
fn scan_nul_trim(s: &str) -> (i: usize)
    ensures
        i == nul_trim_len(s@),
{
    let mut i = s.unicode_len();
    proof {
        assert(s@.take(i as int) =~= s@);
    }
    while i > 0 && s.get_char(i - 1) == '\u{0}'
        invariant
            i <= s@.len(),
            nul_trim_len(s@) == nul_trim_len(s@.take(i as int)),
        decreases i,
    {
        proof {
            assert(s@.take(i as int).drop_last() =~= s@.take(i - 1));
        }
        i = i - 1;
    }
    proof {
        assert(s@.take(i as int) =~= if i == s@.len() {
            s@
        } else {
            s@.take(i as int)
        });
        lemma_nul_trim_len_bound(s@.take(i as int));
    }
    i
}

/// Index just past the leading non-whitespace run of `s`.
fn scan_tag_end(s: &str) -> (i: usize)
    ensures
        i == tag_len(s@),
{
    let n = s.unicode_len();
    let mut i: usize = 0;
    proof {
        assert(s@.skip(0) =~= s@);
    }
    while i < n && !is_wsp_char(s.get_char(i))
        invariant
            i <= n == s@.len(),
            tag_len(s@) == i + tag_len(s@.skip(i as int)),
        decreases n - i,
    {
        proof {
            assert(s@.skip(i as int).skip(1) =~= s@.skip(i + 1));
        }
        i = i + 1;
    }
    proof {
        if i < n {
            assert(tag_len(s@.skip(i as int)) == 0);
        } else {
            assert(s@.skip(i as int) =~= Seq::<char>::empty());
        }
    }
    i
}

/// Whether `c` is wire whitespace.
fn is_wsp_char(c: char) -> (r: bool)
    ensures
        r == is_wsp(c),
{
    c == ' ' || c == '\t' || c == '\r' || c == '\n'
}

/// The slice of `s` with whitespace stripped from both ends.
fn trim_str(s: &str) -> (r: String)
    ensures
        r@ == trim_wsp(s@),
{
    let n = s.unicode_len();
    let mut a: usize = 0;
    proof {
        assert(s@.skip(0) =~= s@);
    }
    while a < n && is_wsp_char(s.get_char(a))
        invariant
            a <= n == s@.len(),
            wsp_start_len(s@) == a + wsp_start_len(s@.skip(a as int)),
        decreases n - a,
    {
        proof {
            assert(s@.skip(a as int).skip(1) =~= s@.skip(a + 1));
        }
        a = a + 1;
    }
    proof {
        if a < n {
            assert(wsp_start_len(s@.skip(a as int)) == 0);
        } else {
            assert(s@.skip(a as int) =~= Seq::<char>::empty());
        }
        assert(wsp_start_len(s@) == a);
    }
    let mut b: usize = n;
    while b > a && is_wsp_char(s.get_char(b - 1))
        invariant
            a <= b <= n == s@.len(),
            wsp_start_len(s@) == a,
            wsp_trim_len(s@.skip(a as int)) == wsp_trim_len(s@.subrange(a as int, b as int)),
        decreases b,
    {
        proof {
            assert(s@.subrange(a as int, b as int).drop_last() =~= s@.subrange(
                a as int,
                b - 1,
            ));
        }
        b = b - 1;
    }
    proof {
        let mid = s@.subrange(a as int, b as int);
        if b > a {
            assert(wsp_trim_len(mid) == mid.len());
        } else {
            assert(mid =~= Seq::<char>::empty());
        }
        lemma_wsp_start_len_bound(s@);
        assert(s@.skip(a as int).take(wsp_trim_len(s@.skip(a as int)) as int) =~= s@.subrange(
            a as int,
            b as int,
        ));
    }
    s.substring_char(a, b).to_owned()
}

/// Joins a tag and a body with a single space, as peers send them.
pub fn frame_message(tag: &str, body: &str) -> (r: String)
    ensures
        r@ == tag@ + seq![' '] + body@,
{
    proof {
        reveal_strlit(" ");
    }
    let mut out: String = tag.to_owned();
    out.append(" ");
    out.append(body);
    proof {
        assert(out@ =~= tag@ + seq![' '] + body@);
    }
    out
}

/// Joins a tag and a body and ends the line, as the relay replies.
pub fn frame_reply(tag: &str, body: &str) -> (r: String)
    ensures
        r@ == tag@ + seq![' '] + body@ + seq!['\n'],
{
    proof {
        reveal_strlit("\n");
    }
    let mut out = frame_message(tag, body);
    out.append("\n");
    proof {
        assert(out@ =~= tag@ + seq![' '] + body@ + seq!['\n']);
    }
    out
}

/// Splits an inbound datagram into its tag and the rest of the line; the
/// body starts one character after the tag where the frame has one.
pub fn split_frame(message: &str) -> (r: (String, String))
    ensures
        r.0@ == tag_of(message@),
        r.1@ == message@.skip(
            vstd::math::min(tag_len(message@) as int + 1, message@.len() as int),
        ),
{
    let n = message.unicode_len();
    let t = scan_tag_end(message);
    proof {
        lemma_tag_len_bound(message@);
    }
    let body_start = if t < n {
        t + 1
    } else {
        n
    };
    let tag = message.substring_char(0, t).to_owned();
    let body = message.substring_char(body_start, n).to_owned();
    proof {
        assert(message@.subrange(body_start as int, n as int) =~= message@.skip(
            body_start as int,
        ));
    }
    (tag, body)
}

/// Checks one received control line against the tag the context expects:
/// an `ERROR` line is surfaced as a server failure, a different tag as an
/// unmet expectation, and otherwise the trimmed body is handed back.
pub fn parse_and_expect(message: &str, expected_tag: &str) -> (r: Result<String>)
    ensures
        is_error_line(trim_trailing_nuls(message@)) ==> (r matches Err(
            NudgeError::ServerError(m),
        ) && m@ == trim_trailing_nuls(message@)),
        !is_error_line(trim_trailing_nuls(message@)) && tag_of(trim_trailing_nuls(message@))
            != expected_tag@ ==> (r matches Err(NudgeError::ReceiveExpectationNotMet(e, g))
            && e@ == expected_tag@ && g@ == tag_of(trim_trailing_nuls(message@))),
        !is_error_line(trim_trailing_nuls(message@)) && tag_of(trim_trailing_nuls(message@))
            == expected_tag@ ==> (r matches Ok(b) && b@ == body_of(trim_trailing_nuls(
            message@,
        ))),
{
    proof {
        lemma_nul_trim_len_bound(message@);
    }
    let end = scan_nul_trim(message);
    let trimmed = message.substring_char(0, end);
    let tlen = trimmed.unicode_len();
    if tlen >= 6 {
        let head = trimmed.substring_char(0, 6);
        if str_eq(head, "ERROR ") {
            return Err(NudgeError::ServerError(trimmed.to_owned()));
        }
    }
    let t = scan_tag_end(trimmed);
    proof {
        lemma_tag_len_bound(trimmed@);
    }
    let tag = trimmed.substring_char(0, t);
    if !str_eq(tag, expected_tag) {
        return Err(
            NudgeError::ReceiveExpectationNotMet(expected_tag.to_owned(), tag.to_owned()),
        );
    }
    let rest = trimmed.substring_char(t, tlen);
    proof {
        assert(trimmed@.subrange(t as int, tlen as int) =~= trimmed@.skip(t as int));
    }
    Ok(trim_str(rest))
}

} // verus!
