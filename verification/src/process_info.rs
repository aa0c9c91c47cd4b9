//! Connection discovery: extracting the running client's port and auth
//! token from its invocation arguments or from the lock file it writes,
//! and deriving the authorization header from the token.

use vstd::prelude::*;
use vstd::string::StrSliceExecFns;
use vstd::string::StringExecFns;

use crate::DiscoveryReason;
use crate::Error;

verus! {

/// The name of the client process whose arguments carry the credentials.
pub const CLIENT_PROCESS_NAME: &'static str = "LeagueClientUx";

/// The name of the companion game process.
pub const GAME_PROCESS_NAME: &'static str = "League of Legends.exe";

/// The credentials discovery produces: the port the client listens on and
/// its auth token. Consumed immediately to build a connection.
#[derive(Debug)]
pub struct DiscoveredCredentials {
    pub port: u16,
    pub auth_token: String,
}

/// Whether `c` is a decimal digit.
pub open spec fn is_digit(c: char) -> bool {
    '0' <= c && c <= '9'
}

/// Whether every character of `s` is a decimal digit.
pub open spec fn all_digits(s: Seq<char>) -> bool {
    forall|i: int| 0 <= i < s.len() ==> is_digit(s[i])
}

/// The numeric value of a digit string, most significant digit first.
pub open spec fn digits_val(s: Seq<char>) -> int
    decreases s.len(),
{
    if s.len() == 0 {
        0
    } else {
        digits_val(s.drop_last()) * 10 + (s.last() as u32 - 48)
    }
}

proof fn lemma_digits_val_nonneg(s: Seq<char>)
    requires
        all_digits(s),
    ensures
        digits_val(s) >= 0,
    decreases s.len(),
{
    if s.len() > 0 {
        assert forall|i: int| 0 <= i < s.drop_last().len() implies is_digit(
            #[trigger] s.drop_last()[i],
        ) by {
            assert(s.drop_last()[i] == s[i]);
        }
        lemma_digits_val_nonneg(s.drop_last());
        assert(is_digit(s.last()));
    }
}

proof fn lemma_digits_prefix(s: Seq<char>, j: int)
    requires
        all_digits(s),
        0 <= j <= s.len(),
    ensures
        digits_val(s.take(j)) <= digits_val(s),
    decreases s.len() - j,
{
    if j == s.len() {
        assert(s.take(j) =~= s);
    } else {
        let t = s.take(j + 1);
        assert(t.drop_last() =~= s.take(j));
        assert(t.last() == s[j]);
        assert forall|i: int| 0 <= i < s.take(j).len() implies is_digit(
            #[trigger] s.take(j)[i],
        ) by {
            assert(s.take(j)[i] == s[i]);
        }
        lemma_digits_val_nonneg(s.take(j));
        assert(is_digit(s[j]));
        assert(digits_val(t) >= digits_val(s.take(j)));
        lemma_digits_prefix(s, j + 1);
    }
}

/// Parse a decimal port number. Succeeds exactly on a non-empty digit
/// string whose value fits a `u16`, and returns exactly that value.
pub fn parse_port(s: &str) -> (r: Option<u16>)
    ensures
        r is Some <==> (s@.len() > 0 && all_digits(s@) && digits_val(s@) <= 65535),
        r matches Some(p) ==> p as int == digits_val(s@),
{
    let n = s.unicode_len();
    if n == 0 {
        return None;
    }
    let mut acc: u32 = 0;
    let mut i: usize = 0;
    while i < n
        invariant
            0 <= i <= n,
            n == s@.len(),
            acc <= 65535,
            all_digits(s@.take(i as int)),
            acc as int == digits_val(s@.take(i as int)),
        decreases n - i,
    {
        let c = s.get_char(i);
        if c < '0' || c > '9' {
            assert(!is_digit(s@[i as int]));
            return None;
        }
        let d: u32 = (c as u32) - 48;
        let next: u32 = acc * 10 + d;
        proof {
            let t = s@.take(i as int + 1);
            assert(t.drop_last() =~= s@.take(i as int));
            assert(t.last() == s@[i as int]);
            assert forall|k: int| 0 <= k < t.len() implies is_digit(#[trigger] t[k]) by {
                if k < i as int {
                    assert(t[k] == s@.take(i as int)[k]);
                } else {
                    assert(t[k] == s@[i as int]);
                }
            }
        }
        if next > 65535 {
            proof {
                if all_digits(s@) {
                    assert forall|k: int| 0 <= k < s@.take(i as int + 1).len() implies is_digit(
                        #[trigger] s@.take(i as int + 1)[k],
                    ) by {
                        assert(s@.take(i as int + 1)[k] == s@[k]);
                    }
                    lemma_digits_prefix(s@, i as int + 1);
                }
            }
            return None;
        }
        acc = next;
        i = i + 1;
    }
    assert(s@.take(n as int) =~= s@);
    Some(acc as u16)
}

/// The positions of every occurrence of `sep` in `s`, in increasing order.
pub open spec fn sep_positions(s: Seq<char>, sep: char) -> Seq<int>
    decreases s.len(),
{
    if s.len() == 0 {
        Seq::empty()
    } else {
        sep_positions(s.drop_last(), sep) + if s.last() == sep {
            seq![s.len() as int - 1]
        } else {
            Seq::<int>::empty()
        }
    }
}

proof fn lemma_sep_positions_props(s: Seq<char>, sep: char)
    ensures
        forall|k: int|
            0 <= k < sep_positions(s, sep).len() ==> 0 <= #[trigger] sep_positions(s, sep)[k]
                < s.len() && s[sep_positions(s, sep)[k]] == sep,
        forall|j: int, k: int|
            0 <= j < k < sep_positions(s, sep).len() ==> sep_positions(s, sep)[j]
                < sep_positions(s, sep)[k],
    decreases s.len(),
{
    if s.len() > 0 {
        lemma_sep_positions_props(s.drop_last(), sep);
        let prev = sep_positions(s.drop_last(), sep);
        assert forall|k: int|
            0 <= k < sep_positions(s, sep).len() implies 0 <= #[trigger] sep_positions(s, sep)[k]
            < s.len() && s[sep_positions(s, sep)[k]] == sep by {
            if k < prev.len() {
                assert(sep_positions(s, sep)[k] == prev[k]);
                assert(s.drop_last()[prev[k]] == s[prev[k]]);
            } else {
                assert(s.last() == sep);
                assert(sep_positions(s, sep)[k] == s.len() - 1);
            }
        }
        assert forall|j: int, k: int|
            0 <= j < k < sep_positions(s, sep).len() implies sep_positions(s, sep)[j]
            < sep_positions(s, sep)[k] by {
            if k < prev.len() {
                assert(sep_positions(s, sep)[j] == prev[j]);
                assert(sep_positions(s, sep)[k] == prev[k]);
            } else {
                assert(sep_positions(s, sep)[j] == prev[j]);
                assert(sep_positions(s, sep)[k] == s.len() - 1);
            }
        }
    }
}

/// The lock file's single line is `name:pid:port:password:protocol`. With
/// exactly four separators, a numeric third field that fits a port number,
/// these are the port and the token; anything else is malformed.
pub open spec fn parse_lock_spec(s: Seq<char>) -> Option<(int, Seq<char>)> {
    let ps = sep_positions(s, ':');
    if ps.len() != 4 {
        None
    } else {
        let port_field = s.subrange(ps[1] + 1, ps[2]);
        let token_field = s.subrange(ps[2] + 1, ps[3]);
        if port_field.len() > 0 && all_digits(port_field) && digits_val(port_field) <= 65535 {
            Some((digits_val(port_field), token_field))
        } else {
            None
        }
    }
}

/// Parse the lock file's contents. Returns exactly the port and token that
/// the well-formed line carries; a wrong field count or a non-numeric port
/// is a `DiscoveryFailure` with reason "malformed credentials", never a
/// panic and never partial values.
pub fn parse_lock_file(contents: &str) -> (r: Result<DiscoveredCredentials, Error>)
    ensures
        match r {
            Ok(c) => parse_lock_spec(contents@) matches Some(pt) && c.port as int == pt.0
                && c.auth_token@ == pt.1,
            Err(e) => parse_lock_spec(contents@) is None && e matches Error::DiscoveryFailure {
                reason: DiscoveryReason::MalformedCredentials,
            },
        },
{
    let n = contents.unicode_len();
    let mut positions: Vec<usize> = Vec::new();
    let mut i: usize = 0;
    while i < n
        invariant
            0 <= i <= n,
            n == contents@.len(),
            positions@.map_values(|p: usize| p as int) == sep_positions(
                contents@.take(i as int),
                ':',
            ),
            forall|k: int| 0 <= k < positions@.len() ==> positions@[k] < i,
        decreases n - i,
    {
        let c = contents.get_char(i);
        proof {
            let t = contents@.take(i as int + 1);
            assert(t.drop_last() =~= contents@.take(i as int));
            assert(t.last() == contents@[i as int]);
        }
        if c == ':' {
            positions.push(i);
            proof {
                assert(positions@.map_values(|p: usize| p as int) =~= sep_positions(
                    contents@.take(i as int + 1),
                    ':',
                ));
            }
        } else {
            proof {
                assert(positions@.map_values(|p: usize| p as int) =~= sep_positions(
                    contents@.take(i as int + 1),
                    ':',
                ));
            }
        }
        i = i + 1;
    }
    proof {
        assert(contents@.take(n as int) =~= contents@);
        lemma_sep_positions_props(contents@, ':');
    }
    if positions.len() != 4 {
        return Err(Error::DiscoveryFailure { reason: DiscoveryReason::MalformedCredentials });
    }
    let c1 = positions[1];
    let c2 = positions[2];
    let c3 = positions[3];
    assert(c1 as int == sep_positions(contents@, ':')[1]);
    assert(c2 as int == sep_positions(contents@, ':')[2]);
    assert(c3 as int == sep_positions(contents@, ':')[3]);
    let port_str = contents.substring_char(c1 + 1, c2);
    let token_str = contents.substring_char(c2 + 1, c3);
    match parse_port(port_str) {
        Some(port) => Ok(
            DiscoveredCredentials { port, auth_token: String::from_str(token_str) },
        ),
        None => Err(Error::DiscoveryFailure { reason: DiscoveryReason::MalformedCredentials }),
    }
}


/// Whether `s` begins with `p`.
pub open spec fn starts_with_spec(s: Seq<char>, p: Seq<char>) -> bool {
    s.len() >= p.len() && s.subrange(0, p.len() as int) == p
}

/// What follows the flag `prefix` in the first argument that begins with
/// it, if any argument does.
pub open spec fn find_flag(args: Seq<Seq<char>>, prefix: Seq<char>) -> Option<Seq<char>>
    decreases args.len(),
{
    if args.len() == 0 {
        None
    } else if starts_with_spec(args[0], prefix) {
        Some(args[0].skip(prefix.len() as int))
    } else {
        find_flag(args.drop_first(), prefix)
    }
}

proof fn lemma_find_flag_skip(args: Seq<Seq<char>>, prefix: Seq<char>, i: int)
    requires
        0 <= i <= args.len(),
        forall|j: int| 0 <= j < i ==> !starts_with_spec(#[trigger] args[j], prefix),
    ensures
        find_flag(args, prefix) == find_flag(args.skip(i), prefix),
    decreases i,
{
    if i > 0 {
        assert(args.skip(i - 1).len() > 0);
        assert(args.skip(i - 1)[0] == args[i - 1]);
        assert(!starts_with_spec(args.skip(i - 1)[0], prefix));
        assert(args.skip(i - 1).drop_first() =~= args.skip(i));
        lemma_find_flag_skip(args, prefix, i - 1);
    } else {
        assert(args.skip(0) =~= args);
    }
}

/// The suffix of the first argument beginning with `prefix`, as an owned
/// string, or `None` if no argument does.
fn find_flag_value(args: &Vec<String>, prefix: &str) -> (r: Option<String>)
    ensures
        match r {
            Some(v) => find_flag(args.deep_view(), prefix@) == Some(v@),
            None => find_flag(args.deep_view(), prefix@) is None,
        },
{
    let plen = prefix.unicode_len();
    let mut i: usize = 0;
    while i < args.len()
        invariant
            0 <= i <= args@.len(),
            plen == prefix@.len(),
            args.deep_view().len() == args@.len(),
            forall|j: int| 0 <= j < args@.len() ==> args.deep_view()[j] == args@[j]@,
            forall|j: int|
                0 <= j < i ==> !starts_with_spec(#[trigger] args.deep_view()[j], prefix@),
        decreases args@.len() - i,
    {
        let arg: &String = &args[i];
        if crate::text::str_starts_with(arg.as_str(), prefix) {
            let alen = arg.as_str().unicode_len();
            let suffix = arg.as_str().substring_char(plen, alen);
            proof {
                lemma_find_flag_skip(args.deep_view(), prefix@, i as int);
                assert(args.deep_view().skip(i as int)[0] == args.deep_view()[i as int]);
                assert(starts_with_spec(args.deep_view()[i as int], prefix@));
                assert(suffix@ =~= args.deep_view()[i as int].skip(plen as int));
            }
            return Some(String::from_str(suffix));
        }
        i = i + 1;
    }
    proof {
        lemma_find_flag_skip(args.deep_view(), prefix@, args.deep_view().len() as int);
        assert(args.deep_view().skip(args.deep_view().len() as int).len() == 0);
    }
    None
}

/// The credentials the client process advertises in its invocation
/// arguments: the first port flag's value, if it is a well-formed port
/// number, together with the first token flag's value.
pub open spec fn args_credentials(args: Seq<Seq<char>>) -> Option<(int, Seq<char>)> {
    match (find_flag(args, "--app-port="@), find_flag(args, "--remoting-auth-token="@)) {
        (Some(p), Some(t)) => if p.len() > 0 && all_digits(p) && digits_val(p) <= 65535 {
            Some((digits_val(p), t))
        } else {
            None
        },
        _ => None,
    }
}

/// Extract credentials from the client process's invocation arguments.
pub fn extract_from_args(args: &Vec<String>) -> (r: Option<DiscoveredCredentials>)
    ensures
        match r {
            Some(c) => args_credentials(args.deep_view()) matches Some(pt) && c.port as int
                == pt.0 && c.auth_token@ == pt.1,
            None => args_credentials(args.deep_view()) is None,
        },
{
    let port_text = match find_flag_value(args, "--app-port=") {
        Some(v) => v,
        None => {
            return None;
        },
    };
    let token = match find_flag_value(args, "--remoting-auth-token=") {
        Some(v) => v,
        None => {
            return None;
        },
    };
    match parse_port(port_text.as_str()) {
        Some(port) => Some(DiscoveredCredentials { port, auth_token: token }),
        None => None,
    }
}


/// The base64 alphabet, by index value, as ASCII bytes.
pub open spec fn b64_char(v: int) -> u8 {
    if 0 <= v < 26 {
        (65 + v) as u8
    } else if v < 52 {
        (97 + (v - 26)) as u8
    } else if v < 62 {
        (48 + (v - 52)) as u8
    } else if v == 62 {
        43
    } else {
        47
    }
}

/// The base64 encoding of one final group of one to three bytes, padded
/// with `=` to four output characters.
pub open spec fn b64_group(bytes: Seq<u8>) -> Seq<u8> {
    let b0 = bytes[0] as int;
    if bytes.len() == 1 {
        seq![b64_char(b0 / 4), b64_char((b0 % 4) * 16), 61u8, 61u8]
    } else if bytes.len() == 2 {
        let b1 = bytes[1] as int;
        seq![
            b64_char(b0 / 4),
            b64_char((b0 % 4) * 16 + b1 / 16),
            b64_char((b1 % 16) * 4),
            61u8,
        ]
    } else {
        let b1 = bytes[1] as int;
        let b2 = bytes[2] as int;
        seq![
            b64_char(b0 / 4),
            b64_char((b0 % 4) * 16 + b1 / 16),
            b64_char((b1 % 16) * 4 + b2 / 64),
            b64_char(b2 % 64),
        ]
    }
}

/// The base64 encoding of a byte sequence: four output characters for each
/// group of three input bytes, the final partial group padded with `=`.
pub open spec fn b64_encode(bytes: Seq<u8>) -> Seq<u8>
    decreases bytes.len(),
{
    if bytes.len() == 0 {
        Seq::empty()
    } else if bytes.len() <= 3 {
        b64_group(bytes)
    } else {
        b64_group(bytes.take(3)) + b64_encode(bytes.skip(3))
    }
}

/// One base64 alphabet character.
fn b64_char_of(v: u8) -> (r: u8)
    requires
        v < 64,
    ensures
        r == b64_char(v as int),
        r < 128,
{
    if v < 26 {
        65 + v
    } else if v < 52 {
        97 + (v - 26)
    } else if v < 62 {
        48 + (v - 52)
    } else if v == 62 {
        43
    } else {
        47
    }
}

/// Base64-encode `bytes`. The result is exactly `b64_encode(bytes@)`, and
/// every output byte is ASCII.
pub fn base64_encode(bytes: &Vec<u8>) -> (r: Vec<u8>)
    ensures
        r@ == b64_encode(bytes@),
        forall|i: int| 0 <= i < r@.len() ==> r@[i] < 128,
{
    let n = bytes.len();
    let mut out: Vec<u8> = Vec::new();
    let mut i: usize = 0;
    proof {
        assert(bytes@.skip(0) =~= bytes@);
        assert(out@ + b64_encode(bytes@.skip(0)) =~= b64_encode(bytes@));
    }
    while n - i > 3
        invariant
            0 <= i <= n,
            i % 3 == 0,
            n == bytes@.len(),
            out@ + b64_encode(bytes@.skip(i as int)) == b64_encode(bytes@),
            forall|k: int| 0 <= k < out@.len() ==> out@[k] < 128,
        decreases n - i,
    {
        let b0 = bytes[i];
        let b1 = bytes[i + 1];
        let b2 = bytes[i + 2];
        let ghost rest = bytes@.skip(i as int);
        out.push(b64_char_of(b0 / 4));
        out.push(b64_char_of((b0 % 4) * 16 + b1 / 16));
        out.push(b64_char_of((b1 % 16) * 4 + b2 / 64));
        out.push(b64_char_of(b2 % 64));
        proof {
            assert(rest.len() > 3);
            assert(rest.take(3)[0] == bytes@[i as int]);
            assert(rest.take(3)[1] == bytes@[i as int + 1]);
            assert(rest.take(3)[2] == bytes@[i as int + 2]);
            assert(rest.take(3).len() == 3);
            assert(b64_group(rest.take(3)) == seq![
                b64_char(b0 as int / 4),
                b64_char((b0 as int % 4) * 16 + b1 as int / 16),
                b64_char((b1 as int % 16) * 4 + b2 as int / 64),
                b64_char(b2 as int % 64),
            ]);
            assert(rest.skip(3) =~= bytes@.skip(i as int + 3));
            assert(out@ + b64_encode(bytes@.skip(i as int + 3)) =~= b64_encode(bytes@));
        }
        i = i + 3;
    }
    if n - i > 0 {
        let ghost rest = bytes@.skip(i as int);
        let b0 = bytes[i];
        out.push(b64_char_of(b0 / 4));
        if n - i == 1 {
            out.push(b64_char_of((b0 % 4) * 16));
            out.push(61);
            out.push(61);
            proof {
                assert(rest.len() == 1);
                assert(rest[0] == bytes@[i as int]);
            }
        } else if n - i == 2 {
            let b1 = bytes[i + 1];
            out.push(b64_char_of((b0 % 4) * 16 + b1 / 16));
            out.push(b64_char_of((b1 % 16) * 4));
            out.push(61);
            proof {
                assert(rest.len() == 2);
                assert(rest[0] == bytes@[i as int]);
                assert(rest[1] == bytes@[i as int + 1]);
            }
        } else {
            let b1 = bytes[i + 1];
            let b2 = bytes[i + 2];
            out.push(b64_char_of((b0 % 4) * 16 + b1 / 16));
            out.push(b64_char_of((b1 % 16) * 4 + b2 / 64));
            out.push(b64_char_of(b2 % 64));
            proof {
                assert(rest.len() == 3);
                assert(rest[0] == bytes@[i as int]);
                assert(rest[1] == bytes@[i as int + 1]);
                assert(rest[2] == bytes@[i as int + 2]);
            }
        }
        proof {
            assert(out@ =~= b64_encode(bytes@));
        }
    } else {
        proof {
            assert(bytes@.skip(i as int).len() == 0);
            assert(out@ =~= b64_encode(bytes@));
        }
    }
    out
}

/// The authorization header derived from a token: the fixed `riot` user
/// name and the token as password, base64-coded in the basic scheme.
pub open spec fn spec_basic_auth_header(token: Seq<char>) -> Seq<char> {
    "Basic "@ + b64_encode(vstd::utf8::encode_utf8("riot:"@ + token)).map_values(
        |b: u8| b as char,
    )
}

/// Render the authorization header for `token`.
pub fn basic_auth_header(token: &str) -> (r: String)
    ensures
        r@ == spec_basic_auth_header(token@),
{
    let mut joined = String::from_str("riot:");
    joined.append(token);
    let bytes = joined.as_str().as_bytes_vec();
    let enc = base64_encode(&bytes);
    let enc_str = crate::text::ascii_to_string(&enc);
    let mut out = String::from_str("Basic ");
    out.append(enc_str.as_str());
    proof {
        assert(out@ =~= spec_basic_auth_header(token@));
    }
    out
}

/// The outcome discovery owes for each combination of what inspection saw:
/// the client process's arguments (when it was detected), whether the
/// companion process was detected, whether the lock file was forced, and
/// the lock file's contents (when it was readable).
pub open spec fn discovery_spec(
    client_args: Option<Seq<Seq<char>>>,
    companion_detected: bool,
    force_lock_file: bool,
    lock_file: Option<Seq<char>>,
) -> Result<(int, Seq<char>), DiscoveryReason> {
    if force_lock_file {
        lock_file_outcome(lock_file)
    } else {
        match client_args {
            Some(a) => match args_credentials(a) {
                Some(pt) => Ok(pt),
                None => lock_file_outcome(lock_file),
            },
            None => if !companion_detected {
                Err(DiscoveryReason::NotRunning)
            } else {
                lock_file_outcome(lock_file)
            },
        }
    }
}

/// What the fallback path owes: the parsed lock file, or the reason it
/// could not be used.
pub open spec fn lock_file_outcome(lock_file: Option<Seq<char>>) -> Result<
    (int, Seq<char>),
    DiscoveryReason,
> {
    match lock_file {
        None => Err(DiscoveryReason::LockFileUnavailable),
        Some(contents) => match parse_lock_spec(contents) {
            Some(pt) => Ok(pt),
            None => Err(DiscoveryReason::MalformedCredentials),
        },
    }
}

/// The discovery decision: prefer the detected client process's arguments,
/// fall back to the lock file when inspection fails or when the lock file
/// is forced, and fail with "not running" when neither process was
/// detected and the lock file was not forced. Either both the port and the
/// token are returned, or an error is.
pub fn get_running_client(
    client_args: Option<&Vec<String>>,
    companion_detected: bool,
    force_lock_file: bool,
    lock_file: Option<&String>,
) -> (r: Result<DiscoveredCredentials, Error>)
    ensures
        ({
            let outcome = discovery_spec(
                match client_args {
                    Some(a) => Some(a.deep_view()),
                    None => None,
                },
                companion_detected,
                force_lock_file,
                match lock_file {
                    Some(l) => Some(l@),
                    None => None,
                },
            );
            match r {
                Ok(c) => outcome matches Ok(pt) && c.port as int == pt.0 && c.auth_token@
                    == pt.1,
                Err(e) => outcome matches Err(sr) && e matches Error::DiscoveryFailure {
                    reason,
                } && reason == sr,
            }
        }),
{
    if !force_lock_file {
        match client_args {
            Some(args) => {
                match extract_from_args(args) {
                    Some(credentials) => {
                        return Ok(credentials);
                    },
                    None => {},
                }
            },
            None => {
                if !companion_detected {
                    return Err(
                        Error::DiscoveryFailure { reason: DiscoveryReason::NotRunning },
                    );
                }
            },
        }
    }
    match lock_file {
        None => Err(Error::DiscoveryFailure { reason: DiscoveryReason::LockFileUnavailable }),
        Some(contents) => parse_lock_file(contents.as_str()),
    }
}

} // verus!
