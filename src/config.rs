use vstd::prelude::*;
use vstd::string::{StringExecFns, StringSliceAdditionalSpecFns};
use vstd::utf8::{
    encode_utf8, encode_utf8_valid_utf8, is_char_boundary, is_char_boundary_iff_not_is_continuation_byte,
    is_char_boundary_start_end_of_seq, valid_utf8,
};

use core::ops::Range;

verus! {

pub const DASH: u8 = 45;

pub const COLON: u8 = 58;

/// The message for a port range that is neither `a` nor `a-b`.
pub const PORT_RANGE_FORMAT_ERROR: &'static str = "Invalid port-range arg, the desired format is `a-b` or `a`";

/// The message for the single port 65535, whose exclusive end does not fit in a port.
pub const PORT_RANGE_END_ERROR: &'static str = "Invalid port-range arg, the port 65535 leaves no room for the range end";

/// The start and the end of the message for an address that is not `host:ports`.
pub const ADDRESS_FORMAT_ERROR_HEAD: &'static str = "Invalid address string: ";

pub const ADDRESS_FORMAT_ERROR_TAIL: &'static str = ". the desired format is `ip_or_domain_name:port-range`";

pub open spec fn is_digit(b: u8) -> bool {
    48 <= b <= 57
}

/// The value of the decimal numeral `d`, most significant digit first.
pub open spec fn decimal_value(d: Seq<u8>) -> nat
    decreases d.len(),
{
    if d.len() == 0 {
        0
    } else {
        decimal_value(d.drop_last()) * 10 + (d.last() - 48) as nat
    }
}

/// The digits of `s` after an optional leading `+`.
pub open spec fn unsigned_digits(s: Seq<u8>) -> Seq<u8> {
    if s.len() > 0 && s[0] == 43 {
        s.drop_first()
    } else {
        s
    }
}

/// The port that the text `s` denotes: an optional `+` and one or more decimal
/// digits whose value fits in 16 bits.
pub open spec fn u16_of(s: Seq<u8>) -> Option<u16> {
    let d = unsigned_digits(s);
    if d.len() > 0 && (forall|i: int| 0 <= i < d.len() ==> is_digit(#[trigger] d[i])) && decimal_value(d)
        <= u16::MAX {
        Some(decimal_value(d) as u16)
    } else {
        None
    }
}

/// Relies on `u16`'s `FromStr` (`str::parse::<u16>`): it accepts exactly an
/// optional `+` followed by one or more ASCII digits whose value fits in `u16`,
/// and fails on anything else; the error is rendered with its `Display`.
#[verifier::external_body]
fn parse_u16(s: &str) -> (r: Result<u16, String>)
    ensures
        r is Ok <==> u16_of(s.spec_bytes()) is Some,
        r is Ok ==> r->Ok_0 == u16_of(s.spec_bytes())->0,
{
    s.parse::<u16>().map_err(|err| err.to_string())
}

pub open spec fn sep_free(b: Seq<u8>, sep: u8) -> bool {
    forall|i: int| 0 <= i < b.len() ==> b[i] != sep
}

/// `b` holds `sep` at index `k` and nowhere else.
pub open spec fn single_sep_at(b: Seq<u8>, sep: u8, k: int) -> bool {
    &&& 0 <= k < b.len()
    &&& b[k] == sep
    &&& sep_free(b.take(k), sep)
    &&& sep_free(b.skip(k + 1), sep)
}

pub open spec fn has_single_sep(b: Seq<u8>, sep: u8) -> bool {
    exists|k: int| single_sep_at(b, sep, k)
}

/// The index of the one `sep` in `b`.
pub open spec fn sep_index(b: Seq<u8>, sep: u8) -> int {
    choose|k: int| single_sep_at(b, sep, k)
}

/// How often a separator occurs in a byte string.
pub enum SepSearch {
    Absent,
    Once(usize),
    Repeated,
}

proof fn lemma_single_sep_unique(b: Seq<u8>, sep: u8, k: int, j: int)
    requires
        single_sep_at(b, sep, k),
        single_sep_at(b, sep, j),
    ensures
        k == j,
{
    if j < k {
        assert(b.take(k)[j] == b[j]);
    } else if k < j {
        assert(b.skip(k + 1)[j - k - 1] == b[j]);
    }
}

/// Finds whether `sep` occurs in `b` not at all, once (and where), or more often.
fn find_sep(b: &[u8], sep: u8) -> (r: SepSearch)
    ensures
        r is Absent <==> sep_free(b@, sep),
        r is Once ==> single_sep_at(b@, sep, r->Once_0 as int) && sep_index(b@, sep) == r->Once_0 as int,
        r is Once <==> has_single_sep(b@, sep),
{
    let mut found: Option<usize> = None;
    let mut i: usize = 0;
    while i < b.len()
        invariant
            0 <= i <= b@.len(),
            found is None ==> sep_free(b@.take(i as int), sep),
            found is Some ==> found->0 < i && b@[found->0 as int] == sep && sep_free(
                b@.take(found->0 as int),
                sep,
            ) && sep_free(b@.subrange(found->0 + 1, i as int), sep),
        decreases b@.len() - i,
    {
        if b[i] == sep {
            match found {
                None => {
                    found = Some(i);
                },
                Some(k) => {
                    assert(b@.subrange(k + 1, i as int + 1)[i - k - 1] == sep);
                    proof {
                        let k_ghost = k as int;
                        if has_single_sep(b@, sep) {
                            let j = choose|j: int| single_sep_at(b@, sep, j);
                            if j < i {
                                if j != k_ghost {
                                    if j < k_ghost {
                                        assert(b@.take(k_ghost)[j] == b@[j]);
                                    } else {
                                        assert(b@.subrange(k_ghost + 1, i as int)[j - k_ghost - 1]
                                            == b@[j]);
                                    }
                                }
                                assert(b@.skip(j + 1)[i - j - 1] == b@[i as int]);
                            } else {
                                assert(b@.take(j)[k_ghost] == b@[k_ghost]);
                            }
                        }
                    }
                    return SepSearch::Repeated;
                },
            }
        }
        i = i + 1;
    }
    match found {
        None => {
            assert(b@.take(i as int) =~= b@);
            SepSearch::Absent
        },
        Some(k) => {
            assert(b@.subrange(k + 1, i as int) =~= b@.skip(k + 1));
            proof {
                if exists|j: int| single_sep_at(b@, sep, j) {
                    let j = choose|j: int| single_sep_at(b@, sep, j);
                    lemma_single_sep_unique(b@, sep, j, k as int);
                }
            }
            assert(single_sep_at(b@, sep, k as int));
            assert(!sep_free(b@, sep));
            SepSearch::Once(k)
        },
    }
}

proof fn lemma_boundary_at(s: &str, k: int)
    requires
        0 <= k < s.spec_bytes().len(),
        s.spec_bytes()[k] < 128,
    ensures
        is_char_boundary(s.spec_bytes(), k),
        is_char_boundary(s.spec_bytes(), k + 1),
{
    let b = s.spec_bytes();
    encode_utf8_valid_utf8(s@);
    is_char_boundary_start_end_of_seq(b);
    is_char_boundary_iff_not_is_continuation_byte(b, k);
    lemma_boundary_after_boundary(b, k);
}

proof fn lemma_boundary_after_boundary(b: Seq<u8>, k: int)
    requires
        valid_utf8(b),
        0 <= k < b.len(),
        b[k] < 128,
        is_char_boundary(b, k),
    ensures
        is_char_boundary(b, k + 1),
{
    is_char_boundary_start_end_of_seq(b);
    if k + 1 < b.len() {
        vstd::utf8::valid_utf8_split(b, k);
        let rest = b.subrange(k, b.len() as int);
        let after = b.subrange(k + 1, b.len() as int);
        assert(vstd::utf8::pop_first_scalar(rest) =~= after);
        assert(valid_utf8(after));
        is_char_boundary_iff_not_is_continuation_byte(after, 0);
        is_char_boundary_iff_not_is_continuation_byte(b, k + 1);
    }
}

/// The text of a port range: `a` for the single port `a`, or `a-b` for the
/// ports from `a` up to, not including, `b`.
pub open spec fn port_range_of(b: Seq<u8>) -> Option<Range<u16>> {
    if sep_free(b, DASH) {
        match u16_of(b) {
            Some(p) => if p < u16::MAX {
                Some(Range { start: p, end: (p + 1) as u16 })
            } else {
                None
            },
            None => None,
        }
    } else if has_single_sep(b, DASH) {
        let k = sep_index(b, DASH);
        match (u16_of(b.take(k)), u16_of(b.skip(k + 1))) {
            (Some(a), Some(c)) => Some(Range { start: a, end: c }),
            _ => None,
        }
    } else {
        None
    }
}

/// Splits `s` around its byte `k`, an ASCII separator.
fn split_around(s: &str, k: usize) -> (r: (&str, &str))
    requires
        k < s.spec_bytes().len(),
        s.spec_bytes()[k as int] < 128,
    ensures
        r.0.spec_bytes() == s.spec_bytes().take(k as int),
        r.1.spec_bytes() == s.spec_bytes().skip(k + 1),
{
    proof {
        lemma_boundary_at(s, k as int);
    }
    let n = s.as_bytes().len();
    assert(k + 1 <= n);
    let (head, _) = s.split_at(k);
    let (_, tail) = s.split_at(k + 1);
    assert(head.spec_bytes() =~= s.spec_bytes().take(k as int));
    assert(tail.spec_bytes() =~= s.spec_bytes().skip(k + 1));
    (head, tail)
}

/// Parses a port range, `a` or `a-b`, into the half-open range of ports it
/// names. The text is rejected when it holds two or more dashes, when a port
/// is not a 16-bit decimal number, and for the single port 65535, whose range
/// end would not fit in a port.
pub fn clap_parse_ports(s: &str) -> (r: Result<Range<u16>, String>)
    ensures
        r is Ok <==> port_range_of(s.spec_bytes()) is Some,
        r is Ok ==> Some(r->Ok_0) == port_range_of(s.spec_bytes()),
        !sep_free(s.spec_bytes(), DASH) && !has_single_sep(s.spec_bytes(), DASH) ==> r is Err
            && r->Err_0@ == PORT_RANGE_FORMAT_ERROR@,
        sep_free(s.spec_bytes(), DASH) && u16_of(s.spec_bytes()) == Some(u16::MAX) ==> r is Err
            && r->Err_0@ == PORT_RANGE_END_ERROR@,
{
    let bytes = s.as_bytes();
    match find_sep(bytes, DASH) {
        SepSearch::Absent => {
            match parse_u16(s) {
                Ok(start) => {
                    if start == u16::MAX {
                        Err(String::from_str(PORT_RANGE_END_ERROR))
                    } else {
                        Ok(Range { start, end: start + 1 })
                    }
                },
                Err(e) => Err(e),
            }
        },
        SepSearch::Once(k) => {
            let (head, tail) = split_around(s, k);
            let start = match parse_u16(head) {
                Ok(p) => p,
                Err(e) => {
                    return Err(e);
                },
            };
            let end = match parse_u16(tail) {
                Ok(p) => p,
                Err(e) => {
                    return Err(e);
                },
            };
            Ok(Range { start, end })
        },
        SepSearch::Repeated => Err(String::from_str(PORT_RANGE_FORMAT_ERROR)),
    }
}

/// A forwarding endpoint as written on the command line: a host (an IP
/// address or a domain name) and a range of ports on it.
pub struct Endpoint {
    pub host: String,
    pub ports: Range<u16>,
}

/// Parses `host:ports`, where `ports` is a port range as `clap_parse_ports`
/// reads it. Text with no colon or with several is rejected with a message
/// that quotes it; a malformed port range is rejected with the message of
/// `clap_parse_ports`. Resolving the host to socket addresses is left to the
/// caller.
pub fn parse_endpoint(s: &str) -> (r: Result<Endpoint, String>)
    ensures
        !has_single_sep(s.spec_bytes(), COLON) ==> r is Err && r->Err_0@
            == ADDRESS_FORMAT_ERROR_HEAD@ + s@ + ADDRESS_FORMAT_ERROR_TAIL@,
        has_single_sep(s.spec_bytes(), COLON) ==> ({
            let b = s.spec_bytes();
            let k = sep_index(b, COLON);
            &&& r is Ok <==> port_range_of(b.skip(k + 1)) is Some
            &&& r is Ok ==> encode_utf8(r->Ok_0.host@) == b.take(k) && Some(r->Ok_0.ports)
                == port_range_of(b.skip(k + 1))
        }),
{
    let bytes = s.as_bytes();
    match find_sep(bytes, COLON) {
        SepSearch::Once(k) => {
            let (head, tail) = split_around(s, k);
            match clap_parse_ports(tail) {
                Ok(ports) => {
                    let host = head.to_owned();
                    Ok(Endpoint { host, ports })
                },
                Err(e) => Err(e),
            }
        },
        _ => {
            let mut msg = String::from_str(ADDRESS_FORMAT_ERROR_HEAD);
            msg.append(s);
            msg.append(ADDRESS_FORMAT_ERROR_TAIL);
            Err(msg)
        },
    }
}

/// The congestion control algorithm of the QUIC connections.
#[derive(Clone, Copy, Debug, PartialEq, Eq, Structural)]
#[allow(non_camel_case_types, clippy::upper_case_acronyms)]
pub enum QuicCongestionControlAlgorithm {
    /// Reno congestion control algorithm. `reno` in a string form.
    Reno,
    /// CUBIC congestion control algorithm (default). `cubic` in a string form.
    CUBIC,
    /// BBR congestion control algorithm. `bbr` in a string form.
    BBR,
    /// BBRv2 congestion control algorithm. `bbr2` in a string form.
    BBR2,
}

impl Default for QuicCongestionControlAlgorithm {
    fn default() -> (r: QuicCongestionControlAlgorithm)
        ensures
            r == QuicCongestionControlAlgorithm::CUBIC,
    {
        QuicCongestionControlAlgorithm::CUBIC
    }
}

/// The tunnel options that shape the QUIC transport.
pub struct TransportOptions {
    /// Idle timeout of a QUIC connection, in milliseconds.
    pub timeout_ms: u128,
    /// Largest UDP payload sent.
    pub mtu: usize,
    pub cc: QuicCongestionControlAlgorithm,
    /// Bytes of incoming data buffered per stream.
    pub buf: u64,
    /// Concurrent streams allowed on one connection.
    pub mux: u64,
    pub max_conn_win: u64,
    pub max_stream_win: u64,
}

/// The QUIC transport parameters that a tunnel endpoint is configured with.
pub struct TransportSettings {
    pub max_idle_timeout_ms: u64,
    pub max_send_udp_payload_size: usize,
    pub initial_max_data: u64,
    pub initial_max_stream_data_bidi_local: u64,
    pub initial_max_stream_data_bidi_remote: u64,
    pub initial_max_streams_bidi: u64,
    pub initial_max_streams_uni: u64,
    pub disable_active_migration: bool,
    pub cc: QuicCongestionControlAlgorithm,
    pub max_connection_window: u64,
    pub max_stream_window: u64,
}

/// The transport parameters for `opts`: every stream may buffer `buf` bytes
/// each way, a connection `buf` bytes for each of its `mux` streams; the idle
/// timeout is the millisecond count cut to 64 bits.
pub fn transport_settings(opts: &TransportOptions) -> (r: TransportSettings)
    requires
        opts.buf * opts.mux <= u64::MAX,
    ensures
        r.max_idle_timeout_ms == opts.timeout_ms as u64,
        r.max_send_udp_payload_size == opts.mtu,
        r.initial_max_data == opts.buf * opts.mux,
        r.initial_max_stream_data_bidi_local == opts.buf,
        r.initial_max_stream_data_bidi_remote == opts.buf,
        r.initial_max_streams_bidi == opts.mux,
        r.initial_max_streams_uni == opts.mux,
        !r.disable_active_migration,
        r.cc == opts.cc,
        r.max_connection_window == opts.max_conn_win,
        r.max_stream_window == opts.max_stream_win,
{
    TransportSettings {
        max_idle_timeout_ms: opts.timeout_ms as u64,
        max_send_udp_payload_size: opts.mtu,
        initial_max_data: opts.buf * opts.mux,
        initial_max_stream_data_bidi_local: opts.buf,
        initial_max_stream_data_bidi_remote: opts.buf,
        initial_max_streams_bidi: opts.mux,
        initial_max_streams_uni: opts.mux,
        disable_active_migration: false,
        cc: opts.cc,
        max_connection_window: opts.max_conn_win,
        max_stream_window: opts.max_stream_win,
    }
}

} // verus!
