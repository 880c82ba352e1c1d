//! Tunnelling through an HTTP proxy: the CONNECT request sent to the proxy, and the checks on
//! its response before the tunnel is used.
use vstd::prelude::*;
use vstd::string::StringSliceAdditionalSpecFns;
use vstd::utf8::encode_utf8;

verus! {

/// The most bytes of response headers accepted from a proxy.
pub const MAX_PROXY_RESPONSE_HEADER_BYTES: usize = 65536;

/// How to authenticate with a proxy.
pub enum ProxyAuthorization {
    /// No authentication.
    Unauthenticated,
    /// HTTP Basic authentication.
    Basic { username: String, password: String },
}

/// Why tunnelling through a proxy failed.
#[derive(Debug, PartialEq, Eq)]
pub enum ProxyError {
    /// The target host is empty, or holds an ASCII control character or a space.
    InvalidTarget,
    /// The proxy's response headers exceed the size limit.
    HeadersTooLarge,
    /// The proxy did not accept the CONNECT; its status line is given.
    ConnectFailed { status_line: String },
}

/// Whether `b` is an ASCII control character.
pub open spec fn is_ascii_control(b: u8) -> bool {
    b < 0x20 || b == 0x7f
}

/// Whether `host` can stand in a CONNECT request: it is not empty, and holds no ASCII control
/// character or space, which would let it split the request or inject headers.
pub open spec fn valid_proxy_target(host: Seq<u8>) -> bool {
    &&& host.len() > 0
    &&& forall|i: int| 0 <= i < host.len() ==> !is_ascii_control(#[trigger] host[i]) && host[i] != 0x20
}

/// The decimal digits of `n`, in ASCII.
pub open spec fn decimal(n: nat) -> Seq<u8>
    decreases n,
{
    if n < 10 {
        seq![(0x30 + n) as u8]
    } else {
        decimal(n / 10).push((0x30 + n % 10) as u8)
    }
}

/// The authority of a target, `host:port`, with an IPv6 address (one holding `:`) in square
/// brackets.
pub open spec fn authority(host: Seq<u8>, port: u16) -> Seq<u8> {
    if host.contains(0x3a) {
        seq![0x5bu8] + host + seq![0x5du8, 0x3au8] + decimal(port as nat)
    } else {
        host + seq![0x3au8] + decimal(port as nat)
    }
}

/// `CONNECT `.
pub open spec fn connect_word() -> Seq<u8> {
    seq![0x43u8, 0x4fu8, 0x4eu8, 0x4eu8, 0x45u8, 0x43u8, 0x54u8, 0x20u8]
}

/// ` HTTP/1.1`, a line end, and `Host: `.
pub open spec fn version_and_host() -> Seq<u8> {
    seq![
        0x20u8, 0x48u8, 0x54u8, 0x54u8, 0x50u8, 0x2fu8, 0x31u8, 0x2eu8, 0x31u8, 0x0du8, 0x0au8,
        0x48u8, 0x6fu8, 0x73u8, 0x74u8, 0x3au8, 0x20u8,
    ]
}

/// `Proxy-Authorization: Basic `.
pub open spec fn basic_authorization() -> Seq<u8> {
    seq![
        0x50u8, 0x72u8, 0x6fu8, 0x78u8, 0x79u8, 0x2du8, 0x41u8, 0x75u8, 0x74u8, 0x68u8, 0x6fu8,
        0x72u8, 0x69u8, 0x7au8, 0x61u8, 0x74u8, 0x69u8, 0x6fu8, 0x6eu8, 0x3au8, 0x20u8, 0x42u8,
        0x61u8, 0x73u8, 0x69u8, 0x63u8, 0x20u8,
    ]
}

/// A line end.
pub open spec fn crlf() -> Seq<u8> {
    seq![0x0du8, 0x0au8]
}

/// The CONNECT request for a target, with Basic credentials if given: the request line, the
/// `Host` header, the `Proxy-Authorization` header, and an empty line.
pub open spec fn connect_request(host: Seq<u8>, port: u16, credentials: Option<Seq<u8>>) -> Seq<u8> {
    let a = authority(host, port);
    connect_word() + a + version_and_host() + a + crlf() + match credentials {
        Some(c) => basic_authorization() + c + crlf(),
        None => Seq::empty(),
    } + crlf()
}

/// The character of the base64 alphabet for the six-bit value `v`.
pub open spec fn base64_char(v: int) -> u8 {
    if v < 26 {
        (0x41 + v) as u8
    } else if v < 52 {
        (0x61 + v - 26) as u8
    } else if v < 62 {
        (0x30 + v - 52) as u8
    } else if v == 62 {
        0x2Bu8
    } else {
        0x2Fu8
    }
}

/// The base64 encoding, with `=` padding and no line breaks, of `src`: each group of three bytes,
/// read as a 24-bit big-endian number, becomes four characters of six bits each; a last group of
/// one or two bytes is filled with zero bits and its missing characters with `=`.
pub open spec fn base64_block(src: Seq<u8>) -> Seq<u8>
    decreases src.len(),
{
    if src.len() == 0 {
        Seq::empty()
    } else if src.len() == 1 {
        let n = src[0] as int * 65536;
        seq![base64_char(n / 262144), base64_char((n / 4096) % 64), 0x3Du8, 0x3Du8]
    } else if src.len() == 2 {
        let n = src[0] as int * 65536 + src[1] as int * 256;
        seq![base64_char(n / 262144), base64_char((n / 4096) % 64), base64_char((n / 64) % 64), 0x3Du8]
    } else {
        let n = src[0] as int * 65536 + src[1] as int * 256 + src[2] as int;
        seq![
            base64_char(n / 262144),
            base64_char((n / 4096) % 64),
            base64_char((n / 64) % 64),
            base64_char(n % 64),
        ] + base64_block(src.skip(3))
    }
}

/// `openssl::base64::encode_block`: the base64 encoding of `src`, as bytes: standard base64 with
/// padding and no line breaks, as `EVP_EncodeBlock` writes it and the crate's own tests show.
/// It panics where the length of its output would not fit in a C `int`, which `requires` leaves
/// out.
#[verifier::external_body]
fn encode_block(src: &[u8]) -> (r: Vec<u8>)
    requires
        (src@.len() / 3) * 4 + 5 <= i32::MAX,
    ensures
        r@ == base64_block(src@),
{
    openssl::base64::encode_block(src).into_bytes()
}

/// The credentials of Basic authentication: `username:password` in base64.
pub open spec fn basic_credentials(username: Seq<u8>, password: Seq<u8>) -> Seq<u8> {
    base64_block(username + seq![0x3au8] + password)
}

/// Whether the credentials of `auth` are short enough to encode.
pub open spec fn encodable(auth: ProxyAuthorization) -> bool {
    match auth {
        ProxyAuthorization::Unauthenticated => true,
        ProxyAuthorization::Basic { username, password } => ((encode_utf8(username@).len()
            + encode_utf8(password@).len() + 1) as int / 3) * 4 + 5 <= i32::MAX,
    }
}

/// Appends the bytes `s` to `v`.
fn append(v: &mut Vec<u8>, s: &[u8])
    ensures
        final(v)@ == old(v)@ + s@,
{
    v.extend_from_slice(s);
}

/// The decimal digits of `n`, in ASCII.
pub fn decimal_bytes(n: u16) -> (r: Vec<u8>)
    ensures
        r@ == decimal(n as nat),
    decreases n,
{
    if n < 10 {
        vec![0x30u8 + n as u8]
    } else {
        let mut r = decimal_bytes(n / 10);
        r.push(0x30u8 + (n % 10) as u8);
        r
    }
}

/// Whether `host` can stand in a CONNECT request.
pub fn check_proxy_target(host: &[u8]) -> (r: bool)
    ensures
        r == valid_proxy_target(host@),
{
    if host.len() == 0 {
        return false;
    }
    let mut i: usize = 0;
    while i < host.len()
        invariant
            i <= host.len(),
            forall|j: int| 0 <= j < i ==> !is_ascii_control(#[trigger] host@[j]) && host@[j] != 0x20,
        decreases host.len() - i,
    {
        let b = host[i];
        if b < 0x20 || b == 0x7f || b == 0x20 {
            return false;
        }
        i = i + 1;
    }
    true
}

/// The authority of a target.
fn authority_bytes(host: &[u8], port: u16) -> (r: Vec<u8>)
    ensures
        r@ == authority(host@, port),
{
    let mut has_colon = false;
    let mut i: usize = 0;
    while i < host.len()
        invariant
            i <= host.len(),
            has_colon == host@.subrange(0, i as int).contains(0x3a),
        decreases host.len() - i,
    {
        if host[i] == 0x3a {
            has_colon = true;
            assert(host@.subrange(0, i + 1)[i as int] == 0x3a);
        }
        proof {
            assert(host@.subrange(0, i + 1) =~= host@.subrange(0, i as int).push(host@[i as int]));
        }
        i = i + 1;
    }
    assert(host@.subrange(0, host@.len() as int) =~= host@);
    let mut r: Vec<u8> = Vec::new();
    if has_colon {
        r.push(0x5b);
        append(&mut r, host);
        r.push(0x5d);
        r.push(0x3a);
    } else {
        append(&mut r, host);
        r.push(0x3a);
    }
    let digits = decimal_bytes(port);
    append(&mut r, digits.as_slice());
    proof {
        if has_colon {
            assert(r@ =~= seq![0x5bu8] + host@ + seq![0x5du8, 0x3au8] + decimal(port as nat));
        } else {
            assert(r@ =~= host@ + seq![0x3au8] + decimal(port as nat));
        }
    }
    r
}

/// The CONNECT request for a target, with Basic credentials (already in base64) if given; a
/// target that cannot stand in a request is refused.
pub fn connect_request_bytes(host: &str, port: u16, credentials: Option<&[u8]>) -> (r: Result<
    Vec<u8>,
    ProxyError,
>)
    ensures
        match r {
            Ok(bytes) => valid_proxy_target(host.spec_bytes()) && bytes@ == connect_request(
                host.spec_bytes(),
                port,
                match credentials {
                    Some(c) => Some(c@),
                    None => None,
                },
            ),
            Err(e) => !valid_proxy_target(host.spec_bytes()) && e == ProxyError::InvalidTarget,
        },
{
    let host_bytes = host.as_bytes();
    if !check_proxy_target(host_bytes) {
        return Err(ProxyError::InvalidTarget);
    }
    let a = authority_bytes(host_bytes, port);
    let mut r: Vec<u8> = vec![0x43u8, 0x4fu8, 0x4eu8, 0x4eu8, 0x45u8, 0x43u8, 0x54u8, 0x20u8];
    append(&mut r, a.as_slice());
    let v = vec![
        0x20u8, 0x48u8, 0x54u8, 0x54u8, 0x50u8, 0x2fu8, 0x31u8, 0x2eu8, 0x31u8, 0x0du8, 0x0au8,
        0x48u8, 0x6fu8, 0x73u8, 0x74u8, 0x3au8, 0x20u8,
    ];
    append(&mut r, v.as_slice());
    append(&mut r, a.as_slice());
    r.push(0x0d);
    r.push(0x0a);
    let ghost head = r@;
    match credentials {
        Some(c) => {
            let b = vec![
                0x50u8, 0x72u8, 0x6fu8, 0x78u8, 0x79u8, 0x2du8, 0x41u8, 0x75u8, 0x74u8, 0x68u8,
                0x6fu8, 0x72u8, 0x69u8, 0x7au8, 0x61u8, 0x74u8, 0x69u8, 0x6fu8, 0x6eu8, 0x3au8,
                0x20u8, 0x42u8, 0x61u8, 0x73u8, 0x69u8, 0x63u8, 0x20u8,
            ];
            append(&mut r, b.as_slice());
            append(&mut r, c);
            r.push(0x0d);
            r.push(0x0a);
            assert(r@ =~= head + (basic_authorization() + c@ + crlf()));
        },
        None => {
            assert(r@ =~= head + Seq::<u8>::empty());
        },
    }
    let ghost body = r@;
    r.push(0x0d);
    r.push(0x0a);
    proof {
        assert(head =~= connect_word() + a@ + version_and_host() + a@ + crlf());
        assert(r@ =~= body + crlf());
    }
    Ok(r)
}

/// The CONNECT request for a target, authenticated as `auth` says: Basic credentials are
/// `username:password` in base64. A target that cannot stand in a request is refused.
pub fn proxy_connect_request(host: &str, port: u16, auth: &ProxyAuthorization) -> (r: Result<
    Vec<u8>,
    ProxyError,
>)
    requires
        encodable(*auth),
    ensures
        match r {
            Ok(bytes) => valid_proxy_target(host.spec_bytes()) && bytes@ == connect_request(
                host.spec_bytes(),
                port,
                match *auth {
                    ProxyAuthorization::Unauthenticated => None,
                    ProxyAuthorization::Basic { username, password } => Some(
                        basic_credentials(encode_utf8(username@), encode_utf8(password@)),
                    ),
                },
            ),
            Err(e) => !valid_proxy_target(host.spec_bytes()) && e == ProxyError::InvalidTarget,
        },
{
    match auth {
        ProxyAuthorization::Unauthenticated => connect_request_bytes(host, port, None),
        ProxyAuthorization::Basic { username, password } => {
            let mut plain: Vec<u8> = Vec::new();
            append(&mut plain, username.as_str().as_bytes());
            plain.push(0x3a);
            append(&mut plain, password.as_str().as_bytes());
            assert(plain@ =~= encode_utf8(username@) + seq![0x3au8] + encode_utf8(password@));
            let credentials = encode_block(plain.as_slice());
            connect_request_bytes(host, port, Some(credentials.as_slice()))
        },
    }
}

/// Whether `c` is white space, as `char::is_whitespace` documents it: a character with the
/// Unicode White_Space property.
pub open spec fn is_white_space(c: char) -> bool {
    let n = c as u32;
    ||| 0x09 <= n <= 0x0d
    ||| n == 0x20
    ||| n == 0x85
    ||| n == 0xa0
    ||| n == 0x1680
    ||| 0x2000 <= n <= 0x200a
    ||| n == 0x2028
    ||| n == 0x2029
    ||| n == 0x202f
    ||| n == 0x205f
    ||| n == 0x3000
}

/// `s` without its leading white space.
pub open spec fn skip_white(s: Seq<char>) -> Seq<char>
    decreases s.len(),
{
    if s.len() > 0 && is_white_space(s[0]) {
        skip_white(s.drop_first())
    } else {
        s
    }
}

/// The characters of `s` before its first white space.
pub open spec fn leading_word(s: Seq<char>) -> Seq<char>
    decreases s.len(),
{
    if s.len() == 0 || is_white_space(s[0]) {
        Seq::empty()
    } else {
        seq![s[0]] + leading_word(s.drop_first())
    }
}

/// The first word of `s`, words being separated by white space.
pub open spec fn first_word(s: Seq<char>) -> Seq<char> {
    leading_word(skip_white(s))
}

/// The second word of `s`, if any; empty otherwise.
pub open spec fn second_word(s: Seq<char>) -> Seq<char> {
    leading_word(skip_white(skip_white(s).skip(first_word(s).len() as int)))
}

/// Whether `c` is an ASCII digit.
pub open spec fn is_digit(c: char) -> bool {
    '0' <= c <= '9'
}

/// Whether a proxy's status line accepts the CONNECT: its first word is `HTTP/1.1` or
/// `HTTP/1.0`, and its second a status code of three characters in 200..=299.
pub open spec fn status_accepted(line: Seq<char>) -> bool {
    let version = first_word(line);
    let status = second_word(line);
    &&& version == seq!['H', 'T', 'T', 'P', '/', '1', '.', '1'] || version == seq![
        'H',
        'T',
        'T',
        'P',
        '/',
        '1',
        '.',
        '0',
    ]
    &&& status.len() == 3
    &&& status[0] == '2'
    &&& is_digit(status[1])
    &&& is_digit(status[2])
}

/// Whether a response line is the empty line that ends the headers, or the end of the
/// response.
pub open spec fn ends_headers(line: Seq<char>) -> bool {
    line == seq!['\r', '\n'] || line == seq!['\n'] || line.len() == 0
}

/// Whether `c` is white space.
fn white_space(c: char) -> (r: bool)
    ensures
        r == is_white_space(c),
{
    let n = c as u32;
    (0x09 <= n && n <= 0x0d) || n == 0x20 || n == 0x85 || n == 0xa0 || n == 0x1680 || (0x2000
        <= n && n <= 0x200a) || n == 0x2028 || n == 0x2029 || n == 0x202f || n == 0x205f || n
        == 0x3000
}

/// The characters of `line`.
fn chars_of(line: &str) -> (r: Vec<char>)
    ensures
        r@ == line@,
{
    let mut r: Vec<char> = Vec::new();
    let iter = line.chars();
    let ghost elts = vstd::string::into_iter_elts(iter);
    assert(elts == line@);
    for c in it: iter
        invariant
            elts == line@,
            it.seq().len() == elts.len(),
            forall|i: int| 0 <= i < elts.len() ==> it.seq()[i] == elts[i],
            r@ == elts.take(it.index() as int),
    {
        r.push(c);
        proof {
            assert(elts.take(it.index() + 1) =~= elts.take(it.index() as int).push(c));
        }
    }
    assert(elts.take(elts.len() as int) =~= elts);
    r
}

/// Skipping the white space at the front of `s.skip(i)` one character at a time.
proof fn lemma_skip_white_step(s: Seq<char>, i: int)
    requires
        0 <= i <= s.len(),
    ensures
        i < s.len() && is_white_space(s[i]) ==> skip_white(s.skip(i)) == skip_white(s.skip(i + 1)),
        i == s.len() || !is_white_space(s[i]) ==> skip_white(s.skip(i)) == s.skip(i),
{
    if i < s.len() {
        assert(s.skip(i)[0] == s[i]);
        assert(s.skip(i).drop_first() =~= s.skip(i + 1));
    } else {
        assert(s.skip(i).len() == 0);
    }
}

/// Taking the word at the front of `s.skip(i)` one character at a time.
proof fn lemma_leading_word_step(s: Seq<char>, i: int)
    requires
        0 <= i <= s.len(),
    ensures
        i < s.len() && !is_white_space(s[i]) ==> leading_word(s.skip(i)) == seq![s[i]]
            + leading_word(s.skip(i + 1)),
        i == s.len() || is_white_space(s[i]) ==> leading_word(s.skip(i)) == Seq::<char>::empty(),
{
    if i < s.len() {
        assert(s.skip(i)[0] == s[i]);
        assert(s.skip(i).drop_first() =~= s.skip(i + 1));
    } else {
        assert(s.skip(i).len() == 0);
    }
}

/// The position after the white space that starts at `from` in `v`.
fn skip_white_from(v: &Vec<char>, from: usize) -> (r: usize)
    requires
        from <= v.len(),
    ensures
        from <= r <= v.len(),
        skip_white(v@.skip(from as int)) == v@.skip(r as int),
{
    let mut i = from;
    while i < v.len() && white_space(v[i])
        invariant
            from <= i <= v.len(),
            skip_white(v@.skip(from as int)) == skip_white(v@.skip(i as int)),
        decreases v.len() - i,
    {
        proof {
            lemma_skip_white_step(v@, i as int);
        }
        i = i + 1;
    }
    proof {
        lemma_skip_white_step(v@, i as int);
    }
    i
}

/// The position after the word that starts at `from` in `v`.
fn word_end_from(v: &Vec<char>, from: usize) -> (r: usize)
    requires
        from <= v.len(),
    ensures
        from <= r <= v.len(),
        leading_word(v@.skip(from as int)) == v@.subrange(from as int, r as int),
{
    let mut i = from;
    while i < v.len() && !white_space(v[i])
        invariant
            from <= i <= v.len(),
            leading_word(v@.skip(from as int)) == v@.subrange(from as int, i as int)
                + leading_word(v@.skip(i as int)),
        decreases v.len() - i,
    {
        proof {
            lemma_leading_word_step(v@, i as int);
            assert(v@.subrange(from as int, i + 1) =~= v@.subrange(from as int, i as int)
                + seq![v@[i as int]]);
        }
        i = i + 1;
    }
    proof {
        lemma_leading_word_step(v@, i as int);
        assert(v@.subrange(from as int, i as int) + Seq::<char>::empty() =~= v@.subrange(
            from as int,
            i as int,
        ));
    }
    i
}

/// Whether a proxy's status line accepts the CONNECT.
pub fn proxy_status_accepted(line: &str) -> (r: bool)
    ensures
        r == status_accepted(line@),
{
    let v = chars_of(line);
    let s1 = skip_white_from(&v, 0);
    let e1 = word_end_from(&v, s1);
    let s2 = skip_white_from(&v, e1);
    let e2 = word_end_from(&v, s2);
    proof {
        let s = v@;
        assert(s.skip(0) =~= s);
        assert(skip_white(s).skip(first_word(s).len() as int) =~= s.skip(e1 as int));
    }
    let version_ok = e1 - s1 == 8 && v[s1] == 'H' && v[s1 + 1] == 'T' && v[s1 + 2] == 'T'
        && v[s1 + 3] == 'P' && v[s1 + 4] == '/' && v[s1 + 5] == '1' && v[s1 + 6] == '.' && (v[s1
        + 7] == '1' || v[s1 + 7] == '0');
    let status_ok = e2 - s2 == 3 && v[s2] == '2' && '0' <= v[s2 + 1] && v[s2 + 1] <= '9' && '0'
        <= v[s2 + 2] && v[s2 + 2] <= '9';
    proof {
        let s = v@;
        let version = s.subrange(s1 as int, e1 as int);
        let h11 = seq!['H', 'T', 'T', 'P', '/', '1', '.', '1'];
        let h10 = seq!['H', 'T', 'T', 'P', '/', '1', '.', '0'];
        if version_ok {
            if s[s1 + 7] == '1' {
                assert(version =~= h11);
            } else {
                assert(version =~= h10);
            }
        }
        if version == h11 || version == h10 {
            assert(version.len() == 8);
            assert(version[7] == s[s1 + 7]);
        }
    }
    version_ok && status_ok
}

/// How far a proxy's response has been read.
pub struct ProxyResponse {
    header_bytes: usize,
    status_read: bool,
}

/// What follows a line of a proxy's response.
#[derive(Debug, PartialEq, Eq)]
pub enum ProxyLine {
    /// More header lines follow.
    MoreHeaders,
    /// The headers ended: the connection is now a tunnel to the target.
    Tunnel,
}

impl ProxyResponse {
    /// The bytes of response read so far.
    pub closed spec fn header_bytes(&self) -> nat {
        self.header_bytes as nat
    }

    /// Whether the status line was read.
    pub closed spec fn status_read(&self) -> bool {
        self.status_read
    }

    /// What every response being read keeps: its bytes within the limit.
    pub closed spec fn wf(&self) -> bool {
        self.header_bytes <= MAX_PROXY_RESPONSE_HEADER_BYTES
    }

    /// A response of which nothing was read.
    pub fn new() -> (r: Self)
        ensures
            r.wf(),
            r.header_bytes() == 0,
            !r.status_read(),
    {
        ProxyResponse { header_bytes: 0, status_read: false }
    }

    /// The most bytes the next line may have: one more than what the limit leaves, so that a
    /// line over it is seen.
    pub fn line_limit(&self) -> (r: usize)
        requires
            self.wf(),
        ensures
            r == MAX_PROXY_RESPONSE_HEADER_BYTES - self.header_bytes() + 1,
    {
        MAX_PROXY_RESPONSE_HEADER_BYTES - self.header_bytes + 1
    }

    /// Takes the next line of the response, read with at most `line_limit` bytes: headers over
    /// the limit fail; the first line must be a status line that accepts the CONNECT; after
    /// it, an empty line or the end of the response ends the headers. After an error the
    /// response is not read further, and its state is left as it was.
    pub fn take_line(&mut self, line: &str) -> (r: Result<ProxyLine, ProxyError>)
        requires
            old(self).wf(),
            line.spec_bytes().len() <= MAX_PROXY_RESPONSE_HEADER_BYTES - old(self).header_bytes() + 1,
        ensures
            ({
                let total = old(self).header_bytes() + line.spec_bytes().len();
                if total > MAX_PROXY_RESPONSE_HEADER_BYTES {
                    r == Err::<ProxyLine, ProxyError>(ProxyError::HeadersTooLarge) && *final(self)
                        == *old(self)
                } else if !old(self).status_read() {
                    if status_accepted(line@) {
                        &&& r == Ok::<ProxyLine, ProxyError>(ProxyLine::MoreHeaders)
                        &&& final(self).wf()
                        &&& final(self).header_bytes() == total
                        &&& final(self).status_read()
                    } else {
                        &&& r matches Err(ProxyError::ConnectFailed { status_line })
                        &&& status_line@ == line@
                        &&& *final(self) == *old(self)
                    }
                } else {
                    &&& r == Ok::<ProxyLine, ProxyError>(
                        if ends_headers(line@) {
                            ProxyLine::Tunnel
                        } else {
                            ProxyLine::MoreHeaders
                        },
                    )
                    &&& final(self).wf()
                    &&& final(self).header_bytes() == total
                    &&& final(self).status_read()
                }
            }),
    {
        let n = line.len();
        if n > MAX_PROXY_RESPONSE_HEADER_BYTES - self.header_bytes {
            return Err(ProxyError::HeadersTooLarge);
        }
        if !self.status_read {
            if !proxy_status_accepted(line) {
                return Err(ProxyError::ConnectFailed { status_line: line.to_owned() });
            }
            self.header_bytes = self.header_bytes + n;
            self.status_read = true;
            return Ok(ProxyLine::MoreHeaders);
        }
        self.header_bytes = self.header_bytes + n;
        let v = chars_of(line);
        let end = (v.len() == 2 && v[0] == '\r' && v[1] == '\n') || (v.len() == 1 && v[0] == '\n')
            || v.len() == 0;
        proof {
            if v.len() == 2 && v[0] == '\r' && v[1] == '\n' {
                assert(v@ =~= seq!['\r', '\n']);
            }
            if v.len() == 1 && v[0] == '\n' {
                assert(v@ =~= seq!['\n']);
            }
        }
        if end {
            Ok(ProxyLine::Tunnel)
        } else {
            Ok(ProxyLine::MoreHeaders)
        }
    }
}

} // verus!
