use vstd::prelude::*;

verus! {

/// The byte that separates a control word from its argument.
pub const SEPARATOR: u8 = 58u8;

/// `REGISTER:`
pub open spec fn register_prefix() -> Seq<u8> {
    seq![82u8, 69u8, 71u8, 73u8, 83u8, 84u8, 69u8, 82u8, 58u8]
}

/// `REQUEST:`
pub open spec fn request_prefix() -> Seq<u8> {
    seq![82u8, 69u8, 81u8, 85u8, 69u8, 83u8, 84u8, 58u8]
}

/// `OK`
pub open spec fn ok_token() -> Seq<u8> {
    seq![79u8, 75u8]
}

/// `ERROR`
pub open spec fn error_prefix() -> Seq<u8> {
    seq![69u8, 82u8, 82u8, 79u8, 82u8]
}

/// `ERROR:Service not found`
pub open spec fn not_found_token() -> Seq<u8> {
    error_prefix() + seq![58u8] + seq![
        83u8, 101u8, 114u8, 118u8, 105u8, 99u8, 101u8, 32u8,
        110u8, 111u8, 116u8, 32u8, 102u8, 111u8, 117u8, 110u8, 100u8
    ]
}

/// `CONNECT`
pub open spec fn connect_token() -> Seq<u8> {
    seq![67u8, 79u8, 78u8, 78u8, 69u8, 67u8, 84u8]
}

/// ASCII whitespace: space, tab, line feed, form feed, carriage return.
pub open spec fn is_space(b: u8) -> bool {
    b == 32u8 || b == 9u8 || b == 10u8 || b == 12u8 || b == 13u8
}

/// Whether `s` starts with `p`.
pub open spec fn has_prefix(s: Seq<u8>, p: Seq<u8>) -> bool {
    p.len() <= s.len() && s.subrange(0, p.len() as int) == p
}

/// Index of the first byte at or after `i` that is not whitespace.
pub open spec fn skip_space(s: Seq<u8>, i: int) -> int
    decreases s.len() - i,
{
    if 0 <= i < s.len() && is_space(s[i]) {
        skip_space(s, i + 1)
    } else {
        i
    }
}

/// End of `s[lo..j]` once trailing whitespace is dropped.
pub open spec fn drop_trailing_space(s: Seq<u8>, lo: int, j: int) -> int
    decreases j - lo,
{
    if lo < j && j <= s.len() && is_space(s[j - 1]) {
        drop_trailing_space(s, lo, j - 1)
    } else {
        j
    }
}

/// `s` without leading and trailing whitespace.
pub open spec fn trimmed(s: Seq<u8>) -> Seq<u8> {
    let lo = skip_space(s, 0);
    s.subrange(lo, drop_trailing_space(s, lo, s.len() as int))
}

/// Index of the first separator at or after `i`, or the length of `s`.
pub open spec fn separator_at(s: Seq<u8>, i: int) -> int
    decreases s.len() - i,
{
    if 0 <= i < s.len() && s[i] != SEPARATOR {
        separator_at(s, i + 1)
    } else {
        i
    }
}

/// The leading field of `s`, up to its first separator.
pub open spec fn first_field(s: Seq<u8>) -> Seq<u8> {
    s.subrange(0, separator_at(s, 0))
}

/// The first control token that a new connection sends to the relay.
pub enum Identity {
    /// `REGISTER:<name>`: a provider offers the service `name`.
    Register(Vec<u8>),
    /// `REQUEST:<name>`: a user asks for the service `name`.
    Request(Vec<u8>),
    /// Anything else.
    Malformed,
}

/// Whether a token, once trimmed, is a registration.
pub open spec fn is_register(token: Seq<u8>) -> bool {
    has_prefix(trimmed(token), register_prefix())
}

/// Whether a token, once trimmed, is a request.
pub open spec fn is_request(token: Seq<u8>) -> bool {
    !is_register(token) && has_prefix(trimmed(token), request_prefix())
}

/// The service name that a registration or a request names: the field that
/// follows its control word.
pub open spec fn service_name_in(token: Seq<u8>) -> Seq<u8> {
    let t = trimmed(token);
    let word = if is_register(token) { register_prefix().len() } else { request_prefix().len() };
    first_field(t.subrange(word as int, t.len() as int))
}

/// What the relay reads from a token.
pub open spec fn identity_of(token: Seq<u8>, id: Identity) -> bool {
    if is_register(token) {
        id matches Identity::Register(name) && name@ == service_name_in(token)
    } else if is_request(token) {
        id matches Identity::Request(name) && name@ == service_name_in(token)
    } else {
        id is Malformed
    }
}

/// How a user reads the relay's answer to its request.
#[derive(PartialEq, Eq, Structural, Clone, Copy, Debug)]
pub enum Reply {
    /// `OK`: a provider was found and the session is being spliced.
    Accepted,
    /// A token that starts with `ERROR`.
    Refused,
    /// Nothing came: the relay closed the connection.
    Closed,
    /// Any other token.
    Unexpected,
}

/// What a user makes of the relay's answer `token`.
pub open spec fn reply_of(token: Seq<u8>) -> Reply {
    if token.len() == 0 {
        Reply::Closed
    } else if has_prefix(token, error_prefix()) {
        Reply::Refused
    } else if token == ok_token() {
        Reply::Accepted
    } else {
        Reply::Unexpected
    }
}

fn is_space_byte(b: u8) -> (r: bool)
    ensures
        r == is_space(b),
{
    b == 32u8 || b == 9u8 || b == 10u8 || b == 12u8 || b == 13u8
}

/// Copies `s[lo..hi]` into a new vector.
pub fn copy_range(s: &[u8], lo: usize, hi: usize) -> (r: Vec<u8>)
    requires
        lo <= hi <= s@.len(),
    ensures
        r@ == s@.subrange(lo as int, hi as int),
{
    let mut r: Vec<u8> = Vec::new();
    let mut i: usize = lo;
    while i < hi
        invariant
            lo <= i <= hi <= s@.len(),
            r@ == s@.subrange(lo as int, i as int),
        decreases hi - i,
    {
        r.push(s[i]);
        i = i + 1;
        assert(r@ =~= s@.subrange(lo as int, i as int));
    }
    r
}

/// Whether `s[at..]` starts with `p`.
fn has_prefix_at(s: &[u8], at: usize, p: &[u8]) -> (r: bool)
    requires
        at <= s@.len(),
    ensures
        r == has_prefix(s@.subrange(at as int, s@.len() as int), p@),
{
    let ghost t = s@.subrange(at as int, s@.len() as int);
    let n: usize = s.len();
    if p.len() > n - at {
        return false;
    }
    let mut i: usize = 0;
    while i < p.len()
        invariant
            n == s@.len(),
            at + p@.len() <= n,
            p@.len() <= t.len(),
            t.len() == s@.len() - at,
            t == s@.subrange(at as int, s@.len() as int),
            i <= p@.len(),
            forall|j: int| 0 <= j < i ==> t[j] == p@[j],
        decreases p@.len() - i,
    {
        if s[at + i] != p[i] {
            assert(t.subrange(0, p@.len() as int)[i as int] != p@[i as int]);
            return false;
        }
        i = i + 1;
    }
    assert(t.subrange(0, p@.len() as int) =~= p@);
    true
}

/// Whether two byte strings are equal.
pub fn bytes_equal(a: &[u8], b: &[u8]) -> (r: bool)
    ensures
        r == (a@ == b@),
{
    if a.len() != b.len() {
        return false;
    }
    let mut i: usize = 0;
    while i < a.len()
        invariant
            a@.len() == b@.len(),
            i <= a@.len(),
            forall|j: int| 0 <= j < i ==> a@[j] == b@[j],
        decreases a@.len() - i,
    {
        if a[i] != b[i] {
            return false;
        }
        i = i + 1;
    }
    assert(a@ =~= b@);
    true
}

/// The bounds of `s` without leading and trailing whitespace.
fn trim_bounds(s: &[u8]) -> (r: (usize, usize))
    ensures
        r.0 <= r.1 <= s@.len(),
        r.0 == skip_space(s@, 0),
        r.1 == drop_trailing_space(s@, r.0 as int, s@.len() as int),
{
    let mut lo: usize = 0;
    while lo < s.len() && is_space_byte(s[lo])
        invariant
            lo <= s@.len(),
            skip_space(s@, 0) == skip_space(s@, lo as int),
        decreases s@.len() - lo,
    {
        lo = lo + 1;
    }
    let mut hi: usize = s.len();
    while hi > lo && is_space_byte(s[hi - 1])
        invariant
            lo <= hi <= s@.len(),
            skip_space(s@, 0) == lo,
            drop_trailing_space(s@, lo as int, s@.len() as int)
                == drop_trailing_space(s@, lo as int, hi as int),
        decreases hi,
    {
        hi = hi - 1;
    }
    (lo, hi)
}

/// Index of the first separator in `s[from..to]`, or `to`.
fn find_separator(s: &[u8], from: usize, to: usize) -> (r: usize)
    requires
        from <= to <= s@.len(),
    ensures
        from <= r <= to,
        r - from == separator_at(s@.subrange(from as int, to as int), 0),
{
    let ghost t = s@.subrange(from as int, to as int);
    let mut i: usize = from;
    while i < to && s[i] != SEPARATOR
        invariant
            from <= i <= to <= s@.len(),
            t == s@.subrange(from as int, to as int),
            separator_at(t, 0) == separator_at(t, i - from),
        decreases to - i,
    {
        assert(t[i - from] == s@[i as int]);
        i = i + 1;
    }
    if i < to {
        assert(t[i - from] == s@[i as int]);
    }
    i
}

/// Appends `b` to the end of `a`.
fn append_bytes(a: &mut Vec<u8>, b: &[u8])
    ensures
        final(a)@ == old(a)@ + b@,
{
    let ghost start = a@;
    let mut i: usize = 0;
    while i < b.len()
        invariant
            i <= b@.len(),
            a@ == start + b@.subrange(0, i as int),
        decreases b@.len() - i,
    {
        a.push(b[i]);
        i = i + 1;
        assert(a@ =~= start + b@.subrange(0, i as int));
    }
    assert(b@.subrange(0, b@.len() as int) =~= b@);
}

/// The token `REGISTER:<name>` that a provider sends to offer a service.
pub fn register_token(name: &[u8]) -> (r: Vec<u8>)
    ensures
        r@ == register_prefix() + name@,
{
    let mut r: Vec<u8> = vec![82u8, 69u8, 71u8, 73u8, 83u8, 84u8, 69u8, 82u8, 58u8];
    assert(r@ =~= register_prefix());
    append_bytes(&mut r, name);
    r
}

/// The token `REQUEST:<name>` that a user sends to ask for a service.
pub fn request_token(name: &[u8]) -> (r: Vec<u8>)
    ensures
        r@ == request_prefix() + name@,
{
    let mut r: Vec<u8> = vec![82u8, 69u8, 81u8, 85u8, 69u8, 83u8, 84u8, 58u8];
    assert(r@ =~= request_prefix());
    append_bytes(&mut r, name);
    r
}

/// The relay's answer when a request has been matched.
pub fn ok_reply() -> (r: Vec<u8>)
    ensures
        r@ == ok_token(),
{
    let r: Vec<u8> = vec![79u8, 75u8];
    assert(r@ =~= ok_token());
    r
}

/// The relay's answer when no provider is registered under the name asked for.
pub fn not_found_reply() -> (r: Vec<u8>)
    ensures
        r@ == not_found_token(),
{
    let r: Vec<u8> = vec![
        69u8, 82u8, 82u8, 79u8, 82u8, 58u8,
        83u8, 101u8, 114u8, 118u8, 105u8, 99u8, 101u8, 32u8,
        110u8, 111u8, 116u8, 32u8, 102u8, 111u8, 117u8, 110u8, 100u8,
    ];
    assert(r@ =~= not_found_token());
    r
}

/// The signal that a user sends through the spliced session to its provider.
pub fn connect_signal() -> (r: Vec<u8>)
    ensures
        r@ == connect_token(),
{
    let r: Vec<u8> = vec![67u8, 79u8, 78u8, 78u8, 69u8, 67u8, 84u8];
    assert(r@ =~= connect_token());
    r
}

/// Whether a token that a provider received is the signal to dial its target.
pub fn is_connect_signal(token: &[u8]) -> (r: bool)
    ensures
        r == (token@ == connect_token()),
{
    let c = connect_signal();
    bytes_equal(token, c.as_slice())
}

/// Reads the relay's answer to a request.
pub fn classify_reply(token: &[u8]) -> (r: Reply)
    ensures
        r == reply_of(token@),
{
    if token.len() == 0 {
        return Reply::Closed;
    }
    let e: Vec<u8> = vec![69u8, 82u8, 82u8, 79u8, 82u8];
    assert(e@ =~= error_prefix());
    assert(token@.subrange(0, token@.len() as int) =~= token@);
    if has_prefix_at(token, 0, e.as_slice()) {
        return Reply::Refused;
    }
    let ok = ok_reply();
    if bytes_equal(token, ok.as_slice()) {
        Reply::Accepted
    } else {
        Reply::Unexpected
    }
}

/// Reads the first control token of a new connection.
pub fn parse_identity(token: &[u8]) -> (r: Identity)
    ensures
        identity_of(token@, r),
{
    let (lo, hi) = trim_bounds(token);
    let ghost t = trimmed(token@);
    assert(t == token@.subrange(lo as int, hi as int));
    let trimmed_token = copy_range(token, lo, hi);
    let tt = trimmed_token.as_slice();
    assert(tt@.subrange(0, tt@.len() as int) =~= tt@);
    let reg: Vec<u8> = vec![82u8, 69u8, 71u8, 73u8, 83u8, 84u8, 69u8, 82u8, 58u8];
    assert(reg@ =~= register_prefix());
    let req: Vec<u8> = vec![82u8, 69u8, 81u8, 85u8, 69u8, 83u8, 84u8, 58u8];
    assert(req@ =~= request_prefix());
    if has_prefix_at(tt, 0, reg.as_slice()) {
        let start: usize = reg.len();
        let end = find_separator(tt, start, tt.len());
        let name = copy_range(tt, start, end);
        let ghost rest = t.subrange(register_prefix().len() as int, t.len() as int);
        assert(rest =~= tt@.subrange(start as int, tt@.len() as int));
        assert(name@ =~= rest.subrange(0, separator_at(rest, 0)));
        Identity::Register(name)
    } else if has_prefix_at(tt, 0, req.as_slice()) {
        let start: usize = req.len();
        let end = find_separator(tt, start, tt.len());
        let name = copy_range(tt, start, end);
        let ghost rest = t.subrange(request_prefix().len() as int, t.len() as int);
        assert(rest =~= tt@.subrange(start as int, tt@.len() as int));
        assert(name@ =~= rest.subrange(0, separator_at(rest, 0)));
        Identity::Request(name)
    } else {
        Identity::Malformed
    }
}

} // verus!

verus! {

/// A name that can travel in a control token: no separator, no whitespace.
pub open spec fn is_plain_name(name: Seq<u8>) -> bool {
    forall|i: int| 0 <= i < name.len() ==> name[i] != SEPARATOR && !is_space(#[trigger] name[i])
}

proof fn lemma_no_separator(s: Seq<u8>, i: int)
    requires
        0 <= i <= s.len(),
        is_plain_name(s),
    ensures
        separator_at(s, i) == s.len(),
    decreases s.len() - i,
{
    if i < s.len() {
        lemma_no_separator(s, i + 1);
    }
}

proof fn lemma_token_parses(word: Seq<u8>, name: Seq<u8>)
    requires
        is_plain_name(name),
        word.len() > 0,
        !is_space(word[0]),
        !is_space(word.last()),
    ensures
        trimmed(word + name) == word + name,
        first_field((word + name).subrange(word.len() as int, (word + name).len() as int)) == name,
{
    let t = word + name;
    assert(skip_space(t, 0) == 0);
    if name.len() > 0 {
        assert(!is_space(t[t.len() - 1]));
    } else {
        assert(t[t.len() - 1] == word.last());
    }
    assert(drop_trailing_space(t, 0, t.len() as int) == t.len());
    assert(t.subrange(0, t.len() as int) =~= t);
    assert(t.subrange(word.len() as int, t.len() as int) =~= name);
    lemma_no_separator(name, 0);
    assert(name.subrange(0, name.len() as int) =~= name);
}

/// Tokens round-trip: for a plain name, the relay reads the token that
/// `register_token` builds as a registration of that name, and the one that
/// `request_token` builds as a request for it.
pub proof fn lemma_tokens_round_trip(name: Seq<u8>)
    requires
        is_plain_name(name),
    ensures
        is_register(register_prefix() + name),
        service_name_in(register_prefix() + name) == name,
        is_request(request_prefix() + name),
        service_name_in(request_prefix() + name) == name,
{
    lemma_token_parses(register_prefix(), name);
    lemma_token_parses(request_prefix(), name);
    let r = register_prefix() + name;
    let q = request_prefix() + name;
    assert(r.subrange(0, register_prefix().len() as int) =~= register_prefix());
    assert(q.subrange(0, request_prefix().len() as int) =~= request_prefix());
    if q.len() >= register_prefix().len() {
        assert(q.subrange(0, register_prefix().len() as int)[2] != register_prefix()[2]);
    }
}

} // verus!
