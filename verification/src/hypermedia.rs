//! Bounded HTTPS lease types shared by Argus, Push and Arach's transport
//! broker.
//!
//! These values are data only: no socket, packet buffer or key reaches a
//! client. A broker mints an [`HttpLease`] only after it has accepted the
//! exact HTTPS origin and a bounded work budget; the client can then submit
//! only matching requests over a capability-validated IPC endpoint.

use vstd::prelude::*;

verus! {

pub const MAX_HTTP_HOST_BYTES: usize = 48;
pub const MAX_HTTP_PATH_BYTES: usize = 128;
pub const MAX_HTTP_REQUEST_BYTES: u16 = 2048;
pub const MAX_HTTP_RESPONSE_BYTES: u16 = 32768;
pub const MAX_TCP_SEGMENTS: u8 = 32;
pub const TLS_SHA256_BYTES: usize = 32;
pub const HTTP_IPC_VERSION: u16 = 1;
pub const ARGUS_ENDPOINT_VERSION: u16 = 1;
pub const ARGUS_ENDPOINT_OWNER: u8 = 3;

#[derive(Clone, Copy, Debug, PartialEq, Eq, Structural)]
pub enum HypermediaError {
    NotHttps,
    InvalidHost,
    InvalidPath,
    InvalidBudget,
    InvalidLease,
    LeaseExpired,
    LeaseMismatch,
}

// ---------------------------------------------------------------------------
// Byte classes

pub open spec fn is_ascii_alnum(b: u8) -> bool {
    (48 <= b <= 57) || (65 <= b <= 90) || (97 <= b <= 122)
}

/// A byte that may appear in a host name: a letter, a digit, '-' or '.'.
pub open spec fn is_host_byte(b: u8) -> bool {
    is_ascii_alnum(b) || b == 45 || b == 46
}

pub open spec fn ascii_lower(b: u8) -> u8 {
    if 65 <= b <= 90 {
        (b + 32) as u8
    } else {
        b
    }
}

pub open spec fn lower_seq(s: Seq<u8>) -> Seq<u8> {
    Seq::new(s.len(), |i: int| ascii_lower(s[i]))
}

/// A canonical host: 1 to 48 bytes of letters, digits, '-' and '.', with no
/// empty label (no leading, trailing or doubled '.') and no leading or
/// trailing '-'.
pub open spec fn valid_host(s: Seq<u8>) -> bool {
    &&& 1 <= s.len() <= MAX_HTTP_HOST_BYTES
    &&& forall|i: int| 0 <= i < s.len() ==> is_host_byte(#[trigger] s[i])
    &&& forall|i: int| 0 <= i < s.len() && #[trigger] s[i] == 46 ==> i > 0 && s[i - 1] != 46
    &&& s[s.len() - 1] != 46
    &&& s[0] != 45
    &&& s[s.len() - 1] != 45
}

/// A printable ASCII byte other than space.
pub open spec fn is_graphic(b: u8) -> bool {
    33 <= b <= 126
}

/// A request path: 1 to 128 printable bytes, starting with '/', with no
/// fragment marker '#'.
pub open spec fn valid_path(s: Seq<u8>) -> bool {
    &&& 1 <= s.len() <= MAX_HTTP_PATH_BYTES
    &&& s[0] == 47
    &&& forall|i: int| 0 <= i < s.len() ==> is_graphic(#[trigger] s[i]) && s[i] != 35
}

/// A sequence of `n` zero bytes.
pub open spec fn zeros(n: int) -> Seq<u8> {
    Seq::new(n as nat, |i: int| 0u8)
}

fn is_alnum_byte(b: u8) -> (r: bool)
    ensures
        r == is_ascii_alnum(b),
{
    (48 <= b && b <= 57) || (65 <= b && b <= 90) || (97 <= b && b <= 122)
}

fn to_lower_byte(b: u8) -> (r: u8)
    ensures
        r == ascii_lower(b),
{
    if 65 <= b && b <= 90 {
        b + 32
    } else {
        b
    }
}

/// Lowering a canonical host keeps it canonical, and lowering is idempotent.
pub proof fn lemma_lower_host(s: Seq<u8>)
    requires
        valid_host(s),
    ensures
        valid_host(lower_seq(s)),
        lower_seq(lower_seq(s)) == lower_seq(s),
{
    let l = lower_seq(s);
    assert forall|i: int| 0 <= i < l.len() && #[trigger] l[i] == 46 implies i > 0 && l[i - 1]
        != 46 by {
        assert(s[i] == 46);
    }
    assert(lower_seq(l) =~= l);
}

// ---------------------------------------------------------------------------
// Budgets

/// Work admitted for one brokered HTTPS transaction. The transport yields
/// after at most `yield_every_segments` reassembly steps.
#[derive(Clone, Copy, Debug, PartialEq, Eq, Structural)]
pub struct HttpBudget {
    pub request_bytes: u16,
    pub response_bytes: u16,
    pub max_segments: u8,
    pub yield_every_segments: u8,
}

pub open spec fn budget_valid(b: HttpBudget) -> bool {
    &&& b.request_bytes != 0
    &&& b.request_bytes <= MAX_HTTP_REQUEST_BYTES
    &&& b.response_bytes != 0
    &&& b.response_bytes <= MAX_HTTP_RESPONSE_BYTES
    &&& b.max_segments != 0
    &&& b.max_segments <= MAX_TCP_SEGMENTS
    &&& b.yield_every_segments != 0
    &&& b.yield_every_segments <= b.max_segments
}

/// Every component of `inner` stays within `outer`.
pub open spec fn budget_within(inner: HttpBudget, outer: HttpBudget) -> bool {
    &&& inner.request_bytes <= outer.request_bytes
    &&& inner.response_bytes <= outer.response_bytes
    &&& inner.max_segments <= outer.max_segments
    &&& inner.yield_every_segments <= outer.yield_every_segments
}

impl HttpBudget {
    pub fn default_budget() -> (r: HttpBudget)
        ensures
            r == (HttpBudget {
                request_bytes: 1024,
                response_bytes: 16384,
                max_segments: 16,
                yield_every_segments: 1,
            }),
            budget_valid(r),
    {
        HttpBudget {
            request_bytes: 1024,
            response_bytes: 16384,
            max_segments: 16,
            yield_every_segments: 1,
        }
    }

    pub fn is_valid(self) -> (r: bool)
        ensures
            r == budget_valid(self),
    {
        self.request_bytes != 0 && self.request_bytes <= MAX_HTTP_REQUEST_BYTES
            && self.response_bytes != 0 && self.response_bytes <= MAX_HTTP_RESPONSE_BYTES
            && self.max_segments != 0 && self.max_segments <= MAX_TCP_SEGMENTS
            && self.yield_every_segments != 0 && self.yield_every_segments <= self.max_segments
    }
}

// ---------------------------------------------------------------------------
// Origins

/// Byte-wise equality of two fixed arrays.
pub fn bytes_equal<const N: usize>(a: &[u8; N], b: &[u8; N]) -> (r: bool)
    ensures
        r == (*a == *b),
{
    let mut i: usize = 0;
    while i < N
        invariant
            i <= N,
            a@.len() == N,
            b@.len() == N,
            forall|j: int| 0 <= j < i ==> a@[j] == b@[j],
        decreases N - i,
    {
        if a[i] != b[i] {
            return false;
        }
        i = i + 1;
    }
    assert(*a =~= *b);
    true
}

/// A canonical HTTPS origin: lower-case ASCII host bytes, zero padded.
#[derive(Clone, Copy, Debug)]
pub struct HttpsOrigin {
    host: [u8; 48],
    host_length: u8,
}

impl PartialEq for HttpsOrigin {
    fn eq(&self, other: &Self) -> (r: bool) {
        self.host_length == other.host_length && bytes_equal(&self.host, &other.host)
    }
}

impl Eq for HttpsOrigin {

}

impl vstd::std_specs::cmp::PartialEqSpecImpl for HttpsOrigin {
    open spec fn obeys_eq_spec() -> bool {
        true
    }

    open spec fn eq_spec(&self, other: &HttpsOrigin) -> bool {
        *self == *other
    }
}

impl View for HttpsOrigin {
    type V = Seq<u8>;

    closed spec fn view(&self) -> Seq<u8> {
        self.host@.subrange(0, self.host_length as int)
    }
}

impl HttpsOrigin {
    /// The stored bytes are the canonical host followed by zero padding.
    #[verifier::type_invariant]
    pub closed spec fn wf(self) -> bool {
        &&& 1 <= self.host_length <= MAX_HTTP_HOST_BYTES
        &&& self.host@ == self@ + zeros(MAX_HTTP_HOST_BYTES - self.host_length)
        &&& valid_host(self@)
        &&& lower_seq(self@) == self@
    }

    /// Accepts only a canonical host and stores it lower-cased.
    pub fn new(host: &[u8]) -> (r: Result<HttpsOrigin, HypermediaError>)
        ensures
            r == spec_origin_new(host@),
            r is Ok ==> r->Ok_0@ == lower_seq(host@),
            r is Ok ==> r->Ok_0@.len() == host@.len() && forall|i: int|
                0 <= i < host@.len() ==> #[trigger] r->Ok_0@[i] == if 65 <= host@[i] <= 90 {
                    (host@[i] + 32) as u8
                } else {
                    host@[i]
                },
    {
        let n = host.len();
        if n == 0 || n > MAX_HTTP_HOST_BYTES {
            return Err(HypermediaError::InvalidHost);
        }
        let mut previous_dot = true;
        let mut i: usize = 0;
        while i < n
            invariant
                n == host@.len(),
                1 <= n <= MAX_HTTP_HOST_BYTES,
                i <= n,
                forall|j: int| 0 <= j < i ==> is_host_byte(#[trigger] host@[j]),
                forall|j: int| 0 <= j < i && #[trigger] host@[j] == 46 ==> j > 0 && host@[j - 1]
                    != 46,
                previous_dot == (i == 0 || host@[i - 1] == 46),
            decreases n - i,
        {
            let byte = host[i];
            let valid = is_alnum_byte(byte) || byte == 45 || byte == 46;
            if !valid || (byte == 46 && previous_dot) {
                return Err(HypermediaError::InvalidHost);
            }
            previous_dot = byte == 46;
            i = i + 1;
        }
        if previous_dot || host[0] == 45 || host[n - 1] == 45 {
            return Err(HypermediaError::InvalidHost);
        }
        let mut bytes = [0u8; 48];
        let mut k: usize = 0;
        while k < n
            invariant
                n == host@.len(),
                1 <= n <= MAX_HTTP_HOST_BYTES,
                k <= n,
                forall|j: int| 0 <= j < k ==> bytes@[j] == ascii_lower(host@[j]),
                forall|j: int| k <= j < 48 ==> bytes@[j] == 0,
            decreases n - k,
        {
            bytes[k] = to_lower_byte(host[k]);
            k = k + 1;
        }
        assert(bytes@.subrange(0, n as int) =~= lower_seq(host@));
        assert(bytes@ =~= lower_seq(host@) + zeros(MAX_HTTP_HOST_BYTES - n));
        proof {
            lemma_lower_host(host@);
        }
        let origin = HttpsOrigin { host: bytes, host_length: n as u8 };
        proof {
            use_type_invariant(&origin);
            lemma_origin_of(origin);
        }
        Ok(origin)
    }

    /// Two canonical origins with the same host are the same value.
    proof fn lemma_unique(a: HttpsOrigin, b: HttpsOrigin)
        requires
            a.wf(),
            b.wf(),
            a@ == b@,
        ensures
            a == b,
    {
        assert(a.host@ == b.host@);
        assert(a.host =~= b.host);
    }

    /// The canonical host bytes.
    pub fn host(&self) -> (r: &[u8])
        ensures
            r@ == self@,
    {
        proof {
            use_type_invariant(self);
        }
        let all: &[u8] = self.host.as_slice();
        &all[0..self.host_length as usize]
    }
}

/// The origin value that a canonical lower-case host denotes.
pub open spec fn origin_of(h: Seq<u8>) -> HttpsOrigin {
    choose|o: HttpsOrigin| o.wf() && o@ == h
}

/// What `HttpsOrigin::new` returns for the given host bytes.
pub open spec fn spec_origin_new(host: Seq<u8>) -> Result<HttpsOrigin, HypermediaError> {
    if valid_host(host) {
        Ok(origin_of(lower_seq(host)))
    } else {
        Err(HypermediaError::InvalidHost)
    }
}

/// Every well-formed origin is the origin of its own host.
pub proof fn lemma_origin_of(o: HttpsOrigin)
    requires
        o.wf(),
    ensures
        origin_of(o@) == o,
{
    let c = origin_of(o@);
    assert(c.wf() && c@ == o@);
    HttpsOrigin::lemma_unique(c, o);
}

// ---------------------------------------------------------------------------
// Requests

/// One HTTPS request that can be sent only by a matching unexpired lease.
#[derive(Clone, Copy, Debug)]
pub struct HttpsRequest {
    origin: HttpsOrigin,
    path: [u8; 128],
    path_length: u8,
    budget: HttpBudget,
}

impl PartialEq for HttpsRequest {
    fn eq(&self, other: &Self) -> (r: bool) {
        self.origin == other.origin && self.path_length == other.path_length && bytes_equal(
            &self.path,
            &other.path,
        ) && self.budget == other.budget
    }
}

impl Eq for HttpsRequest {

}

impl vstd::std_specs::cmp::PartialEqSpecImpl for HttpsRequest {
    open spec fn obeys_eq_spec() -> bool {
        true
    }

    open spec fn eq_spec(&self, other: &HttpsRequest) -> bool {
        *self == *other
    }
}

impl HttpsRequest {
    /// A canonical origin, a valid path zero padded, and a valid budget.
    #[verifier::type_invariant]
    pub closed spec fn wf(self) -> bool {
        &&& self.origin.wf()
        &&& 1 <= self.path_length <= MAX_HTTP_PATH_BYTES
        &&& self.path@ == self.path_view() + zeros(MAX_HTTP_PATH_BYTES - self.path_length)
        &&& valid_path(self.path_view())
        &&& budget_valid(self.budget)
    }

    pub closed spec fn origin_view(self) -> HttpsOrigin {
        self.origin
    }

    pub closed spec fn path_view(self) -> Seq<u8> {
        self.path@.subrange(0, self.path_length as int)
    }

    pub closed spec fn budget_view(self) -> HttpBudget {
        self.budget
    }

    proof fn lemma_unique(a: HttpsRequest, b: HttpsRequest)
        requires
            a.wf(),
            b.wf(),
            a.origin_view() == b.origin_view(),
            a.path_view() == b.path_view(),
            a.budget_view() == b.budget_view(),
        ensures
            a == b,
    {
        assert(a.path@ == b.path@);
        assert(a.path =~= b.path);
    }

    /// Builds a request for `origin`: an invalid budget is refused first, then
    /// a path that is empty, too long, not rooted at '/', not printable or
    /// holding a fragment marker.
    pub fn new(origin: HttpsOrigin, path: &[u8], budget: HttpBudget) -> (r: Result<
        HttpsRequest,
        HypermediaError,
    >)
        ensures
            r == spec_request_new(origin, path@, budget),
            r is Ok ==> r->Ok_0.origin_view() == origin && r->Ok_0.path_view() == path@
                && r->Ok_0.budget_view() == budget,
    {
        let n = path.len();
        if n == 0 || n > MAX_HTTP_PATH_BYTES || path[0] != 47 || !budget.is_valid() {
            return Err(
                if budget.is_valid() {
                    HypermediaError::InvalidPath
                } else {
                    HypermediaError::InvalidBudget
                },
            );
        }
        let mut i: usize = 0;
        while i < n
            invariant
                n == path@.len(),
                budget_valid(budget),
                i <= n,
                forall|j: int| 0 <= j < i ==> is_graphic(#[trigger] path@[j]) && path@[j] != 35,
            decreases n - i,
        {
            let byte = path[i];
            if !(33 <= byte && byte <= 126) || byte == 35 {
                assert(!(is_graphic(path@[i as int]) && path@[i as int] != 35));
                return Err(HypermediaError::InvalidPath);
            }
            i = i + 1;
        }
        let mut bytes = [0u8; 128];
        let mut k: usize = 0;
        while k < n
            invariant
                n == path@.len(),
                1 <= n <= MAX_HTTP_PATH_BYTES,
                k <= n,
                forall|j: int| 0 <= j < k ==> bytes@[j] == path@[j],
                forall|j: int| k <= j < 128 ==> bytes@[j] == 0,
            decreases n - k,
        {
            bytes[k] = path[k];
            k = k + 1;
        }
        assert(bytes@.subrange(0, n as int) =~= path@);
        assert(bytes@ =~= path@ + zeros(MAX_HTTP_PATH_BYTES - n));
        proof {
            use_type_invariant(&origin);
        }
        let request = HttpsRequest { origin, path: bytes, path_length: n as u8, budget };
        proof {
            use_type_invariant(&request);
            lemma_request_of(request);
        }
        Ok(request)
    }

    /// Parses only canonical `https://host/path` locations: plain HTTP, user
    /// information, ports, fragments and implicit schemes are refused. A
    /// location without a path gets the path "/".
    pub fn parse_location(location: &[u8], budget: HttpBudget) -> (r: Result<
        HttpsRequest,
        HypermediaError,
    >)
        ensures
            r == spec_parse_location(location@, budget),
            r is Ok ==> ({
                let rest = location@.skip(8);
                let split = first_slash(rest);
                &&& r->Ok_0.origin_view()@ == lower_seq(rest.take(split))
                &&& r->Ok_0.path_view() == if split == rest.len() {
                    seq![47u8]
                } else {
                    rest.skip(split)
                }
                &&& r->Ok_0.budget_view() == budget
            }),
    {
        let n = location.len();
        if n < 8 || location[0] != 104 || location[1] != 116 || location[2] != 116 || location[3]
            != 112 || location[4] != 115 || location[5] != 58 || location[6] != 47 || location[7]
            != 47 {
            proof {
                if n >= 8 {
                    assert(location@.take(8) != https_prefix()) by {
                        if location@.take(8) == https_prefix() {
                            assert(location@.take(8)[0] == 104);
                            assert(location@.take(8)[7] == 47);
                        }
                    }
                }
            }
            return Err(HypermediaError::NotHttps);
        }
        assert(location@.take(8) =~= https_prefix());
        let remainder: &[u8] = &location[8..n];
        let m = remainder.len();
        let mut split: usize = 0;
        while split < m && remainder[split] != 47
            invariant
                m == remainder@.len(),
                split <= m,
                forall|j: int| 0 <= j < split ==> remainder@[j] != 47,
            decreases m - split,
        {
            split = split + 1;
        }
        proof {
            lemma_first_slash(remainder@, split as int);
        }
        let origin = match HttpsOrigin::new(&remainder[0..split]) {
            Ok(o) => o,
            Err(e) => {
                return Err(e);
            },
        };
        if split == m {
            let root: [u8; 1] = [47u8];
            assert(root@ =~= seq![47u8]);
            HttpsRequest::new(origin, root.as_slice(), budget)
        } else {
            assert(remainder@.subrange(split as int, m as int) =~= remainder@.skip(split as int));
            HttpsRequest::new(origin, &remainder[split..m], budget)
        }
    }

    pub fn origin(&self) -> (r: HttpsOrigin)
        ensures
            r == self.origin_view(),
    {
        self.origin
    }

    pub fn path(&self) -> (r: &[u8])
        ensures
            r@ == self.path_view(),
    {
        proof {
            use_type_invariant(self);
        }
        let all: &[u8] = self.path.as_slice();
        &all[0..self.path_length as usize]
    }

    pub fn budget(&self) -> (r: HttpBudget)
        ensures
            r == self.budget_view(),
    {
        self.budget
    }
}

/// The request value with the given origin, path and budget.
pub open spec fn request_of(o: HttpsOrigin, p: Seq<u8>, b: HttpBudget) -> HttpsRequest {
    choose|q: HttpsRequest| q.wf() && q.origin_view() == o && q.path_view() == p && q.budget_view() == b
}

/// What `HttpsRequest::new` returns.
pub open spec fn spec_request_new(o: HttpsOrigin, path: Seq<u8>, budget: HttpBudget) -> Result<
    HttpsRequest,
    HypermediaError,
> {
    if !budget_valid(budget) {
        Err(HypermediaError::InvalidBudget)
    } else if !valid_path(path) {
        Err(HypermediaError::InvalidPath)
    } else {
        Ok(request_of(o, path, budget))
    }
}

/// Every well-formed request is the request of its own parts.
pub proof fn lemma_request_of(q: HttpsRequest)
    requires
        q.wf(),
    ensures
        request_of(q.origin_view(), q.path_view(), q.budget_view()) == q,
{
    let c = request_of(q.origin_view(), q.path_view(), q.budget_view());
    assert(c.wf() && c.origin_view() == q.origin_view() && c.path_view() == q.path_view()
        && c.budget_view() == q.budget_view());
    HttpsRequest::lemma_unique(c, q);
}

/// The bytes of "https://".
pub open spec fn https_prefix() -> Seq<u8> {
    seq![104u8, 116u8, 116u8, 112u8, 115u8, 58u8, 47u8, 47u8]
}

/// The index of the first '/' in `s`, or its length when there is none.
pub open spec fn first_slash(s: Seq<u8>) -> int
    decreases s.len(),
{
    if s.len() == 0 {
        0
    } else if s[0] == 47 {
        0
    } else {
        1 + first_slash(s.skip(1))
    }
}

proof fn lemma_first_slash(s: Seq<u8>, k: int)
    requires
        0 <= k <= s.len(),
        forall|j: int| 0 <= j < k ==> s[j] != 47,
        k == s.len() || s[k] == 47,
    ensures
        first_slash(s) == k,
    decreases k,
{
    if k > 0 {
        let t = s.skip(1);
        assert forall|j: int| 0 <= j < k - 1 implies t[j] != 47 by {
            assert(t[j] == s[j + 1]);
        }
        if k - 1 < t.len() {
            assert(t[k - 1] == s[k]);
        }
        lemma_first_slash(t, k - 1);
    }
}

/// What `HttpsRequest::parse_location` returns.
pub open spec fn spec_parse_location(location: Seq<u8>, budget: HttpBudget) -> Result<
    HttpsRequest,
    HypermediaError,
> {
    if location.len() < 8 || location.take(8) != https_prefix() {
        Err(HypermediaError::NotHttps)
    } else {
        let rest = location.skip(8);
        let split = first_slash(rest);
        match spec_origin_new(rest.take(split)) {
            Err(e) => Err(e),
            Ok(o) => spec_request_new(
                o,
                if split == rest.len() {
                    seq![47u8]
                } else {
                    rest.skip(split)
                },
                budget,
            ),
        }
    }
}

/// A host is accepted exactly when it has 1 to 48 bytes, each an ASCII
/// letter, digit, '-' or '.', no label is empty (no leading, trailing or
/// doubled '.') and it neither starts nor ends with '-'; any other host
/// is refused as invalid.
pub proof fn lemma_origin_acceptance(host: Seq<u8>)
    ensures
        spec_origin_new(host) is Ok <==> {
            &&& 1 <= host.len() <= 48
            &&& forall|i: int|
                0 <= i < host.len() ==> {
                    let b = #[trigger] host[i];
                    (48 <= b <= 57) || (65 <= b <= 90) || (97 <= b <= 122) || b == 45 || b == 46
                }
            &&& forall|i: int| 1 <= i < host.len() ==> !(#[trigger] host[i] == 46 && host[i - 1] == 46)
            &&& host[0] != 46 && host[0] != 45
            &&& host[host.len() - 1] != 46 && host[host.len() - 1] != 45
        },
        spec_origin_new(host) is Err ==> spec_origin_new(host) == Err::<
            HttpsOrigin,
            HypermediaError,
        >(HypermediaError::InvalidHost),
{
    if valid_host(host) {
        assert(host[0] != 46) by {
            if host[0] == 46 {
                assert(host[0] == 46);
            }
        }
    } else {
        if 1 <= host.len() <= 48 && (forall|i: int|
            0 <= i < host.len() ==> {
                let b = #[trigger] host[i];
                (48 <= b <= 57) || (65 <= b <= 90) || (97 <= b <= 122) || b == 45 || b == 46
            }) && (forall|i: int| 1 <= i < host.len() ==> !(#[trigger] host[i] == 46 && host[i - 1] == 46))
            && host[0] != 46 && host[0] != 45 && host[host.len() - 1] != 46 && host[host.len() - 1] != 45 {
            assert forall|i: int| 0 <= i < host.len() && #[trigger] host[i] == 46 implies i > 0
                && host[i - 1] != 46 by {
                if i > 0 {
                    assert(!(host[i] == 46 && host[i - 1] == 46));
                }
            }
        }
    }
}

/// A request is built exactly when the budget is valid and the path has 1
/// to 128 bytes, starts with '/', and holds only printable ASCII other than
/// space and the fragment marker '#'; it then carries that origin, path
/// and budget.
pub proof fn lemma_request_acceptance(o: HttpsOrigin, path: Seq<u8>, budget: HttpBudget)
    ensures
        spec_request_new(o, path, budget) is Ok <==> {
            &&& budget_valid(budget)
            &&& 1 <= path.len() <= 128
            &&& path[0] == 47
            &&& forall|i: int| 0 <= i < path.len() ==> 33 <= #[trigger] path[i] <= 126 && path[i] != 35
        },
        !budget_valid(budget) ==> spec_request_new(o, path, budget) == Err::<
            HttpsRequest,
            HypermediaError,
        >(HypermediaError::InvalidBudget),
        budget_valid(budget) && spec_request_new(o, path, budget) is Err ==> spec_request_new(
            o,
            path,
            budget,
        ) == Err::<HttpsRequest, HypermediaError>(HypermediaError::InvalidPath),
{
}

/// Only `https://` locations are followed: one that does not start with
/// those eight bytes, plain `http://` included, is refused as not HTTPS.
pub proof fn lemma_location_is_https(location: Seq<u8>, budget: HttpBudget)
    ensures
        spec_parse_location(location, budget) != Err::<HttpsRequest, HypermediaError>(
            HypermediaError::NotHttps,
        ) ==> location.len() >= 8 && location[0] == 104 && location[1] == 116 && location[2]
            == 116 && location[3] == 112 && location[4] == 115 && location[5] == 58 && location[6]
            == 47 && location[7] == 47,
{
    if location.len() >= 8 && location.take(8) == https_prefix() {
        assert(location.take(8)[0] == location[0]);
        assert(location.take(8)[1] == location[1]);
        assert(location.take(8)[2] == location[2]);
        assert(location.take(8)[3] == location[3]);
        assert(location.take(8)[4] == location[4]);
        assert(location.take(8)[5] == location[5]);
        assert(location.take(8)[6] == location[6]);
        assert(location.take(8)[7] == location[7]);
    }
}

// ---------------------------------------------------------------------------
// TLS trust anchors

/// A broker-published certificate pin for one exact HTTPS origin.
#[derive(Clone, Copy, Debug)]
pub struct TlsTrustAnchor {
    origin: HttpsOrigin,
    certificate_sha256: [u8; 32],
    generation: u32,
}

impl PartialEq for TlsTrustAnchor {
    fn eq(&self, other: &Self) -> (r: bool) {
        self.origin == other.origin && bytes_equal(
            &self.certificate_sha256,
            &other.certificate_sha256,
        ) && self.generation == other.generation
    }
}

impl Eq for TlsTrustAnchor {

}

impl vstd::std_specs::cmp::PartialEqSpecImpl for TlsTrustAnchor {
    open spec fn obeys_eq_spec() -> bool {
        true
    }

    open spec fn eq_spec(&self, other: &TlsTrustAnchor) -> bool {
        *self == *other
    }
}

/// The identity of a peer that a trust anchor accepted.
#[derive(Clone, Copy, Debug)]
pub struct TlsPeerIdentity {
    origin: HttpsOrigin,
    certificate_sha256: [u8; 32],
    generation: u32,
}

impl PartialEq for TlsPeerIdentity {
    fn eq(&self, other: &Self) -> (r: bool) {
        self.origin == other.origin && bytes_equal(
            &self.certificate_sha256,
            &other.certificate_sha256,
        ) && self.generation == other.generation
    }
}

impl Eq for TlsPeerIdentity {

}

impl vstd::std_specs::cmp::PartialEqSpecImpl for TlsPeerIdentity {
    open spec fn obeys_eq_spec() -> bool {
        true
    }

    open spec fn eq_spec(&self, other: &TlsPeerIdentity) -> bool {
        *self == *other
    }
}

#[derive(Clone, Copy, Debug, PartialEq, Eq, Structural)]
pub enum TlsTrustError {
    GenerationMismatch,
    OriginMismatch,
    CertificateMismatch,
}

/// The pinned origin, fingerprint and generation of an anchor or identity.
pub struct PinTerms {
    pub origin: HttpsOrigin,
    pub certificate_sha256: [u8; 32],
    pub generation: u32,
}

impl TlsTrustAnchor {
    pub closed spec fn terms(self) -> PinTerms {
        PinTerms {
            origin: self.origin,
            certificate_sha256: self.certificate_sha256,
            generation: self.generation,
        }
    }

    /// Imports a trust decision made by the authenticated broker; a zero
    /// fingerprint or generation is never a valid authority.
    pub fn from_broker(origin: HttpsOrigin, certificate_sha256: [u8; 32], generation: u32) -> (r:
        Result<TlsTrustAnchor, HypermediaError>)
        ensures
            generation == 0 || certificate_sha256@ == zeros(32) ==> r == Err::<
                TlsTrustAnchor,
                HypermediaError,
            >(HypermediaError::InvalidLease),
            !(generation == 0 || certificate_sha256@ == zeros(32)) ==> r is Ok && r->Ok_0.terms()
                == (PinTerms { origin, certificate_sha256, generation }),
    {
        let zero = [0u8; 32];
        assert(zero@ =~= zeros(32));
        proof {
            if certificate_sha256@ == zeros(32) {
                assert(certificate_sha256 =~= zero);
            }
        }
        if generation == 0 || bytes_equal(&certificate_sha256, &zero) {
            return Err(HypermediaError::InvalidLease);
        }
        Ok(TlsTrustAnchor { origin, certificate_sha256, generation })
    }

    pub fn origin(self) -> (r: HttpsOrigin)
        ensures
            r == self.terms().origin,
    {
        self.origin
    }

    pub fn certificate_sha256(self) -> (r: [u8; 32])
        ensures
            r == self.terms().certificate_sha256,
    {
        self.certificate_sha256
    }

    pub fn generation(self) -> (r: u32)
        ensures
            r == self.terms().generation,
    {
        self.generation
    }

    /// Accepts only the exact generation, origin and certificate identity
    /// that the broker pinned, checked in that order.
    pub fn permits(self, origin: HttpsOrigin, certificate_sha256: [u8; 32], generation: u32) -> (r:
        Result<TlsPeerIdentity, TlsTrustError>)
        ensures
            generation != self.terms().generation ==> r == Err::<TlsPeerIdentity, TlsTrustError>(
                TlsTrustError::GenerationMismatch,
            ),
            generation == self.terms().generation && origin != self.terms().origin ==> r == Err::<
                TlsPeerIdentity,
                TlsTrustError,
            >(TlsTrustError::OriginMismatch),
            generation == self.terms().generation && origin == self.terms().origin
                && certificate_sha256 != self.terms().certificate_sha256 ==> r == Err::<
                TlsPeerIdentity,
                TlsTrustError,
            >(TlsTrustError::CertificateMismatch),
            generation == self.terms().generation && origin == self.terms().origin
                && certificate_sha256 == self.terms().certificate_sha256 ==> r is Ok
                && r->Ok_0.terms() == self.terms(),
    {
        if generation != self.generation {
            return Err(TlsTrustError::GenerationMismatch);
        }
        if origin != self.origin {
            return Err(TlsTrustError::OriginMismatch);
        }
        if !bytes_equal(&certificate_sha256, &self.certificate_sha256) {
            return Err(TlsTrustError::CertificateMismatch);
        }
        Ok(TlsPeerIdentity { origin, certificate_sha256, generation })
    }
}

impl TlsPeerIdentity {
    pub closed spec fn terms(self) -> PinTerms {
        PinTerms {
            origin: self.origin,
            certificate_sha256: self.certificate_sha256,
            generation: self.generation,
        }
    }

    pub fn origin(self) -> (r: HttpsOrigin)
        ensures
            r == self.terms().origin,
    {
        self.origin
    }

    pub fn certificate_sha256(self) -> (r: [u8; 32])
        ensures
            r == self.terms().certificate_sha256,
    {
        self.certificate_sha256
    }

    pub fn generation(self) -> (r: u32)
        ensures
            r == self.terms().generation,
    {
        self.generation
    }
}

// ---------------------------------------------------------------------------
// HTTPS leases and their IPC records

/// Opaque HTTPS authority imported from the broker.
#[derive(Clone, Copy, Debug)]
pub struct HttpLease {
    capability: u64,
    generation: u32,
    origin: HttpsOrigin,
    budget: HttpBudget,
    expiry_epoch: u64,
}

impl PartialEq for HttpLease {
    fn eq(&self, other: &Self) -> (r: bool) {
        self.capability == other.capability && self.generation == other.generation
            && self.origin == other.origin && self.budget == other.budget && self.expiry_epoch
            == other.expiry_epoch
    }
}

impl Eq for HttpLease {

}

impl vstd::std_specs::cmp::PartialEqSpecImpl for HttpLease {
    open spec fn obeys_eq_spec() -> bool {
        true
    }

    open spec fn eq_spec(&self, other: &HttpLease) -> bool {
        *self == *other
    }
}

/// The authority a lease carries.
pub struct LeaseTerms {
    pub capability: u64,
    pub generation: u32,
    pub origin: HttpsOrigin,
    pub budget: HttpBudget,
    pub expiry_epoch: u64,
}

/// What `HttpLease::permits` returns for `request` at `epoch`.
pub open spec fn spec_permits(t: LeaseTerms, request: HttpsRequest, epoch: u64) -> Result<
    (),
    HypermediaError,
> {
    if t.capability == 0 || t.generation == 0 {
        Err(HypermediaError::InvalidLease)
    } else if epoch >= t.expiry_epoch {
        Err(HypermediaError::LeaseExpired)
    } else if request.origin_view() != t.origin || !budget_within(request.budget_view(), t.budget) {
        Err(HypermediaError::LeaseMismatch)
    } else {
        Ok(())
    }
}

/// A lease permits a request exactly when the lease is live (nonzero
/// capability and generation), unexpired, for the request's own origin,
/// and at least as large as the request in each of the four budget
/// components; a live, unexpired lease refuses any other request as a
/// mismatch.
pub proof fn lemma_permits_within_lease(t: LeaseTerms, q: HttpsRequest, epoch: u64)
    ensures
        spec_permits(t, q, epoch) is Ok <==> {
            &&& t.capability != 0
            &&& t.generation != 0
            &&& epoch < t.expiry_epoch
            &&& q.origin_view() == t.origin
            &&& q.budget_view().request_bytes <= t.budget.request_bytes
            &&& q.budget_view().response_bytes <= t.budget.response_bytes
            &&& q.budget_view().max_segments <= t.budget.max_segments
            &&& q.budget_view().yield_every_segments <= t.budget.yield_every_segments
        },
        t.capability != 0 && t.generation != 0 && epoch < t.expiry_epoch && (q.origin_view()
            != t.origin || q.budget_view().request_bytes > t.budget.request_bytes
            || q.budget_view().response_bytes > t.budget.response_bytes
            || q.budget_view().max_segments > t.budget.max_segments
            || q.budget_view().yield_every_segments > t.budget.yield_every_segments)
            ==> spec_permits(t, q, epoch) == Err::<(), HypermediaError>(
            HypermediaError::LeaseMismatch,
        ),
{
}

impl HttpLease {
    pub closed spec fn terms(self) -> LeaseTerms {
        LeaseTerms {
            capability: self.capability,
            generation: self.generation,
            origin: self.origin,
            budget: self.budget,
            expiry_epoch: self.expiry_epoch,
        }
    }

    /// Imports an exact broker-issued authority: the capability, generation
    /// and expiry are nonzero and the budget is valid.
    pub fn from_broker(
        capability: u64,
        generation: u32,
        origin: HttpsOrigin,
        budget: HttpBudget,
        expiry_epoch: u64,
    ) -> (r: Result<HttpLease, HypermediaError>)
        ensures
            (capability == 0 || generation == 0 || expiry_epoch == 0 || !budget_valid(budget))
                ==> r == Err::<HttpLease, HypermediaError>(HypermediaError::InvalidLease),
            !(capability == 0 || generation == 0 || expiry_epoch == 0 || !budget_valid(budget))
                ==> r is Ok && r->Ok_0.terms() == (LeaseTerms {
                capability,
                generation,
                origin,
                budget,
                expiry_epoch,
            }),
    {
        if capability == 0 || generation == 0 || expiry_epoch == 0 || !budget.is_valid() {
            return Err(HypermediaError::InvalidLease);
        }
        Ok(HttpLease { capability, generation, origin, budget, expiry_epoch })
    }

    /// A request is permitted while the lease is live and unexpired, for the
    /// lease's exact origin and within every component of its budget.
    pub fn permits(&self, request: HttpsRequest, current_epoch: u64) -> (r: Result<
        (),
        HypermediaError,
    >)
        ensures
            r == spec_permits(self.terms(), request, current_epoch),
    {
        if self.capability == 0 || self.generation == 0 {
            return Err(HypermediaError::InvalidLease);
        }
        if current_epoch >= self.expiry_epoch {
            return Err(HypermediaError::LeaseExpired);
        }
        let b = request.budget();
        if request.origin() != self.origin || b.request_bytes > self.budget.request_bytes
            || b.response_bytes > self.budget.response_bytes || b.max_segments
            > self.budget.max_segments || b.yield_every_segments > self.budget.yield_every_segments {
            return Err(HypermediaError::LeaseMismatch);
        }
        Ok(())
    }

    pub fn generation(&self) -> (r: u32)
        ensures
            r == self.terms().generation,
    {
        self.generation
    }

    pub fn expiry_epoch(&self) -> (r: u64)
        ensures
            r == self.terms().expiry_epoch,
    {
        self.expiry_epoch
    }

    /// Creates the fixed-layout request record for a permitted request.
    pub fn to_ipc_request(&self, request: HttpsRequest, current_epoch: u64, sequence: u32) -> (r:
        Result<HttpIpcRequest, HypermediaError>)
        ensures
            r == spec_to_ipc_request(self.terms(), request, current_epoch, sequence),
            r is Ok <==> spec_permits(self.terms(), request, current_epoch) is Ok,
            r is Ok ==> spec_wire_request(r->Ok_0) == Ok::<HttpsRequest, HypermediaError>(request)
                && wire_sequence(r->Ok_0) == sequence && wire_version(r->Ok_0)
                == HTTP_IPC_VERSION,
    {
        proof {
            use_type_invariant(&request);
            lemma_ipc_record(self.terms(), request, current_epoch, sequence);
            if spec_permits(self.terms(), request, current_epoch) is Ok {
                lemma_ipc_round_trip(self.terms(), request, current_epoch, sequence);
            }
        }
        match self.permits(request, current_epoch) {
            Err(e) => {
                return Err(e);
            },
            Ok(()) => {},
        }
        Ok(
            HttpIpcRequest {
                version: HTTP_IPC_VERSION,
                request_bytes: request.budget.request_bytes,
                response_bytes: request.budget.response_bytes,
                max_segments: request.budget.max_segments,
                yield_every_segments: request.budget.yield_every_segments,
                capability: self.capability,
                generation: self.generation,
                sequence,
                expiry_epoch: self.expiry_epoch,
                host_length: request.origin.host_length,
                path_length: request.path_length,
                reserved: [0u8, 0u8],
                host: request.origin.host,
                path: request.path,
            },
        )
    }

    /// Accepts a record only when it names this exact lease and carries a
    /// valid request that the lease permits.
    pub fn authorize_ipc(&self, wire: &HttpIpcRequest, current_epoch: u64) -> (r: Result<
        HttpsRequest,
        HypermediaError,
    >)
        ensures
            r == spec_authorize_ipc(self.terms(), *wire, current_epoch),
    {
        if wire.version != HTTP_IPC_VERSION || wire.capability != self.capability
            || wire.generation != self.generation || wire.expiry_epoch != self.expiry_epoch {
            return Err(HypermediaError::LeaseMismatch);
        }
        let request = match wire.request() {
            Ok(q) => q,
            Err(e) => {
                return Err(e);
            },
        };
        match self.permits(request, current_epoch) {
            Err(e) => {
                return Err(e);
            },
            Ok(()) => {},
        }
        Ok(request)
    }
}

/// Fixed-layout request envelope for an authenticated shared mapping.
#[derive(Clone, Copy, Debug)]
pub struct HttpIpcRequest {
    pub version: u16,
    pub request_bytes: u16,
    pub response_bytes: u16,
    pub max_segments: u8,
    pub yield_every_segments: u8,
    pub capability: u64,
    pub generation: u32,
    pub sequence: u32,
    pub expiry_epoch: u64,
    host_length: u8,
    path_length: u8,
    reserved: [u8; 2],
    host: [u8; 48],
    path: [u8; 128],
}

impl PartialEq for HttpIpcRequest {
    fn eq(&self, other: &Self) -> (r: bool) {
        self.version == other.version && self.request_bytes == other.request_bytes
            && self.response_bytes == other.response_bytes && self.max_segments
            == other.max_segments && self.yield_every_segments == other.yield_every_segments
            && self.capability == other.capability && self.generation == other.generation
            && self.sequence == other.sequence && self.expiry_epoch == other.expiry_epoch
            && self.host_length == other.host_length && self.path_length == other.path_length
            && bytes_equal(&self.reserved, &other.reserved) && bytes_equal(&self.host, &other.host)
            && bytes_equal(&self.path, &other.path)
    }
}

impl Eq for HttpIpcRequest {

}

impl vstd::std_specs::cmp::PartialEqSpecImpl for HttpIpcRequest {
    open spec fn obeys_eq_spec() -> bool {
        true
    }

    open spec fn eq_spec(&self, other: &HttpIpcRequest) -> bool {
        *self == *other
    }
}

/// What `HttpLease::to_ipc_request` returns: the record of the request's
/// origin, path and budget under the lease's authority.
pub closed spec fn spec_to_ipc_request(
    t: LeaseTerms,
    request: HttpsRequest,
    epoch: u64,
    sequence: u32,
) -> Result<HttpIpcRequest, HypermediaError> {
    match spec_permits(t, request, epoch) {
        Err(e) => Err(e),
        Ok(_) => Ok(
            HttpIpcRequest {
                version: HTTP_IPC_VERSION,
                request_bytes: request.budget.request_bytes,
                response_bytes: request.budget.response_bytes,
                max_segments: request.budget.max_segments,
                yield_every_segments: request.budget.yield_every_segments,
                capability: t.capability,
                generation: t.generation,
                sequence,
                expiry_epoch: t.expiry_epoch,
                host_length: request.origin.host_length,
                path_length: request.path_length,
                reserved: [0u8, 0u8],
                host: request.origin.host,
                path: request.path,
            },
        ),
    }
}

/// The version, reserved bytes and lengths of a record are well formed.
pub closed spec fn wire_header_ok(w: HttpIpcRequest) -> bool {
    &&& w.version == HTTP_IPC_VERSION
    &&& w.reserved@ == zeros(2)
    &&& 1 <= w.host_length <= MAX_HTTP_HOST_BYTES
    &&& 1 <= w.path_length <= MAX_HTTP_PATH_BYTES
}

pub closed spec fn wire_sequence(w: HttpIpcRequest) -> u32 {
    w.sequence
}

pub closed spec fn wire_version(w: HttpIpcRequest) -> u16 {
    w.version
}

pub closed spec fn wire_reserved(w: HttpIpcRequest) -> Seq<u8> {
    w.reserved@
}

pub closed spec fn wire_host_length(w: HttpIpcRequest) -> u8 {
    w.host_length
}

pub closed spec fn wire_path_length(w: HttpIpcRequest) -> u8 {
    w.path_length
}

/// The whole host field of a record, padding included.
pub closed spec fn wire_host_field(w: HttpIpcRequest) -> Seq<u8> {
    w.host@
}

/// The whole path field of a record, padding included.
pub closed spec fn wire_path_field(w: HttpIpcRequest) -> Seq<u8> {
    w.path@
}

/// A record's header is well formed exactly when it has the current
/// version, zero reserved bytes, a host of 1 to 48 bytes and a path of 1 to
/// 128 bytes; its host and path are those prefixes of their fields.
pub proof fn lemma_wire_header(w: HttpIpcRequest)
    ensures
        wire_header_ok(w) <==> (wire_version(w) == HTTP_IPC_VERSION && wire_reserved(w) == seq![
            0u8,
            0u8,
        ] && 1 <= wire_host_length(w) <= MAX_HTTP_HOST_BYTES && 1 <= wire_path_length(w)
            <= MAX_HTTP_PATH_BYTES),
        wire_host_field(w).len() == MAX_HTTP_HOST_BYTES,
        wire_path_field(w).len() == MAX_HTTP_PATH_BYTES,
        wire_host_length(w) <= MAX_HTTP_HOST_BYTES ==> wire_host(w) == wire_host_field(w).take(
            wire_host_length(w) as int,
        ),
        wire_path_length(w) <= MAX_HTTP_PATH_BYTES ==> wire_path(w) == wire_path_field(w).take(
            wire_path_length(w) as int,
        ),
{
    assert(zeros(2) =~= seq![0u8, 0u8]);
    assert(w.host@.subrange(0, w.host_length as int) =~= w.host@.take(w.host_length as int));
    assert(w.path@.subrange(0, w.path_length as int) =~= w.path@.take(w.path_length as int));
}

pub closed spec fn wire_host(w: HttpIpcRequest) -> Seq<u8> {
    w.host@.subrange(0, w.host_length as int)
}

pub closed spec fn wire_path(w: HttpIpcRequest) -> Seq<u8> {
    w.path@.subrange(0, w.path_length as int)
}

pub closed spec fn wire_budget(w: HttpIpcRequest) -> HttpBudget {
    HttpBudget {
        request_bytes: w.request_bytes,
        response_bytes: w.response_bytes,
        max_segments: w.max_segments,
        yield_every_segments: w.yield_every_segments,
    }
}

/// What `HttpIpcRequest::request` returns.
pub open spec fn spec_wire_request(w: HttpIpcRequest) -> Result<HttpsRequest, HypermediaError> {
    if !wire_header_ok(w) {
        Err(HypermediaError::InvalidLease)
    } else {
        match spec_origin_new(wire_host(w)) {
            Err(e) => Err(e),
            Ok(o) => spec_request_new(o, wire_path(w), wire_budget(w)),
        }
    }
}

/// What `HttpLease::authorize_ipc` returns.
pub closed spec fn spec_authorize_ipc(t: LeaseTerms, w: HttpIpcRequest, epoch: u64) -> Result<
    HttpsRequest,
    HypermediaError,
> {
    if w.version != HTTP_IPC_VERSION || w.capability != t.capability || w.generation
        != t.generation || w.expiry_epoch != t.expiry_epoch {
        Err(HypermediaError::LeaseMismatch)
    } else {
        match spec_wire_request(w) {
            Err(e) => Err(e),
            Ok(q) => match spec_permits(t, q, epoch) {
                Err(e) => Err(e),
                Ok(_) => Ok(q),
            },
        }
    }
}

impl HttpIpcRequest {
    pub fn sequence(&self) -> (r: u32)
        ensures
            r == wire_sequence(*self),
    {
        self.sequence
    }

    /// Rebuilds the request that the record carries, re-validating origin,
    /// path and budget.
    pub fn request(&self) -> (r: Result<HttpsRequest, HypermediaError>)
        ensures
            r == spec_wire_request(*self),
    {
        if self.version != HTTP_IPC_VERSION || self.reserved[0] != 0 || self.reserved[1] != 0
            || self.host_length == 0 || self.host_length as usize > MAX_HTTP_HOST_BYTES
            || self.path_length == 0 || self.path_length as usize > MAX_HTTP_PATH_BYTES {
            proof {
                if self.reserved@ == zeros(2) {
                    assert(self.reserved@[0] == 0 && self.reserved@[1] == 0);
                }
            }
            return Err(HypermediaError::InvalidLease);
        }
        assert(self.reserved@ =~= zeros(2));
        let hosts: &[u8] = self.host.as_slice();
        let origin = match HttpsOrigin::new(&hosts[0..self.host_length as usize]) {
            Ok(o) => o,
            Err(e) => {
                return Err(e);
            },
        };
        let paths: &[u8] = self.path.as_slice();
        HttpsRequest::new(
            origin,
            &paths[0..self.path_length as usize],
            HttpBudget {
                request_bytes: self.request_bytes,
                response_bytes: self.response_bytes,
                max_segments: self.max_segments,
                yield_every_segments: self.yield_every_segments,
            },
        )
    }
}

/// The record of a request: it is made exactly when the lease permits the
/// request, and then carries the current version, well-formed lengths, the
/// request's host, path and budget, and the given sequence number.
pub proof fn lemma_ipc_record(t: LeaseTerms, q: HttpsRequest, epoch: u64, sequence: u32)
    requires
        q.wf(),
    ensures
        spec_to_ipc_request(t, q, epoch, sequence) is Ok <==> spec_permits(t, q, epoch) is Ok,
        spec_permits(t, q, epoch) is Err ==> spec_to_ipc_request(t, q, epoch, sequence) == Err::<
            HttpIpcRequest,
            HypermediaError,
        >(spec_permits(t, q, epoch)->Err_0),
        spec_permits(t, q, epoch) is Ok ==> ({
            let w = spec_to_ipc_request(t, q, epoch, sequence)->Ok_0;
            &&& wire_header_ok(w)
            &&& wire_version(w) == HTTP_IPC_VERSION
            &&& wire_sequence(w) == sequence
            &&& wire_host(w) == q.origin_view()@
            &&& wire_path(w) == q.path_view()
            &&& wire_budget(w) == q.budget_view()
        }),
{
    if spec_permits(t, q, epoch) is Ok {
        let w = spec_to_ipc_request(t, q, epoch, sequence)->Ok_0;
        assert(q.origin.wf());
        assert(w.reserved@ =~= zeros(2));
    }
}

/// A permitted request survives the trip through its IPC record: the record
/// carries back exactly the request, and the same lease authorizes it at
/// the same epoch.
pub proof fn lemma_ipc_round_trip(t: LeaseTerms, q: HttpsRequest, epoch: u64, sequence: u32)
    requires
        q.wf(),
        spec_permits(t, q, epoch) is Ok,
    ensures
        spec_to_ipc_request(t, q, epoch, sequence) is Ok,
        spec_wire_request(spec_to_ipc_request(t, q, epoch, sequence)->Ok_0) == Ok::<
            HttpsRequest,
            HypermediaError,
        >(q),
        spec_authorize_ipc(t, spec_to_ipc_request(t, q, epoch, sequence)->Ok_0, epoch) == Ok::<
            HttpsRequest,
            HypermediaError,
        >(q),
        wire_sequence(spec_to_ipc_request(t, q, epoch, sequence)->Ok_0) == sequence,
{
    let w = spec_to_ipc_request(t, q, epoch, sequence)->Ok_0;
    let o = q.origin;
    assert(o.wf());
    assert(w.reserved@ =~= zeros(2));
    assert(wire_host(w) == o@);
    lemma_lower_host(o@);
    lemma_origin_of(o);
    assert(spec_origin_new(wire_host(w)) == Ok::<HttpsOrigin, HypermediaError>(o));
    assert(wire_path(w) == q.path_view());
    assert(wire_budget(w) == q.budget);
    lemma_request_of(q);
}

// ---------------------------------------------------------------------------
// Argus endpoints

/// Authority for one Argus-to-Hermes endpoint and its retained mapping.
#[derive(Clone, Copy, Debug, PartialEq, Eq, Structural)]
pub struct ArgusEndpointLease {
    pub version: u16,
    pub owner: u8,
    pub reserved: u8,
    pub endpoint_capability: u64,
    pub mapping_capability: u64,
    pub generation: u32,
    pub mapping_generation: u32,
    pub expiry_epoch: u64,
}

/// Envelope copied through a capability-scoped Hermes mapping.
#[derive(Clone, Copy, Debug)]
pub struct ArgusIpcRequest {
    pub version: u16,
    pub reserved: u16,
    pub endpoint_capability: u64,
    pub mapping_capability: u64,
    pub generation: u32,
    pub mapping_generation: u32,
    pub request: HttpIpcRequest,
}

impl PartialEq for ArgusIpcRequest {
    fn eq(&self, other: &Self) -> (r: bool) {
        self.version == other.version && self.reserved == other.reserved
            && self.endpoint_capability == other.endpoint_capability && self.mapping_capability
            == other.mapping_capability && self.generation == other.generation
            && self.mapping_generation == other.mapping_generation && self.request == other.request
    }
}

impl Eq for ArgusIpcRequest {

}

impl vstd::std_specs::cmp::PartialEqSpecImpl for ArgusIpcRequest {
    open spec fn obeys_eq_spec() -> bool {
        true
    }

    open spec fn eq_spec(&self, other: &ArgusIpcRequest) -> bool {
        *self == *other
    }
}

#[derive(Clone, Copy, Debug, PartialEq, Eq, Structural)]
pub enum EndpointError {
    InvalidLease,
    WrongOwner,
    Expired,
    Revoked,
    InvalidRequest,
    WrongEndpoint,
    WrongMapping,
    WrongGeneration,
    Sequence,
    Busy,
    NotInFlight,
}

pub open spec fn spec_endpoint_valid_for(l: ArgusEndpointLease, epoch: u64) -> bool {
    &&& l.version == ARGUS_ENDPOINT_VERSION
    &&& l.owner == ARGUS_ENDPOINT_OWNER
    &&& l.reserved == 0
    &&& l.endpoint_capability != 0
    &&& l.mapping_capability != 0
    &&& l.generation != 0
    &&& l.mapping_generation != 0
    &&& epoch < l.expiry_epoch
}

/// What `ArgusEndpointLease::authorize_request` returns.
pub open spec fn spec_authorize_request(l: ArgusEndpointLease, w: HttpIpcRequest, epoch: u64) -> Result<
    ArgusIpcRequest,
    EndpointError,
> {
    if l.version != ARGUS_ENDPOINT_VERSION || l.reserved != 0 {
        Err(EndpointError::InvalidLease)
    } else if l.owner != ARGUS_ENDPOINT_OWNER {
        Err(EndpointError::WrongOwner)
    } else if epoch >= l.expiry_epoch {
        Err(EndpointError::Expired)
    } else if wire_version(w) != HTTP_IPC_VERSION || wire_sequence(w) == 0 {
        Err(EndpointError::InvalidRequest)
    } else {
        Ok(
            ArgusIpcRequest {
                version: ARGUS_ENDPOINT_VERSION,
                reserved: 0,
                endpoint_capability: l.endpoint_capability,
                mapping_capability: l.mapping_capability,
                generation: l.generation,
                mapping_generation: l.mapping_generation,
                request: w,
            },
        )
    }
}

impl ArgusEndpointLease {
    /// Imports the endpoint and mapping authorities returned by the broker;
    /// every value must be nonzero.
    pub fn from_broker(
        endpoint_capability: u64,
        mapping_capability: u64,
        generation: u32,
        mapping_generation: u32,
        expiry_epoch: u64,
    ) -> (r: Result<ArgusEndpointLease, EndpointError>)
        ensures
            (endpoint_capability == 0 || mapping_capability == 0 || generation == 0
                || mapping_generation == 0 || expiry_epoch == 0) ==> r == Err::<
                ArgusEndpointLease,
                EndpointError,
            >(EndpointError::InvalidLease),
            !(endpoint_capability == 0 || mapping_capability == 0 || generation == 0
                || mapping_generation == 0 || expiry_epoch == 0) ==> r == Ok::<
                ArgusEndpointLease,
                EndpointError,
            >(
                ArgusEndpointLease {
                    version: ARGUS_ENDPOINT_VERSION,
                    owner: ARGUS_ENDPOINT_OWNER,
                    reserved: 0,
                    endpoint_capability,
                    mapping_capability,
                    generation,
                    mapping_generation,
                    expiry_epoch,
                },
            ),
    {
        if endpoint_capability == 0 || mapping_capability == 0 || generation == 0
            || mapping_generation == 0 || expiry_epoch == 0 {
            return Err(EndpointError::InvalidLease);
        }
        Ok(
            ArgusEndpointLease {
                version: ARGUS_ENDPOINT_VERSION,
                owner: ARGUS_ENDPOINT_OWNER,
                reserved: 0,
                endpoint_capability,
                mapping_capability,
                generation,
                mapping_generation,
                expiry_epoch,
            },
        )
    }

    pub fn valid_for(self, current_epoch: u64) -> (r: bool)
        ensures
            r == spec_endpoint_valid_for(self, current_epoch),
    {
        self.version == ARGUS_ENDPOINT_VERSION && self.owner == ARGUS_ENDPOINT_OWNER
            && self.reserved == 0 && self.endpoint_capability != 0 && self.mapping_capability != 0
            && self.generation != 0 && self.mapping_generation != 0 && current_epoch
            < self.expiry_epoch
    }

    fn authorize_request(self, request: HttpIpcRequest, current_epoch: u64) -> (r: Result<
        ArgusIpcRequest,
        EndpointError,
    >)
        ensures
            r == spec_authorize_request(self, request, current_epoch),
    {
        if self.version != ARGUS_ENDPOINT_VERSION || self.reserved != 0 {
            return Err(EndpointError::InvalidLease);
        }
        if self.owner != ARGUS_ENDPOINT_OWNER {
            return Err(EndpointError::WrongOwner);
        }
        if current_epoch >= self.expiry_epoch {
            return Err(EndpointError::Expired);
        }
        if request.version != HTTP_IPC_VERSION || request.sequence == 0 {
            return Err(EndpointError::InvalidRequest);
        }
        Ok(
            ArgusIpcRequest {
                version: ARGUS_ENDPOINT_VERSION,
                reserved: 0,
                endpoint_capability: self.endpoint_capability,
                mapping_capability: self.mapping_capability,
                generation: self.generation,
                mapping_generation: self.mapping_generation,
                request,
            },
        )
    }
}

/// The admission state of an endpoint session.
pub struct SessionState {
    pub lease: ArgusEndpointLease,
    pub next_sequence: u32,
    pub in_flight: bool,
    pub revoked: bool,
}

/// What `ArgusEndpointSession::validate_envelope` finds of an envelope.
pub open spec fn spec_validate_envelope(s: SessionState, e: ArgusIpcRequest) -> Result<
    (),
    EndpointError,
> {
    if e.version != ARGUS_ENDPOINT_VERSION || e.reserved != 0 {
        Err(EndpointError::InvalidRequest)
    } else if e.endpoint_capability != s.lease.endpoint_capability {
        Err(EndpointError::WrongEndpoint)
    } else if e.mapping_capability != s.lease.mapping_capability {
        Err(EndpointError::WrongMapping)
    } else if e.generation != s.lease.generation || e.mapping_generation
        != s.lease.mapping_generation {
        Err(EndpointError::WrongGeneration)
    } else if wire_sequence(e.request) != s.next_sequence {
        Err(EndpointError::Sequence)
    } else {
        Ok(())
    }
}

/// The sequence number after `n`: it wraps around past zero to one.
pub open spec fn next_sequence_after(n: u32) -> u32 {
    if n == u32::MAX {
        1
    } else {
        (n + 1) as u32
    }
}

/// Stateful endpoint gate: one request at a time, in exact sequence, with
/// terminal revocation.
pub struct ArgusEndpointSession {
    lease: ArgusEndpointLease,
    next_sequence: u32,
    in_flight: bool,
    revoked: bool,
}

impl View for ArgusEndpointSession {
    type V = SessionState;

    closed spec fn view(&self) -> SessionState {
        SessionState {
            lease: self.lease,
            next_sequence: self.next_sequence,
            in_flight: self.in_flight,
            revoked: self.revoked,
        }
    }
}

impl ArgusEndpointSession {
    pub fn new(lease: ArgusEndpointLease) -> (r: ArgusEndpointSession)
        ensures
            r@ == (SessionState { lease, next_sequence: 1, in_flight: false, revoked: false }),
    {
        ArgusEndpointSession { lease, next_sequence: 1, in_flight: false, revoked: false }
    }

    pub fn lease(&self) -> (r: ArgusEndpointLease)
        ensures
            r == self@.lease,
    {
        self.lease
    }

    pub fn is_revoked(&self) -> (r: bool)
        ensures
            r == self@.revoked,
    {
        self.revoked
    }

    /// Wraps the next request in sequence into an envelope for this
    /// endpoint; the session itself does not change.
    pub fn prepare(&self, request: HttpIpcRequest, current_epoch: u64) -> (r: Result<
        ArgusIpcRequest,
        EndpointError,
    >)
        ensures
            self@.revoked ==> r == Err::<ArgusIpcRequest, EndpointError>(EndpointError::Revoked),
            !self@.revoked && self@.in_flight ==> r == Err::<ArgusIpcRequest, EndpointError>(
                EndpointError::Busy,
            ),
            !self@.revoked && !self@.in_flight && wire_sequence(request) != self@.next_sequence ==> r
                == Err::<ArgusIpcRequest, EndpointError>(EndpointError::Sequence),
            !self@.revoked && !self@.in_flight && wire_sequence(request) == self@.next_sequence ==> r
                == spec_authorize_request(self@.lease, request, current_epoch),
    {
        if self.revoked {
            return Err(EndpointError::Revoked);
        }
        if self.in_flight {
            return Err(EndpointError::Busy);
        }
        if request.sequence != self.next_sequence {
            return Err(EndpointError::Sequence);
        }
        self.lease.authorize_request(request, current_epoch)
    }

    /// Marks an envelope for this endpoint as in flight.
    pub fn commit(&mut self, envelope: ArgusIpcRequest) -> (r: Result<(), EndpointError>)
        ensures
            old(self)@.revoked ==> r == Err::<(), EndpointError>(EndpointError::Revoked),
            !old(self)@.revoked && spec_validate_envelope(old(self)@, envelope) is Err ==> r
                == spec_validate_envelope(old(self)@, envelope),
            !old(self)@.revoked && spec_validate_envelope(old(self)@, envelope) is Ok
                && old(self)@.in_flight ==> r == Err::<(), EndpointError>(EndpointError::Busy),
            r is Err ==> final(self)@ == old(self)@,
            r is Ok <==> !old(self)@.revoked && spec_validate_envelope(old(self)@, envelope) is Ok
                && !old(self)@.in_flight,
            r is Ok ==> final(self)@ == (SessionState { in_flight: true, ..old(self)@ }),
    {
        if self.revoked {
            return Err(EndpointError::Revoked);
        }
        match self.validate_envelope(envelope) {
            Err(e) => {
                return Err(e);
            },
            Ok(()) => {},
        }
        if self.in_flight {
            return Err(EndpointError::Busy);
        }
        self.in_flight = true;
        Ok(())
    }

    /// Completes the in-flight request with its sequence number and moves
    /// to the next one.
    pub fn complete(&mut self, sequence: u32) -> (r: Result<(), EndpointError>)
        ensures
            !old(self)@.in_flight ==> r == Err::<(), EndpointError>(EndpointError::NotInFlight),
            old(self)@.in_flight && sequence != old(self)@.next_sequence ==> r == Err::<
                (),
                EndpointError,
            >(EndpointError::Sequence),
            r is Err ==> final(self)@ == old(self)@,
            r is Ok <==> old(self)@.in_flight && sequence == old(self)@.next_sequence,
            r is Ok ==> final(self)@ == (SessionState {
                in_flight: false,
                next_sequence: next_sequence_after(old(self)@.next_sequence),
                ..old(self)@
            }),
    {
        if !self.in_flight {
            return Err(EndpointError::NotInFlight);
        }
        if sequence != self.next_sequence {
            return Err(EndpointError::Sequence);
        }
        self.in_flight = false;
        self.next_sequence = if self.next_sequence == u32::MAX {
            1
        } else {
            self.next_sequence + 1
        };
        Ok(())
    }

    /// Revocation is terminal and abandons any in-flight request.
    pub fn revoke(&mut self)
        ensures
            final(self)@ == (SessionState { revoked: true, in_flight: false, ..old(self)@ }),
    {
        self.revoked = true;
        self.in_flight = false;
    }

    fn validate_envelope(&self, envelope: ArgusIpcRequest) -> (r: Result<(), EndpointError>)
        ensures
            r == spec_validate_envelope(self@, envelope),
    {
        if envelope.version != ARGUS_ENDPOINT_VERSION || envelope.reserved != 0 {
            return Err(EndpointError::InvalidRequest);
        }
        if envelope.endpoint_capability != self.lease.endpoint_capability {
            return Err(EndpointError::WrongEndpoint);
        }
        if envelope.mapping_capability != self.lease.mapping_capability {
            return Err(EndpointError::WrongMapping);
        }
        if envelope.generation != self.lease.generation {
            return Err(EndpointError::WrongGeneration);
        }
        if envelope.mapping_generation != self.lease.mapping_generation {
            return Err(EndpointError::WrongGeneration);
        }
        if envelope.request.sequence != self.next_sequence {
            return Err(EndpointError::Sequence);
        }
        Ok(())
    }
}

} // verus!
