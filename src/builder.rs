//! Configuration of the HTTP connection behind a transport.
use vstd::prelude::*;
use vstd::string::StrSliceExecFns;
use vstd::string::StringExecFns;
use core::time::Duration;
use crate::auth::{basic_auth_value, base64_of, bearer_auth_value, credentials_text, is_base64_char, opt_view};

verus! {

/// The span of `secs` whole seconds.
pub uninterp spec fn secs_duration(secs: u64) -> Duration;

/// Relies on `Duration::from_secs`, which builds a span of whole seconds from
/// its argument alone and cannot fail.
pub assume_specification[ core::time::Duration::from_secs ](secs: u64) -> (r: Duration)
    ensures
        r == secs_duration(secs),
;

/// Headers as (name, value) text pairs; a name may carry several values.
pub type HeaderView = Seq<(Seq<char>, Seq<char>)>;

pub open spec fn lower_letters() -> Seq<char> {
    "abcdefghijklmnopqrstuvwxyz"@
}

/// ASCII upper-case letters made lower case; other characters kept.
pub open spec fn lower_char(c: char) -> char {
    if 65 <= (c as u32) && (c as u32) <= 90 {
        lower_letters()[(c as u32 - 65) as int]
    } else {
        c
    }
}

/// A header name in its canonical, lower-case form.
pub open spec fn lower_name(s: Seq<char>) -> Seq<char> {
    s.map_values(|c: char| lower_char(c))
}

/// A character allowed in a header name.
pub open spec fn is_name_char(c: char) -> bool {
    ('a' <= c && c <= 'z') || ('A' <= c && c <= 'Z') || ('0' <= c && c <= '9') || c == '!' || c
        == '#' || c == '$' || c == '%' || c == '&' || c == '\'' || c == '*' || c == '+' || c
        == '-' || c == '.' || c == '^' || c == '_' || c == '`' || c == '|' || c == '~'
}

/// A non-empty token of name characters.
pub open spec fn valid_header_name(s: Seq<char>) -> bool {
    s.len() > 0 && forall|i: int| 0 <= i < s.len() ==> is_name_char(#[trigger] s[i])
}

/// No control character but tab, and no DEL.
pub open spec fn valid_header_value(s: Seq<char>) -> bool {
    forall|i: int|
        0 <= i < s.len() ==> (#[trigger] s[i] == '\t' || (s[i] as u32 >= 0x20 && s[i] as u32
            != 0x7f))
}

/// The headers with every entry called `name` taken out.
pub open spec fn remove_name(s: HeaderView, name: Seq<char>) -> HeaderView
    decreases s.len(),
{
    if s.len() == 0 {
        s
    } else if s.last().0 == name {
        remove_name(s.drop_last(), name)
    } else {
        remove_name(s.drop_last(), name).push(s.last())
    }
}

/// The values of the header called `name`, in order.
pub open spec fn values_of(s: HeaderView, name: Seq<char>) -> Seq<Seq<char>>
    decreases s.len(),
{
    if s.len() == 0 {
        seq![]
    } else if s.last().0 == name {
        values_of(s.drop_last(), name).push(s.last().1)
    } else {
        values_of(s.drop_last(), name)
    }
}

/// Setting a header: `value` becomes the one value of `name`.
pub open spec fn insert_header(s: HeaderView, name: Seq<char>, value: Seq<char>) -> HeaderView {
    remove_name(s, name).push((name, value))
}

/// Some pair of `s` has this name once made lower case.
pub open spec fn names_contain(s: HeaderView, name: Seq<char>) -> bool {
    exists|i: int| 0 <= i < s.len() && lower_name(#[trigger] s[i].0) == name
}

/// Adding the pairs of `more` in turn: the first pair of a name replaces the
/// values that name had, later pairs of the same name add values.
pub open spec fn extend_headers(s: HeaderView, more: HeaderView) -> HeaderView
    decreases more.len(),
{
    if more.len() == 0 {
        s
    } else {
        let t = extend_headers(s, more.drop_last());
        let n = lower_name(more.last().0);
        if names_contain(more.drop_last(), n) {
            t.push((n, more.last().1))
        } else {
            insert_header(t, n, more.last().1)
        }
    }
}

/// Every pair has a valid name and value.
pub open spec fn valid_pairs(s: HeaderView) -> bool {
    forall|i: int|
        #![trigger s[i]]
        0 <= i < s.len() ==> valid_header_name(s[i].0) && valid_header_value(s[i].1)
}

/// The text of each (name, value) pair.
pub open spec fn pairs_view(v: Seq<(String, String)>) -> HeaderView {
    v.map_values(|p: (String, String)| (p.0@, p.1@))
}

/// The name of the header that carries credentials.
pub open spec fn authorization() -> Seq<char> {
    "authorization"@
}

proof fn lemma_values_remove(s: HeaderView, name: Seq<char>, m: Seq<char>)
    ensures
        values_of(remove_name(s, name), m) == if m == name {
            seq![]
        } else {
            values_of(s, m)
        },
    decreases s.len(),
{
    if s.len() > 0 {
        lemma_values_remove(s.drop_last(), name, m);
        if s.last().0 != name {
            assert(remove_name(s, name).drop_last() =~= remove_name(s.drop_last(), name));
        }
    }
}

proof fn lemma_values_push(s: HeaderView, p: (Seq<char>, Seq<char>), m: Seq<char>)
    ensures
        values_of(s.push(p), m) == if p.0 == m {
            values_of(s, m).push(p.1)
        } else {
            values_of(s, m)
        },
{
    assert(s.push(p).drop_last() =~= s);
}

/// Setting a header leaves exactly the new value under its name and keeps
/// every other name's values.
pub proof fn lemma_insert_header(s: HeaderView, name: Seq<char>, value: Seq<char>, m: Seq<char>)
    ensures
        values_of(insert_header(s, name, value), name) == seq![value],
        m != name ==> values_of(insert_header(s, name, value), m) == values_of(s, m),
{
    lemma_values_remove(s, name, name);
    lemma_values_push(remove_name(s, name), (name, value), name);
    assert(seq![].push(value) =~= seq![value]);
    lemma_values_remove(s, name, m);
    lemma_values_push(remove_name(s, name), (name, value), m);
}

/// Adding two pairs of one name keeps both values, in order, in place of
/// the values that name had.
pub proof fn lemma_extend_keeps_repeated(s: HeaderView, a: (Seq<char>, Seq<char>), b: (Seq<char>, Seq<char>))
    requires
        lower_name(a.0) == lower_name(b.0),
    ensures
        values_of(extend_headers(s, seq![a, b]), lower_name(a.0)) == seq![a.1, b.1],
{
    let n = lower_name(a.0);
    let more = seq![a, b];
    assert(more.drop_last() =~= seq![a]);
    assert(seq![a].drop_last() =~= Seq::<(Seq<char>, Seq<char>)>::empty());
    assert(!names_contain(Seq::<(Seq<char>, Seq<char>)>::empty(), n));
    assert(names_contain(seq![a], n)) by {
        assert(seq![a][0] == a);
    }
    let t = insert_header(s, n, a.1);
    assert(extend_headers(s, Seq::<(Seq<char>, Seq<char>)>::empty()) == s);
    assert(seq![a].last() == a);
    assert(extend_headers(s, seq![a]) == t);
    assert(more.last() == b);
    lemma_insert_header(s, n, a.1, n);
    lemma_values_push(t, (n, b.1), n);
    assert(seq![a.1].push(b.1) =~= seq![a.1, b.1]);
}

proof fn lemma_values_prefix(s: HeaderView, i: int, name: Seq<char>)
    requires
        0 <= i < s.len(),
        values_of(s.subrange(0, i), name).len() == 0,
        s[i].0 == name,
    ensures
        values_of(s, name).len() > 0,
        values_of(s, name)[0] == s[i].1,
    decreases s.len() - i,
{
    if i == s.len() - 1 {
        assert(s.drop_last() =~= s.subrange(0, i));
    } else {
        assert(s.drop_last().subrange(0, i) =~= s.subrange(0, i));
        lemma_values_prefix(s.drop_last(), i, name);
    }
}

/// Lower-case copy of a header name.
fn lower_ascii(s: &str) -> (r: String)
    ensures
        r@ == lower_name(s@),
{
    let letters = "abcdefghijklmnopqrstuvwxyz";
    proof {
        reveal_strlit("abcdefghijklmnopqrstuvwxyz");
    }
    let n = s.unicode_len();
    let mut out = String::new();
    let mut i: usize = 0;
    while i < n
        invariant
            n == s@.len(),
            i <= n,
            letters@ == lower_letters(),
            out@ == lower_name(s@.subrange(0, i as int)),
        decreases n - i,
    {
        proof {
            reveal_strlit("abcdefghijklmnopqrstuvwxyz");
        }
        let c = s.get_char(i);
        let code = c as u32;
        if 65 <= code && code <= 90 {
            let k = (code - 65) as usize;
            out.append(letters.substring_char(k, k + 1));
        } else {
            out.append(s.substring_char(i, i + 1));
        }
        assert(out@ =~= lower_name(s@.subrange(0, i + 1)));
        i = i + 1;
    }
    assert(s@.subrange(0, n as int) =~= s@);
    out
}

/// The entries whose name is not `name`.
fn without_name(v: &Vec<(String, String)>, name: &String) -> (r: Vec<(String, String)>)
    ensures
        pairs_view(r@) == remove_name(pairs_view(v@), name@),
{
    let ghost s = pairs_view(v@);
    let mut kept: Vec<(String, String)> = Vec::new();
    let mut i: usize = 0;
    while i < v.len()
        invariant
            s == pairs_view(v@),
            i <= v@.len(),
            pairs_view(kept@) == remove_name(s.subrange(0, i as int), name@),
        decreases v.len() - i,
    {
        assert(s.subrange(0, i + 1).drop_last() =~= s.subrange(0, i as int));
        assert(s[i as int] == (v@[i as int].0@, v@[i as int].1@));
        if !v[i].0.eq(name) {
            let ghost before = kept@;
            kept.push((v[i].0.clone(), v[i].1.clone()));
            assert(pairs_view(kept@) =~= pairs_view(before).push(s[i as int]));
        }
        i = i + 1;
    }
    assert(s.subrange(0, i as int) =~= s);
    kept
}

/// Headers sent with every request. Only this module writes the entries, so
/// every name in it is in lower case.
#[derive(Clone, Debug)]
pub struct HeaderList {
    entries: Vec<(String, String)>,
}

impl HeaderList {
    pub closed spec fn view(&self) -> HeaderView {
        pairs_view(self.entries@)
    }
}

/// Connection settings handed to the HTTP client when a transport is built.
#[derive(Clone, Debug)]
pub struct HttpTransportBuilder {
    pub headers: HeaderList,
    pub timeout: Option<Duration>,
    pub connect_timeout: Option<Duration>,
    pub pool_idle_timeout: Option<Duration>,
    pub pool_max_idle_per_host: usize,
    pub tcp_keepalive: Option<Duration>,
    pub tcp_nodelay: bool,
    pub https_only: bool,
}

impl HttpTransportBuilder {
    /// The headers sent with every request.
    pub open spec fn header_view(&self) -> HeaderView {
        self.headers.view()
    }

    /// Every setting but the headers agrees.
    pub open spec fn same_options(&self, o: &Self) -> bool {
        &&& self.timeout == o.timeout
        &&& self.connect_timeout == o.connect_timeout
        &&& self.pool_idle_timeout == o.pool_idle_timeout
        &&& self.pool_max_idle_per_host == o.pool_max_idle_per_host
        &&& self.tcp_keepalive == o.tcp_keepalive
        &&& self.tcp_nodelay == o.tcp_nodelay
        &&& self.https_only == o.https_only
    }

    /// The default settings: no headers, no request or connect timeout, idle
    /// connections kept 90 seconds, no cap on idle connections per host, no
    /// keep-alive, Nagle's algorithm on, plain HTTP allowed.
    pub fn new() -> (r: Self)
        ensures
            r.header_view().len() == 0,
            r.timeout is None,
            r.connect_timeout is None,
            r.pool_idle_timeout == Some(secs_duration(90)),
            r.pool_max_idle_per_host == usize::MAX,
            r.tcp_keepalive is None,
            !r.tcp_nodelay,
            !r.https_only,
    {
        HttpTransportBuilder {
            headers: HeaderList { entries: Vec::new() },
            timeout: None,
            connect_timeout: None,
            pool_idle_timeout: Some(Duration::from_secs(90)),
            pool_max_idle_per_host: usize::MAX,
            tcp_keepalive: None,
            tcp_nodelay: false,
            https_only: false,
        }
    }

    /// The headers as (name, value) pairs, names in lower case.
    pub fn header_entries(&self) -> (r: &Vec<(String, String)>)
        ensures
            pairs_view(r@) == self.header_view(),
    {
        &self.headers.entries
    }

    /// The first value of the header called `name`, in any case, if it is set.
    pub fn header_value(&self, name: &str) -> (r: Option<String>)
        ensures
            r matches Some(v) ==> values_of(self.header_view(), lower_name(name@)).len() > 0
                && v@ == values_of(self.header_view(), lower_name(name@))[0],
            r is None ==> values_of(self.header_view(), lower_name(name@)).len() == 0,
    {
        let n = lower_ascii(name);
        let ghost s = self.header_view();
        let mut i: usize = 0;
        while i < self.headers.entries.len()
            invariant
                s == self.header_view(),
                n@ == lower_name(name@),
                i <= self.headers.entries@.len(),
                values_of(s.subrange(0, i as int), n@).len() == 0,
            decreases self.headers.entries.len() - i,
        {
            assert(s.subrange(0, i + 1).drop_last() =~= s.subrange(0, i as int));
            assert(s[i as int] == (self.headers.entries@[i as int].0@, self.headers.entries@[i as int].1@));
            if self.headers.entries[i].0.eq(&n) {
                proof {
                    lemma_values_prefix(s, i as int, n@);
                }
                let v = self.headers.entries[i].1.clone();
                assert(v@ == values_of(s, n@)[0]);
                return Some(v);
            }
            i = i + 1;
        }
        assert(s.subrange(0, i as int) =~= s);
        None
    }

    /// Sets a header sent with every request: `value` replaces every value
    /// the name had. Names are compared without regard to ASCII case.
    pub fn header(self, name: String, value: String) -> (r: Self)
        requires
            valid_header_name(name@),
            valid_header_value(value@),
        ensures
            r.header_view() == insert_header(self.header_view(), lower_name(name@), value@),
            values_of(r.header_view(), lower_name(name@)) == seq![value@],
            forall|m: Seq<char>|
                m != lower_name(name@) ==> #[trigger] values_of(r.header_view(), m) == values_of(
                    self.header_view(),
                    m,
                ),
            r.same_options(&self),
    {
        let n = lower_ascii(name.as_str());
        let mut kept = without_name(&self.headers.entries, &n);
        let ghost before = kept@;
        kept.push((n, value));
        proof {
            assert(pairs_view(kept@) =~= pairs_view(before).push((n@, value@)));
            lemma_insert_header(self.header_view(), n@, value@, n@);
            assert forall|m: Seq<char>| m != n@ implies #[trigger] values_of(
                insert_header(self.header_view(), n@, value@),
                m,
            ) == values_of(self.header_view(), m) by {
                lemma_insert_header(self.header_view(), n@, value@, m);
            }
        }
        HttpTransportBuilder { headers: HeaderList { entries: kept }, ..self }
    }

    /// Whether a pair among the first `i` of `more` has name `n` in lower case.
    fn seen_before(more: &Vec<(String, String)>, i: usize, n: &String) -> (r: bool)
        requires
            i <= more@.len(),
        ensures
            r == names_contain(pairs_view(more@).subrange(0, i as int), n@),
    {
        let ghost s = pairs_view(more@).subrange(0, i as int);
        let mut j: usize = 0;
        while j < i
            invariant
                s == pairs_view(more@).subrange(0, i as int),
                i <= more@.len(),
                j <= i,
                forall|k: int| 0 <= k < j ==> lower_name(#[trigger] s[k].0) != n@,
            decreases i - j,
        {
            assert(s[j as int].0 == more@[j as int].0@);
            let l = lower_ascii(more[j].0.as_str());
            if l.eq(n) {
                return true;
            }
            j = j + 1;
        }
        false
    }

    /// Adds the pairs of `more` in turn: the first pair of a name replaces
    /// the values the name had, later pairs of that name add values.
    pub fn headers(self, more: Vec<(String, String)>) -> (r: Self)
        requires
            valid_pairs(pairs_view(more@)),
        ensures
            r.header_view() == extend_headers(self.header_view(), pairs_view(more@)),
            r.same_options(&self),
    {
        let ghost start = self;
        let ghost m = pairs_view(more@);
        let mut b = self;
        let mut i: usize = 0;
        while i < more.len()
            invariant
                m == pairs_view(more@),
                i <= more@.len(),
                valid_pairs(m),
                b.header_view() == extend_headers(start.header_view(), m.subrange(0, i as int)),
                b.same_options(&start),
            decreases more.len() - i,
        {
            assert(m.subrange(0, i + 1).drop_last() =~= m.subrange(0, i as int));
            assert(m[i as int] == (more@[i as int].0@, more@[i as int].1@));
            assert(valid_header_name(m[i as int].0) && valid_header_value(m[i as int].1));
            let n = lower_ascii(more[i].0.as_str());
            let value = more[i].1.clone();
            if Self::seen_before(&more, i, &n) {
                let ghost before = b.headers.entries@;
                b.headers.entries.push((n, value));
                assert(pairs_view(b.headers.entries@) =~= pairs_view(before).push((n@, value@)));
            } else {
                b = b.header(more[i].0.clone(), value);
            }
            i = i + 1;
        }
        assert(m.subrange(0, more@.len() as int) =~= m);
        b
    }

    /// Sends basic-authentication credentials with every request.
    pub fn basic_auth(self, username: &str, password: Option<&str>) -> (r: Self)
        ensures
            r.header_view() == insert_header(
                self.header_view(),
                authorization(),
                "Basic "@ + base64_of(credentials_text(username@, opt_view(password))),
            ),
            values_of(r.header_view(), authorization()) == seq![
                "Basic "@ + base64_of(credentials_text(username@, opt_view(password))),
            ],
            r.same_options(&self),
    {
        let value = basic_auth_value(username, password);
        let name = String::from_str("authorization");
        proof {
            reveal_strlit("authorization");
            reveal_strlit("Basic ");
            assert(lower_name(name@) =~= name@);
            assert forall|i: int| 0 <= i < name@.len() implies is_name_char(#[trigger] name@[i]) by {}
            assert forall|i: int| 0 <= i < value@.len() implies #[trigger] value@[i] == '\t' || (
            value@[i] as u32 >= 0x20 && value@[i] as u32 != 0x7f) by {
                if i >= 6 {
                    assert(is_base64_char(value@[i]));
                }
            }
        }
        self.header(name, value)
    }

    /// Sends a bearer token with every request.
    pub fn bearer_auth(self, token: &str) -> (r: Self)
        requires
            valid_header_value(token@),
        ensures
            r.header_view() == insert_header(self.header_view(), authorization(), "Bearer "@ + token@),
            values_of(r.header_view(), authorization()) == seq!["Bearer "@ + token@],
            r.same_options(&self),
    {
        let value = bearer_auth_value(token);
        let name = String::from_str("authorization");
        proof {
            reveal_strlit("authorization");
            reveal_strlit("Bearer ");
            assert(lower_name(name@) =~= name@);
            assert forall|i: int| 0 <= i < name@.len() implies is_name_char(#[trigger] name@[i]) by {}
            assert forall|i: int| 0 <= i < value@.len() implies #[trigger] value@[i] == '\t' || (
            value@[i] as u32 >= 0x20 && value@[i] as u32 != 0x7f) by {
                if i >= 7 {
                    assert(value@[i] == token@[i - 7]);
                }
            }
        }
        self.header(name, value)
    }


    /// Limits each request, from connecting until the body is read.
    pub fn timeout(self, timeout: Duration) -> (r: Self)
        ensures
            r == (HttpTransportBuilder { timeout: Some(timeout), ..self }),
    {
        HttpTransportBuilder { timeout: Some(timeout), ..self }
    }

    /// Limits the connect phase.
    pub fn connect_timeout(self, timeout: Duration) -> (r: Self)
        ensures
            r == (HttpTransportBuilder { connect_timeout: Some(timeout), ..self }),
    {
        HttpTransportBuilder { connect_timeout: Some(timeout), ..self }
    }

    /// How long an idle connection is kept.
    pub fn pool_idle_timeout(self, val: Duration) -> (r: Self)
        ensures
            r == (HttpTransportBuilder { pool_idle_timeout: Some(val), ..self }),
    {
        HttpTransportBuilder { pool_idle_timeout: Some(val), ..self }
    }

    /// How many idle connections per host are kept.
    pub fn pool_max_idle_per_host(self, max: usize) -> (r: Self)
        ensures
            r == (HttpTransportBuilder { pool_max_idle_per_host: max, ..self }),
    {
        HttpTransportBuilder { pool_max_idle_per_host: max, ..self }
    }

    /// Whether sockets set `TCP_NODELAY`.
    pub fn tcp_nodelay(self, enabled: bool) -> (r: Self)
        ensures
            r == (HttpTransportBuilder { tcp_nodelay: enabled, ..self }),
    {
        HttpTransportBuilder { tcp_nodelay: enabled, ..self }
    }

    /// Keep-alive probes on every socket, at this interval.
    pub fn tcp_keepalive(self, val: Duration) -> (r: Self)
        ensures
            r == (HttpTransportBuilder { tcp_keepalive: Some(val), ..self }),
    {
        HttpTransportBuilder { tcp_keepalive: Some(val), ..self }
    }

    /// Whether only `https` URLs are accepted.
    pub fn https_only(self, enabled: bool) -> (r: Self)
        ensures
            r == (HttpTransportBuilder { https_only: enabled, ..self }),
    {
        HttpTransportBuilder { https_only: enabled, ..self }
    }
}

impl Default for HttpTransportBuilder {
    fn default() -> (r: Self)
        ensures
            r.header_view().len() == 0,
            r.timeout is None,
            r.connect_timeout is None,
            r.pool_idle_timeout == Some(secs_duration(90)),
            r.pool_max_idle_per_host == usize::MAX,
            r.tcp_keepalive is None,
            !r.tcp_nodelay,
            !r.https_only,
    {
        Self::new()
    }
}

} // verus!
