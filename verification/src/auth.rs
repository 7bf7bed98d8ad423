//! Telegram Mini App request authentication.
//!
//! A request carries Telegram `initData` (a URL-encoded `key=value&...` list signed
//! with HMAC-SHA256 under a key derived from the bot token) or a desktop bookmark
//! token `desktop_<uid>[_<signature>]`. Only users on the allow-list are admitted.

use vstd::prelude::*;
use vstd::utf8::encode_utf8;
use crate::text::{
    chars_of, dec, has_prefix, hex_bytes, owned, parse_u64, parse_u64_spec, push_char, push_dec,
    push_hex_bytes, push_str, slice_contains_u64, split, split_once, split_once_spec, split_spec,
    starts_with, str_eq, string_from_range, trim, trim_spec, views,
};

verus! {

// ── Data ────────────────────────────────────────────────────

/// The parts of an HTTP request that carry authentication data.
pub struct AuthRequest {
    /// The `X-Telegram-Init-Data` header, if present and printable.
    pub init_data_header: Option<String>,
    /// The `Authorization` header, if present and printable.
    pub authorization_header: Option<String>,
    /// The `initData` query parameter, if a query was given and holds it.
    pub query_init_data: Option<String>,
    /// The `tgWebAppData` query parameter, if a query was given and holds it.
    pub query_web_app_data: Option<String>,
}

/// The HTTP status class of a refusal.
#[derive(PartialEq, Eq, Structural, Clone, Copy, Debug)]
pub enum AuthStatus {
    Unauthorized,
    Forbidden,
}

/// Why a request was refused.
#[derive(PartialEq, Eq, Structural, Clone, Copy, Debug)]
pub enum AuthFailure {
    /// The allow-list is empty: nobody may enter.
    NoAllowedUsers,
    /// No non-blank `initData` was found.
    MissingInitData,
    /// `initData` has no `hash` entry.
    MissingHash,
    /// Neither form of the data-check string matches the hash.
    BadSignature,
    /// The signed data names no user.
    MissingUser,
    /// The signed user is not on the allow-list.
    UserNotAllowed(u64),
}

// ── Outside computations ────────────────────────────────────

/// What `ring::hmac::sign` returns as tag bytes for an HMAC-SHA256 key and message.
pub uninterp spec fn hmac_sha256_spec(key: Seq<u8>, msg: Seq<u8>) -> Seq<u8>;

/// What `urlencoding::decode` returns: `None` where the decoded bytes are not UTF-8.
pub uninterp spec fn url_decoded(s: Seq<char>) -> Option<Seq<char>>;

/// What parsing `text` as JSON gives: `None` where it is not JSON, otherwise the
/// `id` field of the object read as an unsigned integer, if there is one.
pub uninterp spec fn user_json_id(text: Seq<char>) -> Option<Option<u64>>;

/// HMAC-SHA256 of `msg` under `key` (ring's `hmac::Key::new` and `hmac::sign`).
/// The tag of SHA-256 is 32 bytes long.
#[verifier::external_body]
fn hmac_sha256(key: &[u8], msg: &[u8]) -> (tag: Vec<u8>)
    ensures
        tag@ == hmac_sha256_spec(key@, msg@),
        tag@.len() == 32,
{
    let k = ring::hmac::Key::new(ring::hmac::HMAC_SHA256, key);
    ring::hmac::sign(&k, msg).as_ref().to_vec()
}

/// Percent-decoding of `s` (`urlencoding::decode`).
#[verifier::external_body]
fn url_decode(s: &str) -> (r: Option<String>)
    ensures
        match r {
            Some(d) => url_decoded(s@) == Some(d@),
            None => url_decoded(s@) is None,
        },
{
    match urlencoding::decode(s) {
        Ok(d) => Some(d.into_owned()),
        Err(_) => None,
    }
}

/// The `id` of a Telegram user object given as JSON text (`serde_json::from_str`).
#[verifier::external_body]
fn parse_user_json_id(text: &str) -> (r: Option<Option<u64>>)
    ensures
        r == user_json_id(text@),
{
    match serde_json::from_str::<serde_json::Value>(text) {
        Ok(v) => Some(v.get("id").and_then(|id| id.as_u64())),
        Err(_) => None,
    }
}

// ── Specification ───────────────────────────────────────────

pub open spec fn opt_view(o: Option<String>) -> Option<Seq<char>> {
    match o {
        Some(s) => Some(s@),
        None => None,
    }
}

/// `s` without the prefix `p`, as `str::strip_prefix`.
pub open spec fn strip_prefix_spec(s: Seq<char>, p: Seq<char>) -> Option<Seq<char>> {
    if has_prefix(s, p) {
        Some(s.skip(p.len() as int))
    } else {
        None
    }
}

pub open spec fn tma_prefix() -> Seq<char> {
    seq!['t', 'm', 'a', ' ']
}

pub open spec fn desktop_prefix() -> Seq<char> {
    seq!['d', 'e', 's', 'k', 't', 'o', 'p', '_']
}

pub open spec fn hash_key() -> Seq<char> {
    seq!['h', 'a', 's', 'h']
}

pub open spec fn user_key() -> Seq<char> {
    seq!['u', 's', 'e', 'r']
}

pub open spec fn web_app_data_key() -> Seq<char> {
    seq!['W', 'e', 'b', 'A', 'p', 'p', 'D', 'a', 't', 'a']
}

/// The `initData` of a request: the `X-Telegram-Init-Data` header, else the
/// `Authorization: tma <data>` header; where that gives nothing or an empty
/// string, the `initData` query parameter, else `tgWebAppData`.
pub open spec fn init_data_of(req: AuthRequest) -> Option<Seq<char>> {
    let from_headers = match opt_view(req.init_data_header) {
        Some(h) => Some(h),
        None => match opt_view(req.authorization_header) {
            Some(a) => strip_prefix_spec(a, tma_prefix()),
            None => None,
        },
    };
    let missing = match from_headers {
        Some(h) => h.len() == 0,
        None => true,
    };
    if missing {
        match opt_view(req.query_init_data) {
            Some(q) => Some(q),
            None => match opt_view(req.query_web_app_data) {
                Some(q) => Some(q),
                None => from_headers,
            },
        }
    } else {
        from_headers
    }
}

/// A component after percent-decoding, or as it stands where decoding fails.
pub open spec fn decoded(s: Seq<char>) -> Seq<char> {
    match url_decoded(s) {
        Some(d) => d,
        None => s,
    }
}

pub type Pair = (Seq<char>, Seq<char>);

/// The pieces of `initData`, folded left to right: the decoded `(key, value)`
/// pairs other than `hash`, the same pairs undecoded, and the decoded value of
/// the last `hash` entry (empty when there is none). Pieces without `=` are skipped.
pub open spec fn parse_pairs(pieces: Seq<Seq<char>>) -> (Seq<Pair>, Seq<Pair>, Seq<char>)
    decreases pieces.len(),
{
    if pieces.len() == 0 {
        (Seq::empty(), Seq::empty(), Seq::empty())
    } else {
        let (params, raw, hash) = parse_pairs(pieces.drop_last());
        match split_once_spec(pieces.last(), '=') {
            None => (params, raw, hash),
            Some((k, v)) => if decoded(k) == hash_key() {
                (params, raw, decoded(v))
            } else {
                (params.push((decoded(k), decoded(v))), raw.push((k, v)), hash)
            },
        }
    }
}

/// Lexicographic order on character sequences (that of `str`'s `Ord`).
pub open spec fn lex_le(a: Seq<char>, b: Seq<char>) -> bool
    decreases a.len(),
{
    if a.len() == 0 {
        true
    } else if b.len() == 0 {
        false
    } else if a[0] != b[0] {
        a[0] < b[0]
    } else {
        lex_le(a.drop_first(), b.drop_first())
    }
}

/// Where a stable insertion puts `x`: before the first element whose key is
/// greater than the key of `x`.
pub open spec fn insert_pos(s: Seq<Pair>, x: Pair) -> int
    decreases s.len(),
{
    if s.len() == 0 {
        0
    } else if !lex_le(s[0].0, x.0) {
        0
    } else {
        1 + insert_pos(s.drop_first(), x)
    }
}

/// The pairs sorted by key, equal keys keeping their order (as `sort_by` on keys).
pub open spec fn stable_sort_spec(s: Seq<Pair>) -> Seq<Pair>
    decreases s.len(),
{
    if s.len() == 0 {
        s
    } else {
        let sorted = stable_sort_spec(s.drop_last());
        sorted.insert(insert_pos(sorted, s.last()), s.last())
    }
}

/// `key=value` lines joined with `\n`: the data-check string.
pub open spec fn check_string(s: Seq<Pair>) -> Seq<char>
    decreases s.len(),
{
    if s.len() == 0 {
        Seq::empty()
    } else if s.len() == 1 {
        s[0].0 + seq!['='] + s[0].1
    } else {
        check_string(s.drop_last()) + seq!['\n'] + s.last().0 + seq!['='] + s.last().1
    }
}

pub open spec fn lower_byte(b: u8) -> u8 {
    if 65 <= b <= 90 {
        (b + 32) as u8
    } else {
        b
    }
}

/// Equal lengths and equal bytes up to ASCII case.
pub open spec fn bytes_eq_ignore_case(x: Seq<u8>, y: Seq<u8>) -> bool {
    x.len() == y.len() && forall|i: int| 0 <= i < x.len() ==> lower_byte(x[i]) == lower_byte(y[i])
}

/// What `constant_time_eq_hex` decides: the UTF-8 bytes agree up to ASCII case.
pub open spec fn hex_matches(a: Seq<char>, b: Seq<char>) -> bool {
    bytes_eq_ignore_case(encode_utf8(a), encode_utf8(b))
}

/// Hex of the HMAC-SHA256 tag of `msg` under `key`.
pub open spec fn hmac_hex(key: Seq<u8>, msg: Seq<char>) -> Seq<char> {
    hex_bytes(hmac_sha256_spec(key, encode_utf8(msg)))
}

/// The desktop bookmark form `desktop_<uid>[_<signature>]`: admitted when `uid`
/// is allowed and either no signature is given or the signature is the hex
/// HMAC-SHA256 of `desktop_<uid>` under the bot token.
pub open spec fn desktop_outcome(init: Seq<char>, token: Seq<char>, allowed: Seq<u64>) -> Option<
    u64,
> {
    match strip_prefix_spec(init, desktop_prefix()) {
        None => None,
        Some(rest) => {
            let (uid_str, sig) = match split_once_spec(rest, '_') {
                Some((u, s)) => (u, Some(s)),
                None => (rest, None),
            };
            match parse_u64_spec(uid_str) {
                None => None,
                Some(uid) => if !allowed.contains(uid) {
                    None
                } else {
                    match sig {
                        None => Some(uid),
                        Some(s) => if hex_matches(
                            hmac_hex(encode_utf8(token), desktop_prefix() + dec(uid as nat)),
                            s,
                        ) {
                            Some(uid)
                        } else {
                            None
                        },
                    }
                },
            }
        },
    }
}

/// The secret key: HMAC-SHA256 of the bot token under the key `WebAppData`.
pub open spec fn secret_key(token: Seq<char>) -> Seq<u8> {
    hmac_sha256_spec(encode_utf8(web_app_data_key()), encode_utf8(token))
}

/// The hash matches the data-check string built from the decoded pairs or
/// from the undecoded ones.
pub open spec fn signature_valid(
    params: Seq<Pair>,
    raw: Seq<Pair>,
    hash: Seq<char>,
    token: Seq<char>,
) -> bool {
    hex_matches(hmac_hex(secret_key(token), check_string(stable_sort_spec(params))), hash)
        || hex_matches(hmac_hex(secret_key(token), check_string(stable_sort_spec(raw))), hash)
}

/// The user id given by the last `user` entry that is JSON.
pub open spec fn user_id_of(params: Seq<Pair>) -> Option<u64>
    decreases params.len(),
{
    if params.len() == 0 {
        None
    } else {
        let prev = user_id_of(params.drop_last());
        if params.last().0 == user_key() {
            match user_json_id(params.last().1) {
                Some(id) => id,
                None => prev,
            }
        } else {
            prev
        }
    }
}

/// The outcome of authenticating `req` with bot token `token` and allow-list `allowed`.
pub open spec fn auth_spec(req: AuthRequest, token: Seq<char>, allowed: Seq<u64>) -> Result<
    u64,
    AuthFailure,
> {
    if allowed.len() == 0 {
        Err(AuthFailure::NoAllowedUsers)
    } else {
        match init_data_of(req) {
            None => Err(AuthFailure::MissingInitData),
            Some(init) => if trim_spec(init).len() == 0 {
                Err(AuthFailure::MissingInitData)
            } else {
                let (params, raw, hash) = parse_pairs(split_spec(init, '&'));
                match desktop_outcome(init, token, allowed) {
                    Some(uid) => Ok(uid),
                    None => if hash.len() == 0 {
                        Err(AuthFailure::MissingHash)
                    } else if !signature_valid(params, raw, hash, token) {
                        Err(AuthFailure::BadSignature)
                    } else {
                        match user_id_of(params) {
                            None => Err(AuthFailure::MissingUser),
                            Some(uid) => if allowed.contains(uid) {
                                Ok(uid)
                            } else {
                                Err(AuthFailure::UserNotAllowed(uid))
                            },
                        }
                    },
                }
            },
        }
    }
}

pub open spec fn pair_views(v: Seq<(String, String)>) -> Seq<Pair> {
    v.map_values(|p: (String, String)| (p.0@, p.1@))
}

// ── Laws ────────────────────────────────────────────────────

/// Whoever is admitted is on the allow-list.
pub proof fn lemma_admitted_user_is_allowed(req: AuthRequest, token: Seq<char>, allowed: Seq<u64>)
    ensures
        auth_spec(req, token, allowed) matches Ok(uid) ==> allowed.contains(uid),
{
}

/// With an empty allow-list every request is refused as forbidden.
pub proof fn lemma_empty_allow_list_refuses(req: AuthRequest, token: Seq<char>)
    ensures
        auth_spec(req, token, Seq::empty()) == Err::<u64, AuthFailure>(AuthFailure::NoAllowedUsers),
        AuthFailure::NoAllowedUsers.status_spec() == AuthStatus::Forbidden,
{
}

/// A request admitted other than by the desktop bookmark form carries a hash
/// that matches one of the two data-check strings under the bot token, and the
/// user it names is the admitted one.
pub proof fn lemma_admitted_by_signature(req: AuthRequest, token: Seq<char>, allowed: Seq<u64>)
    requires
        auth_spec(req, token, allowed) is Ok,
        init_data_of(req) matches Some(init) && desktop_outcome(init, token, allowed) is None,
    ensures
        ({
            let init = init_data_of(req)->0;
            let (params, raw, hash) = parse_pairs(split_spec(init, '&'));
            &&& signature_valid(params, raw, hash, token)
            &&& user_id_of(params) == Some(auth_spec(req, token, allowed)->Ok_0)
        }),
{
}

// ── Executable ──────────────────────────────────────────────

impl AuthFailure {
    pub open spec fn status_spec(self) -> AuthStatus {
        match self {
            AuthFailure::NoAllowedUsers => AuthStatus::Forbidden,
            AuthFailure::UserNotAllowed(_) => AuthStatus::Forbidden,
            _ => AuthStatus::Unauthorized,
        }
    }

    /// The HTTP status class of the refusal.
    pub fn status(&self) -> (s: AuthStatus)
        ensures
            s == self.status_spec(),
    {
        match self {
            AuthFailure::NoAllowedUsers => AuthStatus::Forbidden,
            AuthFailure::UserNotAllowed(_) => AuthStatus::Forbidden,
            _ => AuthStatus::Unauthorized,
        }
    }

    /// The error text returned to the client.
    pub fn message(&self) -> (m: String)
        ensures
            match *self {
                AuthFailure::NoAllowedUsers => m@
                    == "Access Forbidden: No allowed_users configured in system."@,
                AuthFailure::MissingInitData => m@
                    == "Unauthorized: Telegram initData is required to access NodeBook OS."@,
                AuthFailure::MissingHash => m@
                    == "Unauthorized: Missing cryptographic hash in initData."@,
                AuthFailure::BadSignature => m@ == "Unauthorized: Invalid cryptographic signature."@,
                AuthFailure::MissingUser => m@
                    == "Unauthorized: Missing user identity in initData."@,
                AuthFailure::UserNotAllowed(uid) => m@ == "Forbidden: User ID "@ + dec(uid as nat)
                    + " is not authorized to access this private NodeBook OS instance."@,
            },
    {
        match self {
            AuthFailure::NoAllowedUsers => owned(
                "Access Forbidden: No allowed_users configured in system.",
            ),
            AuthFailure::MissingInitData => owned(
                "Unauthorized: Telegram initData is required to access NodeBook OS.",
            ),
            AuthFailure::MissingHash => owned(
                "Unauthorized: Missing cryptographic hash in initData.",
            ),
            AuthFailure::BadSignature => owned("Unauthorized: Invalid cryptographic signature."),
            AuthFailure::MissingUser => owned("Unauthorized: Missing user identity in initData."),
            AuthFailure::UserNotAllowed(uid) => {
                let mut m = owned("Forbidden: User ID ");
                push_dec(&mut m, *uid);
                push_str(&mut m, " is not authorized to access this private NodeBook OS instance.");
                m
            },
        }
    }
}

fn opt_clone(o: &Option<String>) -> (r: Option<String>)
    ensures
        opt_view(r) == opt_view(*o),
{
    match o {
        Some(s) => Some(s.clone()),
        None => None,
    }
}

/// `s` without the prefix `p`, as `str::strip_prefix`.
pub fn strip_prefix(s: &str, p: &str) -> (r: Option<String>)
    ensures
        opt_view(r) == strip_prefix_spec(s@, p@),
{
    let v = chars_of(s);
    let w = chars_of(p);
    if starts_with(v.as_slice(), w.as_slice()) {
        let n = v.len();
        let r = string_from_range(v.as_slice(), w.len(), n);
        assert(r@ =~= s@.skip(p@.len() as int));
        Some(r)
    } else {
        None
    }
}

/// The `initData` a request carries (see `init_data_of`).
pub fn select_init_data(req: &AuthRequest) -> (r: Option<String>)
    ensures
        opt_view(r) == init_data_of(*req),
{
    proof {
        reveal_strlit("tma ");
        assert("tma "@ =~= tma_prefix());
    }
    let from_headers = match &req.init_data_header {
        Some(h) => Some(h.clone()),
        None => match &req.authorization_header {
            Some(a) => strip_prefix(a.as_str(), "tma "),
            None => None,
        },
    };
    let missing = match &from_headers {
        Some(h) => h.as_str().is_empty(),
        None => true,
    };
    if missing {
        match &req.query_init_data {
            Some(q) => Some(q.clone()),
            None => match &req.query_web_app_data {
                Some(q) => Some(q.clone()),
                None => from_headers,
            },
        }
    } else {
        from_headers
    }
}

/// A component after percent-decoding, or as it stands where decoding fails.
fn decode_component(s: &str) -> (r: String)
    ensures
        r@ == decoded(s@),
{
    match url_decode(s) {
        Some(d) => d,
        None => owned(s),
    }
}

/// The decoded pairs, the undecoded pairs and the hash of `initData`.
pub fn parse_init_data(init: &str) -> (r: (Vec<(String, String)>, Vec<(String, String)>, String))
    ensures
        (pair_views(r.0@), pair_views(r.1@), r.2@) == parse_pairs(split_spec(init@, '&')),
{
    proof {
        reveal_strlit("hash");
        assert("hash"@ =~= hash_key());
    }
    let pieces = split(init, '&');
    let mut params: Vec<(String, String)> = Vec::new();
    let mut raw: Vec<(String, String)> = Vec::new();
    let mut hash = String::new();
    let mut i: usize = 0;
    while i < pieces.len()
        invariant
            i <= pieces.len(),
            views(pieces@) == split_spec(init@, '&'),
            (pair_views(params@), pair_views(raw@), hash@) == parse_pairs(
                views(pieces@).take(i as int),
            ),
        decreases pieces.len() - i,
    {
        let ghost before = views(pieces@).take(i as int);
        proof {
            reveal_strlit("hash");
            assert("hash"@ =~= hash_key());
        }
        assert(views(pieces@).take(i + 1).drop_last() =~= before);
        assert(views(pieces@).take(i + 1).last() == pieces@[i as int]@);
        match split_once(pieces[i].as_str(), '=') {
            None => {},
            Some((k, v)) => {
                let dk = decode_component(k.as_str());
                let dv = decode_component(v.as_str());
                if str_eq(dk.as_str(), "hash") {
                    hash = dv;
                } else {
                    params.push((dk, dv));
                    raw.push((k, v));
                    assert(pair_views(params@) =~= pair_views(params@.drop_last()).push(
                        (params@.last().0@, params@.last().1@),
                    ));
                    assert(pair_views(raw@) =~= pair_views(raw@.drop_last()).push(
                        (raw@.last().0@, raw@.last().1@),
                    ));
                }
            },
        }
        i = i + 1;
    }
    assert(views(pieces@).take(pieces.len() as int) =~= views(pieces@));
    (params, raw, hash)
}

/// Lexicographic order on strings (`str`'s `<=`).
pub fn lex_le_exec(a: &str, b: &str) -> (r: bool)
    ensures
        r == lex_le(a@, b@),
{
    let x = chars_of(a);
    let y = chars_of(b);
    let mut i: usize = 0;
    assert(x@.skip(0) =~= x@);
    assert(y@.skip(0) =~= y@);
    while i < x.len() && i < y.len() && x[i] == y[i]
        invariant
            i <= x.len(),
            i <= y.len(),
            lex_le(a@, b@) == lex_le(x@.skip(i as int), y@.skip(i as int)),
            x@ == a@,
            y@ == b@,
        decreases x.len() - i,
    {
        assert(x@.skip(i as int).drop_first() =~= x@.skip(i + 1));
        assert(y@.skip(i as int).drop_first() =~= y@.skip(i + 1));
        i = i + 1;
    }
    if i == x.len() {
        true
    } else if i == y.len() {
        false
    } else {
        x[i] < y[i]
    }
}

/// The pairs sorted by key, equal keys keeping their order (see `stable_sort_spec`).
pub fn stable_sort_pairs(v: Vec<(String, String)>) -> (r: Vec<(String, String)>)
    ensures
        pair_views(r@) == stable_sort_spec(pair_views(v@)),
{
    let mut sorted: Vec<(String, String)> = Vec::new();
    let mut i: usize = 0;
    while i < v.len()
        invariant
            i <= v.len(),
            pair_views(sorted@) == stable_sort_spec(pair_views(v@).take(i as int)),
        decreases v.len() - i,
    {
        let ghost prefix = pair_views(v@).take(i as int);
        assert(pair_views(v@).take(i + 1).drop_last() =~= prefix);
        let k = v[i].0.clone();
        let val = v[i].1.clone();
        let ghost x: Pair = (k@, val@);
        assert(pair_views(v@).take(i + 1).last() == x);
        let mut p: usize = 0;
        assert(pair_views(sorted@).skip(0) =~= pair_views(sorted@));
        while p < sorted.len() && lex_le_exec(sorted[p].0.as_str(), k.as_str())
            invariant
                p <= sorted.len(),
                x == (k@, val@),
                insert_pos(pair_views(sorted@), x) == p + insert_pos(
                    pair_views(sorted@).skip(p as int),
                    x,
                ),
            decreases sorted.len() - p,
        {
            assert(pair_views(sorted@).skip(p as int).drop_first() =~= pair_views(sorted@).skip(
                p + 1,
            ));
            assert(pair_views(sorted@).skip(p as int)[0] == (sorted@[p as int].0@, sorted@[
                p as int
            ].1@));
            p = p + 1;
        }
        let ghost old_sorted = pair_views(sorted@);
        proof {
            if p < sorted.len() {
                assert(old_sorted.skip(p as int)[0] == (sorted@[p as int].0@, sorted@[
                    p as int
                ].1@));
            } else {
                assert(old_sorted.skip(p as int).len() == 0);
            }
        }
        assert(insert_pos(old_sorted, x) == p);
        sorted.insert(p, (k, val));
        assert(pair_views(sorted@) =~= old_sorted.insert(p as int, x));
        i = i + 1;
    }
    assert(pair_views(v@).take(v.len() as int) =~= pair_views(v@));
    sorted
}

/// The data-check string of the pairs (see `check_string`).
pub fn join_check_string(v: &Vec<(String, String)>) -> (r: String)
    ensures
        r@ == check_string(pair_views(v@)),
{
    let mut out = String::new();
    let mut i: usize = 0;
    while i < v.len()
        invariant
            i <= v.len(),
            out@ == check_string(pair_views(v@).take(i as int)),
        decreases v.len() - i,
    {
        let ghost before = pair_views(v@).take(i as int);
        assert(pair_views(v@).take(i + 1).drop_last() =~= before);
        if i > 0 {
            push_char(&mut out, '\n');
        }
        push_str(&mut out, v[i].0.as_str());
        push_char(&mut out, '=');
        push_str(&mut out, v[i].1.as_str());
        i = i + 1;
        proof {
            let s = pair_views(v@).take(i as int);
            if i == 1 {
                assert(out@ =~= s[0].0 + seq!['='] + s[0].1);
            } else {
                assert(out@ =~= check_string(s.drop_last()) + seq!['\n'] + s.last().0 + seq!['=']
                    + s.last().1);
            }
        }
    }
    assert(pair_views(v@).take(v.len() as int) =~= pair_views(v@));
    out
}

fn lower_u8(b: u8) -> (r: u8)
    ensures
        r == lower_byte(b),
{
    if 65 <= b && b <= 90 {
        b + 32
    } else {
        b
    }
}

/// Compare two hex strings byte by byte, ignoring ASCII case, touching every
/// byte whatever the first difference.
pub fn constant_time_eq_hex(a: &str, b: &str) -> (r: bool)
    ensures
        r == hex_matches(a@, b@),
{
    let x = a.as_bytes();
    let y = b.as_bytes();
    if x.len() != y.len() {
        return false;
    }
    let mut diff: u8 = 0;
    let mut i: usize = 0;
    while i < x.len()
        invariant
            x.len() == y.len(),
            i <= x.len(),
            x@ == encode_utf8(a@),
            y@ == encode_utf8(b@),
            (diff == 0) == (forall|j: int| 0 <= j < i ==> lower_byte(x@[j]) == lower_byte(y@[j])),
        decreases x.len() - i,
    {
        let p = lower_u8(x[i]);
        let q = lower_u8(y[i]);
        let old_diff = diff;
        diff = diff | (p ^ q);
        assert((old_diff | (p ^ q)) == 0 <==> (old_diff == 0 && p == q)) by (bit_vector);
        i = i + 1;
    }
    diff == 0
}

/// The hex HMAC-SHA256 tag of `msg` under `key`.
fn hmac_hex_exec(key: &[u8], msg: &str) -> (r: String)
    ensures
        r@ == hmac_hex(key@, msg@),
{
    let tag = hmac_sha256(key, msg.as_bytes());
    let mut out = String::new();
    push_hex_bytes(&mut out, tag.as_slice());
    assert(out@ =~= hex_bytes(tag@));
    out
}

/// The desktop bookmark check (see `desktop_outcome`).
pub fn desktop_check(init: &str, token: &str, allowed: &[u64]) -> (r: Option<u64>)
    ensures
        r == desktop_outcome(init@, token@, allowed@),
{
    proof {
        reveal_strlit("desktop_");
        assert("desktop_"@ =~= desktop_prefix());
    }
    let rest = match strip_prefix(init, "desktop_") {
        None => {
            return None;
        },
        Some(r) => r,
    };
    let (uid_str, sig) = match split_once(rest.as_str(), '_') {
        Some((u, s)) => (u, Some(s)),
        None => (rest.clone(), None),
    };
    let uid = match parse_u64(uid_str.as_str()) {
        None => {
            return None;
        },
        Some(u) => u,
    };
    if !slice_contains_u64(allowed, uid) {
        return None;
    }
    match sig {
        None => Some(uid),
        Some(s) => {
            let mut msg = owned("desktop_");
            push_dec(&mut msg, uid);
            let calc = hmac_hex_exec(token.as_bytes(), msg.as_str());
            if constant_time_eq_hex(calc.as_str(), s.as_str()) {
                Some(uid)
            } else {
                None
            }
        },
    }
}

/// The user id given by the last `user` entry that is JSON (see `user_id_of`).
pub fn find_user_id(params: &Vec<(String, String)>) -> (r: Option<u64>)
    ensures
        r == user_id_of(pair_views(params@)),
{
    proof {
        reveal_strlit("user");
        assert("user"@ =~= user_key());
    }
    let mut uid: Option<u64> = None;
    let mut i: usize = 0;
    while i < params.len()
        invariant
            i <= params.len(),
            uid == user_id_of(pair_views(params@).take(i as int)),
        decreases params.len() - i,
    {
        assert(pair_views(params@).take(i + 1).drop_last() =~= pair_views(params@).take(i as int));
        proof {
            reveal_strlit("user");
            assert("user"@ =~= user_key());
        }
        if str_eq(params[i].0.as_str(), "user") {
            match parse_user_json_id(params[i].1.as_str()) {
                Some(id) => {
                    uid = id;
                },
                None => {},
            }
        }
        i = i + 1;
    }
    assert(pair_views(params@).take(params.len() as int) =~= pair_views(params@));
    uid
}

/// Authenticate a Mini App request against the bot token and the allow-list.
pub fn authenticate_request(req: &AuthRequest, bot_token: &str, allowed_users: &[u64]) -> (r:
    Result<u64, AuthFailure>)
    ensures
        r == auth_spec(*req, bot_token@, allowed_users@),
{
    proof {
        reveal_strlit("WebAppData");
        assert("WebAppData"@ =~= web_app_data_key());
    }
    if allowed_users.len() == 0 {
        return Err(AuthFailure::NoAllowedUsers);
    }
    let init = match select_init_data(req) {
        None => {
            return Err(AuthFailure::MissingInitData);
        },
        Some(s) => s,
    };
    let trimmed = trim(init.as_str());
    if trimmed.as_str().is_empty() {
        return Err(AuthFailure::MissingInitData);
    }
    let (params, raw, hash) = parse_init_data(init.as_str());
    if let Some(uid) = desktop_check(init.as_str(), bot_token, allowed_users) {
        return Ok(uid);
    }
    if hash.as_str().is_empty() {
        return Err(AuthFailure::MissingHash);
    }
    let secret = hmac_sha256("WebAppData".as_bytes(), bot_token.as_bytes());
    let sorted = stable_sort_pairs(clone_pairs(&params));
    let check = join_check_string(&sorted);
    let calc = hmac_hex_exec(secret.as_slice(), check.as_str());
    let mut passed = constant_time_eq_hex(calc.as_str(), hash.as_str());
    if !passed {
        let raw_sorted = stable_sort_pairs(raw);
        let raw_check = join_check_string(&raw_sorted);
        let raw_calc = hmac_hex_exec(secret.as_slice(), raw_check.as_str());
        passed = constant_time_eq_hex(raw_calc.as_str(), hash.as_str());
    }
    if !passed {
        return Err(AuthFailure::BadSignature);
    }
    match find_user_id(&params) {
        None => Err(AuthFailure::MissingUser),
        Some(uid) => if slice_contains_u64(allowed_users, uid) {
            Ok(uid)
        } else {
            Err(AuthFailure::UserNotAllowed(uid))
        },
    }
}

fn clone_pairs(v: &Vec<(String, String)>) -> (r: Vec<(String, String)>)
    ensures
        pair_views(r@) == pair_views(v@),
{
    let mut out: Vec<(String, String)> = Vec::new();
    let mut i: usize = 0;
    while i < v.len()
        invariant
            i <= v.len(),
            pair_views(out@) == pair_views(v@).take(i as int),
        decreases v.len() - i,
    {
        let ghost prev = out@;
        let a = v[i].0.clone();
        let b = v[i].1.clone();
        out.push((a, b));
        assert(out@ =~= prev.push((a, b)));
        assert(pair_views(out@) =~= pair_views(prev).push((a@, b@)));
        i = i + 1;
        assert(pair_views(out@) =~= pair_views(v@).take(i as int));
    }
    assert(pair_views(v@).take(v.len() as int) =~= pair_views(v@));
    out
}

} // verus!
