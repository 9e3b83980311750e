//! Request signing: a one-time authorization header proving possession
//! of a secret credential, and a parser that reads the quoted fields of
//! such a header back.
//!
//! The header is a pure function of the credential, the request method
//! and URL, the query parameters, a nonce and a timestamp; `header`
//! draws a fresh nonce and the current clock and delegates to
//! `header_with`, which is deterministic.
use vstd::prelude::*;

pub mod oauth1;

use rand::Rng;

verus! {

use vstd::string::*;
use vstd::utf8::encode_utf8;
use crate::auth::oauth1::Twitter3Pin;
use crate::text::{
    after_char,
    decimal_of,
    has_char,
    is_ascii_alphanumeric_char,
    join_with,
    lemma_has_char_index,
    lemma_lex_total_ordering,
    lemma_map_values_multiset,
    lemma_scan_concat,
    lex_leq_fn,
    split_at_char,
    str_eq,
    take_until,
    u64_to_decimal,
};

// ---------- trusted boundary ----------

/// What percent-encoding returns for a given input.
pub uninterp spec fn percent_encoding(s: Seq<char>) -> Seq<char>;

/// The characters percent-encoding can emit: unreserved ASCII passed
/// through, and `%` introducing two hex digits (themselves in the
/// alphanumeric set) for every other byte. A quotation mark is never
/// among them.
pub open spec fn is_percent_output_char(c: char) -> bool {
    is_ascii_alphanumeric_char(c) || c == '-' || c == '.' || c == '_' || c == '~' || c == '%'
}

/// Relies on urlencoding::encode: percent-encodes every byte except
/// ASCII alphanumerics and `-`, `_`, `.`, `~`, which pass through, so
/// every output character is unreserved ASCII, an upper-case hex digit
/// or `%`; the result depends on the input alone.
#[verifier::external_body]
fn percent_encode(s: &str) -> (r: String)
    ensures
        r@ == percent_encoding(s@),
        forall|i: int| 0 <= i < r@.len() ==> is_percent_output_char(#[trigger] r@[i]),
{
    urlencoding::encode(s).into_owned()
}

/// What the HMAC-SHA1 code of a key and a message is.
pub uninterp spec fn hmac_sha1(key: Seq<u8>, msg: Seq<u8>) -> Seq<u8>;

/// Relies on crypto::hmac::Hmac over crypto::sha1::Sha1 (via the
/// crypto::mac::Mac trait): the code is a function of key and message
/// alone, and SHA-1's output size makes it 20 bytes long.
#[verifier::external_body]
fn hmac_sha1_digest(key: &[u8], msg: &[u8]) -> (r: Vec<u8>)
    ensures
        r@ == hmac_sha1(key@, msg@),
        r@.len() == 20,
{
    let mut mac = crypto::hmac::Hmac::new(crypto::sha1::Sha1::new(), key);
    crypto::mac::Mac::input(&mut mac, msg);
    let out = crypto::mac::Mac::result(&mut mac);
    out.code().to_vec()
}

/// What the standard (padded) base64 alphabet encodes a byte string to.
pub uninterp spec fn base64_standard(bytes: Seq<u8>) -> Seq<char>;

/// Relies on base64's STANDARD engine: four output characters for every
/// three input bytes, the last group padded to four; the result depends
/// on the input alone.
#[verifier::external_body]
fn base64_encode(bytes: &[u8]) -> (r: String)
    ensures
        r@ == base64_standard(bytes@),
        r@.len() == 4 * ((bytes@.len() + 2) / 3),
{
    base64::Engine::encode(&base64::engine::general_purpose::STANDARD, bytes)
}

/// Relies on rand's thread rng with the Alphanumeric distribution: every
/// sampled character is one of `A`-`Z`, `a`-`z`, `0`-`9`, and exactly 42
/// are taken. Nothing else is promised of a random value.
#[verifier::external_body]
fn random_nonce() -> (r: String)
    ensures
        r@.len() == 42,
        forall|i: int| 0 <= i < r@.len() ==> is_ascii_alphanumeric_char(#[trigger] r@[i]),
{
    rand::thread_rng().sample_iter(&rand::distributions::Alphanumeric).take(42).map(
        char::from,
    ).collect()
}

/// Relies on std::time::SystemTime: the seconds since the Unix epoch.
/// Nothing is promised of the clock; a system clock before the epoch is
/// a fatal precondition violation and stops the process.
#[verifier::external_body]
fn unix_timestamp_now() -> (t: u64)
{
    std::time::SystemTime::now().duration_since(std::time::UNIX_EPOCH).expect(
        "system clock before the Unix epoch",
    ).as_secs()
}

// ---------- the signing algorithm, as specification ----------

/// The ghost image of a credential bundle: the four secrets as
/// character sequences.
pub ghost struct CredentialsView {
    pub consumer_key: Seq<char>,
    pub consumer_secret: Seq<char>,
    pub access_token: Seq<char>,
    pub access_token_secret: Seq<char>,
}

/// One query parameter rendered as `key=value` with both sides
/// percent-encoded.
pub open spec fn param_entry(k: Seq<char>, v: Seq<char>) -> Seq<char> {
    percent_encoding(k) + "="@ + percent_encoding(v)
}

/// All query parameters rendered as entries, in their given order.
pub open spec fn entry_views(q: Seq<(Seq<char>, Seq<char>)>) -> Seq<Seq<char>> {
    q.map_values(|p: (Seq<char>, Seq<char>)| param_entry(p.0, p.1))
}

/// The six OAuth base parameters rendered `key=value` and joined with
/// `&` in their fixed order.
pub open spec fn base_param_string(cred: CredentialsView, nonce: Seq<char>, ts: nat) -> Seq<
    char,
> {
    "oauth_consumer_key="@ + cred.consumer_key + "&oauth_nonce="@ + nonce
        + "&oauth_signature_method=HMAC-SHA1&oauth_timestamp="@ + decimal_of(ts)
        + "&oauth_token="@ + cred.access_token + "&oauth_version=1.0"@
}

/// The parameter string that is signed. Without query parameters it is
/// the base parameter string alone; with them, the encoded `key=value`
/// entries plus the whole base parameter string are sorted
/// lexicographically as opaque strings and joined with `&`.
pub open spec fn parameter_string(
    cred: CredentialsView,
    nonce: Seq<char>,
    ts: nat,
    query: Option<Seq<(Seq<char>, Seq<char>)>>,
) -> Seq<char> {
    let base = base_param_string(cred, nonce, ts);
    match query {
        None => base,
        Some(q) => join_with(entry_views(q).push(base).sort_by(lex_leq_fn()), "&"@),
    }
}

/// `METHOD&percent_encode(url)&percent_encode(parameter_string)`.
pub open spec fn signature_base_string(method: Seq<char>, url: Seq<char>, params: Seq<char>) -> Seq<
    char,
> {
    method + "&"@ + percent_encoding(url) + "&"@ + percent_encoding(params)
}

/// The signing key: the two secrets joined with `&`, both raw. The
/// secrets are deliberately not percent-encoded here; the rendering must
/// stay bit-compatible with credentials issued against this exact
/// construction, so the discrepancy from the usual key derivation is
/// kept and documented rather than corrected.
pub open spec fn signing_key_bytes(cred: CredentialsView) -> Seq<u8> {
    encode_utf8(cred.consumer_secret + "&"@ + cred.access_token_secret)
}

/// The signature field: HMAC-SHA1 of the signature base string under the
/// signing key, base64-encoded, then percent-encoded.
pub open spec fn oauth_signature(
    cred: CredentialsView,
    method: Seq<char>,
    url: Seq<char>,
    query: Option<Seq<(Seq<char>, Seq<char>)>>,
    nonce: Seq<char>,
    ts: nat,
) -> Seq<char> {
    percent_encoding(
        base64_standard(
            hmac_sha1(
                signing_key_bytes(cred),
                encode_utf8(
                    signature_base_string(method, url, parameter_string(cred, nonce, ts, query)),
                ),
            ),
        ),
    )
}

/// A single quotation mark.
pub open spec fn qm() -> Seq<char> {
    seq!['"']
}

/// The authorization header rendered from its five dynamic fields, with
/// the field order fixed.
pub open spec fn render_header(
    ck: Seq<char>,
    nonce: Seq<char>,
    sig: Seq<char>,
    ts_text: Seq<char>,
    token: Seq<char>,
) -> Seq<char> {
    "OAuth oauth_consumer_key="@ + qm() + ck + qm() + ",oauth_nonce="@ + qm() + nonce + qm()
        + ",oauth_signature="@ + qm() + sig + qm() + ",oauth_signature_method="@ + qm()
        + "HMAC-SHA1"@ + qm() + ",oauth_timestamp="@ + qm() + ts_text + qm() + ",oauth_token="@
        + qm() + token + qm() + ",oauth_version="@ + qm() + "1.0"@ + qm()
}

/// The complete authorization header for a request.
pub open spec fn oauth_header(
    cred: CredentialsView,
    method: Seq<char>,
    url: Seq<char>,
    query: Option<Seq<(Seq<char>, Seq<char>)>>,
    nonce: Seq<char>,
    ts: nat,
) -> Seq<char> {
    render_header(
        cred.consumer_key,
        nonce,
        oauth_signature(cred, method, url, query, nonce, ts),
        decimal_of(ts),
        cred.access_token,
    )
}

/// The ghost image of a query-parameter slice.
pub open spec fn query_views(q: Option<&[(&str, &str)]>) -> Option<Seq<(Seq<char>, Seq<char>)>> {
    match q {
        Some(s) => Some(s@.map_values(|p: (&str, &str)| (p.0@, p.1@))),
        None => None,
    }
}

// ---------- the signer ----------

/// The authentication strategies a client can hold. At present the one
/// strategy is a three-legged PIN credential bundle; absence means the
/// client signs nothing and every header comes back empty.
#[derive(Debug, Clone)]
pub struct TwitterAuth {
    pin3: Option<Twitter3Pin>,
}

impl View for TwitterAuth {
    type V = Option<CredentialsView>;

    closed spec fn view(&self) -> Option<CredentialsView> {
        match self.pin3 {
            Some(pin) => Some(
                CredentialsView {
                    consumer_key: pin.consumer_key@,
                    consumer_secret: pin.consumer_secret@,
                    access_token: pin.access_token@,
                    access_token_secret: pin.access_token_secret@,
                },
            ),
            None => None,
        }
    }
}

impl TwitterAuth {
    /// Builds the bundle from the four secrets of a three-legged PIN
    /// credential.
    pub fn from_oa1uc(
        consumer_key: &str,
        consumer_secret: &str,
        access_token: &str,
        access_token_secret: &str,
    ) -> (r: Self)
        ensures
            r@ matches Some(cred) && cred == (CredentialsView {
                consumer_key: consumer_key@,
                consumer_secret: consumer_secret@,
                access_token: access_token@,
                access_token_secret: access_token_secret@,
            }),
    {
        TwitterAuth {
            pin3: Some(
                Twitter3Pin {
                    consumer_key: consumer_key.to_owned(),
                    consumer_secret: consumer_secret.to_owned(),
                    access_token: access_token.to_owned(),
                    access_token_secret: access_token_secret.to_owned(),
                },
            ),
        }
    }

    /// Renders the authorization header for the given nonce and
    /// timestamp. Deterministic: the result is a function of the
    /// credential and the arguments alone. The signature field never
    /// holds a quotation mark, so whenever the key, nonce and token are
    /// also free of quotation marks, parsing the result yields the five
    /// fields back.
    pub fn header_with(
        &self,
        method: &str,
        url: &str,
        query: Option<&[(&str, &str)]>,
        nonce: &str,
        timestamp: u64,
    ) -> (r: String)
        ensures
            self@ is None ==> r@ == Seq::<char>::empty(),
            self@ matches Some(cred) ==> r@ == oauth_header(
                cred,
                method@,
                url@,
                query_views(query),
                nonce@,
                timestamp as nat,
            ),
            self@ matches Some(cred) ==> !has_char(
                oauth_signature(cred, method@, url@, query_views(query), nonce@, timestamp as nat),
                '"',
            ),
            self@ matches Some(cred) ==> (!has_char(cred.consumer_key, '"') && !has_char(
                nonce@,
                '"',
            ) && !has_char(cred.access_token, '"') ==> parse_header_view(r@) == Some(
                OauthHeaderFieldsView {
                    consumer_key: cred.consumer_key,
                    nonce: nonce@,
                    signature: oauth_signature(
                        cred,
                        method@,
                        url@,
                        query_views(query),
                        nonce@,
                        timestamp as nat,
                    ),
                    timestamp: decimal_of(timestamp as nat),
                    token: cred.access_token,
                },
            )),
    {
        let pin = match &self.pin3 {
            None => {
                return String::new();
            },
            Some(pin) => pin,
        };
        let ghost cred = self@->0;

        // the base parameter string, fields in fixed order
        let mut base = String::from_str("oauth_consumer_key=");
        base.append(pin.consumer_key.as_str());
        base.append("&oauth_nonce=");
        base.append(nonce);
        base.append("&oauth_signature_method=HMAC-SHA1&oauth_timestamp=");
        let ts_text = u64_to_decimal(timestamp);
        base.append(ts_text.as_str());
        base.append("&oauth_token=");
        base.append(pin.access_token.as_str());
        base.append("&oauth_version=1.0");
        proof {
            assert(base@ == base_param_string(cred, nonce@, timestamp as nat));
        }

        // the parameter string: with query parameters, encode each pair,
        // add the base string as one more entry, sort the whole set
        let param_string: String = match query {
            None => base.clone(),
            Some(q) => {
                let mut entries: Vec<String> = Vec::new();
                let qn = q.len();
                let mut i: usize = 0;
                while i < qn
                    invariant
                        i <= qn,
                        qn == q@.len(),
                        entries.deep_view() == entry_views(
                            query_views(Some(q))->0.take(i as int),
                        ),
                    decreases qn - i,
                {
                    let pair = &q[i];
                    let mut e = percent_encode(pair.0);
                    e = e.concat("=");
                    let ev = percent_encode(pair.1);
                    e = e.concat(ev.as_str());
                    entries.push(e);
                    proof {
                        let qv = query_views(Some(q))->0;
                        assert(entry_views(qv.take(i + 1)) =~= entry_views(qv.take(i as int)).push(
                            param_entry(qv[i as int].0, qv[i as int].1)));
                        assert(entries.deep_view() =~= entry_views(qv.take(i + 1)));
                    }
                    i += 1;
                }
                entries.push(base.clone());
                proof {
                    let qv = query_views(Some(q))->0;
                    assert(qv.take(qn as int) =~= qv);
                    assert(entries.deep_view() =~= entry_views(qv).push(base@));
                }
                let sorted = crate::text::sort_strings(&entries);
                crate::text::join_strings(&sorted, "&")
            },
        };
        proof {
            assert(param_string@ == parameter_string(
                cred,
                nonce@,
                timestamp as nat,
                query_views(query),
            ));
        }

        // the signature base string
        let mut sbs = String::new();
        sbs.append(method);
        sbs.append("&");
        let enc_url = percent_encode(url);
        sbs.append(enc_url.as_str());
        sbs.append("&");
        let enc_params = percent_encode(param_string.as_str());
        sbs.append(enc_params.as_str());

        // the signing key: raw secrets joined with `&`, by design
        let mut key = String::new();
        key.append(pin.consumer_secret.as_str());
        key.append("&");
        key.append(pin.access_token_secret.as_str());

        let key_bytes = key.as_str().as_bytes_vec();
        let msg_bytes = sbs.as_str().as_bytes_vec();
        let digest = hmac_sha1_digest(key_bytes.as_slice(), msg_bytes.as_slice());
        let b64 = base64_encode(digest.as_slice());
        let sig = percent_encode(b64.as_str());
        proof {
            assert(sig@ == oauth_signature(
                cred,
                method@,
                url@,
                query_views(query),
                nonce@,
                timestamp as nat,
            ));
            assert forall|i: int| 0 <= i < sig@.len() implies sig@[i] != '"' by {
                assert(is_percent_output_char(sig@[i]));
            }
            lemma_has_char_index(sig@, '"');
            assert(!has_char(sig@, '"'));
        }

        // the header, field order fixed
        let mut h = String::from_str("OAuth oauth_consumer_key=");
        h.append("\"");
        h.append(pin.consumer_key.as_str());
        h.append("\"");
        h.append(",oauth_nonce=");
        h.append("\"");
        h.append(nonce);
        h.append("\"");
        h.append(",oauth_signature=");
        h.append("\"");
        h.append(sig.as_str());
        h.append("\"");
        h.append(",oauth_signature_method=");
        h.append("\"");
        h.append("HMAC-SHA1");
        h.append("\"");
        h.append(",oauth_timestamp=");
        h.append("\"");
        h.append(ts_text.as_str());
        h.append("\"");
        h.append(",oauth_token=");
        h.append("\"");
        h.append(pin.access_token.as_str());
        h.append("\"");
        h.append(",oauth_version=");
        h.append("\"");
        h.append("1.0");
        h.append("\"");
        proof {
            reveal_strlit("\"");
            assert("\""@ =~= qm());
            assert(h@ == oauth_header(
                cred,
                method@,
                url@,
                query_views(query),
                nonce@,
                timestamp as nat,
            ));
            if !has_char(cred.consumer_key, '"') && !has_char(nonce@, '"') && !has_char(
                cred.access_token,
                '"',
            ) {
                lemma_signed_header_round_trip(
                    cred,
                    method@,
                    url@,
                    query_views(query),
                    nonce@,
                    timestamp as nat,
                );
            }
        }
        h
    }

    /// Produces a one-time authorization header for the request: a fresh
    /// 42-character alphanumeric nonce and the current Unix timestamp are
    /// drawn, and the header is the deterministic rendering for them.
    /// When the consumer key and token hold no quotation mark, parsing
    /// the result yields them back along with the drawn nonce and the
    /// decimal rendering of the drawn timestamp.
    pub fn header(&self, method: &str, url: &str, query: Option<&[(&str, &str)]>) -> (r: String)
        ensures
            self@ is None ==> r@ == Seq::<char>::empty(),
            self@ matches Some(cred) ==> exists|nonce: Seq<char>, ts: nat|
                nonce.len() == 42 && (forall|i: int|
                    0 <= i < nonce.len() ==> is_ascii_alphanumeric_char(#[trigger] nonce[i]))
                    && r@ == #[trigger] oauth_header(
                    cred,
                    method@,
                    url@,
                    query_views(query),
                    nonce,
                    ts,
                ) && (!has_char(cred.consumer_key, '"') && !has_char(cred.access_token, '"')
                    ==> parse_header_view(r@) == Some(
                    OauthHeaderFieldsView {
                        consumer_key: cred.consumer_key,
                        nonce,
                        signature: oauth_signature(
                            cred,
                            method@,
                            url@,
                            query_views(query),
                            nonce,
                            ts,
                        ),
                        timestamp: decimal_of(ts),
                        token: cred.access_token,
                    },
                )),
    {
        let nonce = random_nonce();
        let ts = unix_timestamp_now();
        let r = self.header_with(method, url, query, nonce.as_str(), ts);
        proof {
            if self@ is Some {
                let cred = self@->0;
                assert(r@ == oauth_header(
                    cred,
                    method@,
                    url@,
                    query_views(query),
                    nonce@,
                    ts as nat,
                ));
                assert forall|i: int| 0 <= i < nonce@.len() implies nonce@[i] != '"' by {
                    assert(is_ascii_alphanumeric_char(nonce@[i]));
                }
                lemma_has_char_index(nonce@, '"');
                assert(!has_char(nonce@, '"'));
                assert(!has_char(cred.consumer_key, '"') && !has_char(cred.access_token, '"')
                    ==> parse_header_view(r@) == Some(
                    OauthHeaderFieldsView {
                        consumer_key: cred.consumer_key,
                        nonce: nonce@,
                        signature: oauth_signature(
                            cred,
                            method@,
                            url@,
                            query_views(query),
                            nonce@,
                            ts as nat,
                        ),
                        timestamp: decimal_of(ts as nat),
                        token: cred.access_token,
                    },
                ));
            }
        }
        r
    }
}

// ---------- reading a header back ----------

/// The five dynamic quoted fields of an authorization header.
#[derive(Debug)]
pub struct OauthHeaderFields {
    pub consumer_key: String,
    pub nonce: String,
    pub signature: String,
    pub timestamp: String,
    pub token: String,
}

/// The ghost image of the five fields.
pub ghost struct OauthHeaderFieldsView {
    pub consumer_key: Seq<char>,
    pub nonce: Seq<char>,
    pub signature: Seq<char>,
    pub timestamp: Seq<char>,
    pub token: Seq<char>,
}

impl View for OauthHeaderFields {
    type V = OauthHeaderFieldsView;

    open spec fn view(&self) -> OauthHeaderFieldsView {
        OauthHeaderFieldsView {
            consumer_key: self.consumer_key@,
            nonce: self.nonce@,
            signature: self.signature@,
            timestamp: self.timestamp@,
            token: self.token@,
        }
    }
}

/// What parsing an authorization header yields: the text is cut at each
/// quotation mark; the pieces between quotes alternate between the fixed
/// labels, which must match exactly, and the seven quoted values, of
/// which the five dynamic ones are returned.
pub open spec fn parse_header_view(h: Seq<char>) -> Option<OauthHeaderFieldsView> {
    let c = '"';
    let l0 = take_until(h, c);
    let r0 = after_char(h, c);
    let ck = take_until(r0, c);
    let r1 = after_char(r0, c);
    let l1 = take_until(r1, c);
    let r2 = after_char(r1, c);
    let nonce = take_until(r2, c);
    let r3 = after_char(r2, c);
    let l2 = take_until(r3, c);
    let r4 = after_char(r3, c);
    let sig = take_until(r4, c);
    let r5 = after_char(r4, c);
    let l3 = take_until(r5, c);
    let r6 = after_char(r5, c);
    let mth = take_until(r6, c);
    let r7 = after_char(r6, c);
    let l4 = take_until(r7, c);
    let r8 = after_char(r7, c);
    let ts = take_until(r8, c);
    let r9 = after_char(r8, c);
    let l5 = take_until(r9, c);
    let r10 = after_char(r9, c);
    let tok = take_until(r10, c);
    let r11 = after_char(r10, c);
    let l6 = take_until(r11, c);
    let r12 = after_char(r11, c);
    let ver = take_until(r12, c);
    let r13 = after_char(r12, c);
    if l0 == "OAuth oauth_consumer_key="@ && l1 == ",oauth_nonce="@ && l2 == ",oauth_signature="@
        && l3 == ",oauth_signature_method="@ && mth == "HMAC-SHA1"@ && l4 == ",oauth_timestamp="@
        && l5 == ",oauth_token="@ && l6 == ",oauth_version="@ && ver == "1.0"@ && has_char(r12, c)
        && r13.len() == 0 {
        Some(
            OauthHeaderFieldsView {
                consumer_key: ck,
                nonce,
                signature: sig,
                timestamp: ts,
                token: tok,
            },
        )
    } else {
        None
    }
}

/// Reads the quoted fields of an authorization header back, as
/// `parse_header_view` describes; a text that does not have the exact
/// shape the signer emits is rejected.
pub fn parse_header(h: &str) -> (r: Option<OauthHeaderFields>)
    ensures
        match r {
            Some(f) => parse_header_view(h@) == Some(f@),
            None => parse_header_view(h@) is None,
        },
{
    let (l0, r0, _) = split_at_char(h, '"');
    let (ck, r1, _) = split_at_char(r0, '"');
    let (l1, r2, _) = split_at_char(r1, '"');
    let (nonce, r3, _) = split_at_char(r2, '"');
    let (l2, r4, _) = split_at_char(r3, '"');
    let (sig, r5, _) = split_at_char(r4, '"');
    let (l3, r6, _) = split_at_char(r5, '"');
    let (mth, r7, _) = split_at_char(r6, '"');
    let (l4, r8, _) = split_at_char(r7, '"');
    let (ts, r9, _) = split_at_char(r8, '"');
    let (l5, r10, _) = split_at_char(r9, '"');
    let (tok, r11, _) = split_at_char(r10, '"');
    let (l6, r12, _) = split_at_char(r11, '"');
    let (ver, r13, closed) = split_at_char(r12, '"');
    if str_eq(l0, "OAuth oauth_consumer_key=") && str_eq(l1, ",oauth_nonce=") && str_eq(
        l2,
        ",oauth_signature=",
    ) && str_eq(l3, ",oauth_signature_method=") && str_eq(mth, "HMAC-SHA1") && str_eq(
        l4,
        ",oauth_timestamp=",
    ) && str_eq(l5, ",oauth_token=") && str_eq(l6, ",oauth_version=") && str_eq(ver, "1.0")
        && closed && r13.is_empty() {
        Some(
            OauthHeaderFields {
                consumer_key: String::from_str(ck),
                nonce: String::from_str(nonce),
                signature: String::from_str(sig),
                timestamp: String::from_str(ts),
                token: String::from_str(tok),
            },
        )
    } else {
        None
    }
}

// ---------- stated laws ----------

/// No label of the rendered header contains a quotation mark.
proof fn lemma_labels_have_no_quote()
    ensures
        !has_char("OAuth oauth_consumer_key="@, '"'),
        !has_char(",oauth_nonce="@, '"'),
        !has_char(",oauth_signature="@, '"'),
        !has_char(",oauth_signature_method="@, '"'),
        !has_char("HMAC-SHA1"@, '"'),
        !has_char(",oauth_timestamp="@, '"'),
        !has_char(",oauth_token="@, '"'),
        !has_char(",oauth_version="@, '"'),
        !has_char("1.0"@, '"'),
{
    reveal_strlit("OAuth oauth_consumer_key=");
    reveal_strlit(",oauth_nonce=");
    reveal_strlit(",oauth_signature=");
    reveal_strlit(",oauth_signature_method=");
    reveal_strlit("HMAC-SHA1");
    reveal_strlit(",oauth_timestamp=");
    reveal_strlit(",oauth_token=");
    reveal_strlit(",oauth_version=");
    reveal_strlit("1.0");
    lemma_has_char_index("OAuth oauth_consumer_key="@, '"');
    lemma_has_char_index(",oauth_nonce="@, '"');
    lemma_has_char_index(",oauth_signature="@, '"');
    lemma_has_char_index(",oauth_signature_method="@, '"');
    lemma_has_char_index("HMAC-SHA1"@, '"');
    lemma_has_char_index(",oauth_timestamp="@, '"');
    lemma_has_char_index(",oauth_token="@, '"');
    lemma_has_char_index(",oauth_version="@, '"');
    lemma_has_char_index("1.0"@, '"');
}

/// Scanning one `label "value"` unit of the header consumes the label
/// and the value in turn.
proof fn lemma_scan_label_value(lbl: Seq<char>, val: Seq<char>, rest: Seq<char>)
    requires
        !has_char(lbl, '"'),
        !has_char(val, '"'),
    ensures
        take_until(lbl + qm() + val + qm() + rest, '"') == lbl,
        after_char(lbl + qm() + val + qm() + rest, '"') == val + qm() + rest,
        take_until(val + qm() + rest, '"') == val,
        after_char(val + qm() + rest, '"') == rest,
{
    assert(lbl + qm() + val + qm() + rest =~= lbl + seq!['"'] + (val + qm() + rest));
    lemma_scan_concat(lbl, val + qm() + rest, '"');
    assert(val + qm() + rest =~= val + seq!['"'] + rest);
    lemma_scan_concat(val, rest, '"');
}

/// Round trip: parsing a rendered authorization header yields back the
/// consumer key, nonce, signature, timestamp and token it was rendered
/// from, provided none of them contains a quotation mark (the signer
/// never emits one inside a field).
#[verifier::rlimit(100)]
pub proof fn lemma_header_round_trip(
    ck: Seq<char>,
    nonce: Seq<char>,
    sig: Seq<char>,
    ts_text: Seq<char>,
    tok: Seq<char>,
)
    requires
        !has_char(ck, '"'),
        !has_char(nonce, '"'),
        !has_char(sig, '"'),
        !has_char(ts_text, '"'),
        !has_char(tok, '"'),
    ensures
        parse_header_view(render_header(ck, nonce, sig, ts_text, tok)) == Some(
            OauthHeaderFieldsView {
                consumer_key: ck,
                nonce,
                signature: sig,
                timestamp: ts_text,
                token: tok,
            },
        ),
{
    lemma_labels_have_no_quote();
    let h = render_header(ck, nonce, sig, ts_text, tok);
    let u6 = ",oauth_version="@ + qm() + "1.0"@ + qm() + Seq::<char>::empty();
    let u5 = ",oauth_token="@ + qm() + tok + qm() + u6;
    let u4 = ",oauth_timestamp="@ + qm() + ts_text + qm() + u5;
    let u3 = ",oauth_signature_method="@ + qm() + "HMAC-SHA1"@ + qm() + u4;
    let u2 = ",oauth_signature="@ + qm() + sig + qm() + u3;
    let u1 = ",oauth_nonce="@ + qm() + nonce + qm() + u2;
    let u0 = "OAuth oauth_consumer_key="@ + qm() + ck + qm() + u1;
    assert(h =~= u0);
    lemma_scan_label_value("OAuth oauth_consumer_key="@, ck, u1);
    lemma_scan_label_value(",oauth_nonce="@, nonce, u2);
    lemma_scan_label_value(",oauth_signature="@, sig, u3);
    lemma_scan_label_value(",oauth_signature_method="@, "HMAC-SHA1"@, u4);
    lemma_scan_label_value(",oauth_timestamp="@, ts_text, u5);
    lemma_scan_label_value(",oauth_token="@, tok, u6);
    lemma_scan_label_value(",oauth_version="@, "1.0"@, Seq::<char>::empty());
    let r12 = "1.0"@ + qm() + Seq::<char>::empty();
    assert(has_char(r12, '"')) by {
        lemma_has_char_index(r12, '"');
        assert(r12["1.0"@.len() as int] == '"');
    }
}

/// The round trip on a header the signer actually emits: parsing yields
/// back the consumer key, token, nonce and timestamp it was signed with.
/// The key's, nonce's and token's freedom from quotation marks is the
/// caller's to supply; the signature's follows from the percent
/// encoder's character set, which `header_with` establishes where the
/// signature is computed — its own contract therefore carries this
/// conclusion with no assumption about the signature.
pub proof fn lemma_signed_header_round_trip(
    cred: CredentialsView,
    method: Seq<char>,
    url: Seq<char>,
    query: Option<Seq<(Seq<char>, Seq<char>)>>,
    nonce: Seq<char>,
    ts: nat,
)
    requires
        !has_char(cred.consumer_key, '"'),
        !has_char(nonce, '"'),
        !has_char(oauth_signature(cred, method, url, query, nonce, ts), '"'),
        !has_char(cred.access_token, '"'),
    ensures
        parse_header_view(oauth_header(cred, method, url, query, nonce, ts)) == Some(
            OauthHeaderFieldsView {
                consumer_key: cred.consumer_key,
                nonce,
                signature: oauth_signature(cred, method, url, query, nonce, ts),
                timestamp: decimal_of(ts),
                token: cred.access_token,
            },
        ),
{
    crate::text::lemma_decimal_has_no_char(ts, '"');
    lemma_header_round_trip(
        cred.consumer_key,
        nonce,
        oauth_signature(cred, method, url, query, nonce, ts),
        decimal_of(ts),
        cred.access_token,
    );
}

/// The parameter string does not depend on the order in which the query
/// parameters are given: any two arrangements of the same parameters
/// produce the same string.
pub proof fn lemma_parameter_string_permutation(
    cred: CredentialsView,
    nonce: Seq<char>,
    ts: nat,
    q1: Seq<(Seq<char>, Seq<char>)>,
    q2: Seq<(Seq<char>, Seq<char>)>,
)
    requires
        q1.to_multiset() == q2.to_multiset(),
    ensures
        parameter_string(cred, nonce, ts, Some(q1)) == parameter_string(cred, nonce, ts, Some(q2)),
{
    let base = base_param_string(cred, nonce, ts);
    lemma_map_values_multiset(q1, q2, |p: (Seq<char>, Seq<char>)| param_entry(p.0, p.1));
    let e1 = entry_views(q1).push(base);
    let e2 = entry_views(q2).push(base);
    vstd::seq_lib::to_multiset_build(entry_views(q1), base);
    vstd::seq_lib::to_multiset_build(entry_views(q2), base);
    assert(e1.to_multiset() == e2.to_multiset());
    lemma_lex_total_ordering();
    e1.lemma_sort_by_ensures(lex_leq_fn());
    e2.lemma_sort_by_ensures(lex_leq_fn());
    vstd::seq_lib::lemma_sorted_unique(
        e1.sort_by(lex_leq_fn()),
        e2.sort_by(lex_leq_fn()),
        lex_leq_fn(),
    );
    assert(e1.sort_by(lex_leq_fn()) == e2.sort_by(lex_leq_fn()));
}

/// For a fixed credential, method, URL, query, nonce and timestamp the
/// header — the signature field included — is deterministic: any two
/// renderings are equal.
pub proof fn lemma_header_deterministic(
    r1: Seq<char>,
    r2: Seq<char>,
    cred: CredentialsView,
    method: Seq<char>,
    url: Seq<char>,
    query: Option<Seq<(Seq<char>, Seq<char>)>>,
    nonce: Seq<char>,
    ts: nat,
)
    requires
        r1 == oauth_header(cred, method, url, query, nonce, ts),
        r2 == oauth_header(cred, method, url, query, nonce, ts),
    ensures
        r1 == r2,
{
}

} // verus!
