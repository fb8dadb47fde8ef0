//! The Art Mode protocol: where to connect, what to send, and how to read the replies.
//!
//! Sockets, TLS and the clock stay outside; these functions decide every value that goes
//! over the wire and every conclusion drawn from what comes back.
use vstd::prelude::*;
use crate::error::{Error, ErrorCode, ErrorView, plain_error};
use crate::json::{
    push_member, Json, JsonValue, as_boolean, as_text, as_uint, get, items_view, lemma_array_view, members_view,
    set_fields, set_member, text_field, field, lemma_field_at, lemma_set_fields_finds,
    lemma_set_fields_keeps,
};
use crate::calendar::{civil_from_days, days_from_civil, valid_date};
use crate::text::{
    chars_of, chars_start_with, decimal, decimal_string, find_char_from, find_from,
    hex, lemma_find_from_bounds, owned, padded_decimal, padded_hex, padded_signed, push_str,
    signed_padded, slice_chars, starts_with, str_eq,
    string_from_chars, zero_pad,
};

verus! {

broadcast use vstd::string::group_string_axioms;

/// Channel of the Art Mode application on the TV.
pub const ART_APP_ENDPOINT: &'static str = "com.samsung.art-app";

/// The client name announced to the TV: "SamsungArtCli" in base64.
pub const APP_NAME_BASE64: &'static str = "U2Ftc3VuZ0FydENsaQ==";

/// Path and query of the Art Mode channel, up to and including the client name.
pub open spec fn channel_suffix() -> Seq<char> {
    "/api/v2/channels/"@ + ART_APP_ENDPOINT@ + "?name="@ + APP_NAME_BASE64@
}

/// The part of `host` before its first `:` (all of it when there is none), as
/// `host.split(':').next()` gives it.
pub open spec fn host_part(host: Seq<char>) -> Seq<char> {
    host.subrange(0, find_from(host, ':', 0))
}

/// The part of `host` before its first `:`.
pub fn host_without_port(host: &str) -> (r: String)
    ensures
        r@ == host_part(host@),
{
    let cs = chars_of(host);
    let k = find_char_from(&cs, ':', 0);
    proof {
        lemma_find_from_bounds(host@, ':', 0);
    }
    let v = slice_chars(&cs, 0, k);
    string_from_chars(&v)
}

/// Whether `host` holds `c`.
pub open spec fn has_char(host: Seq<char>, c: char) -> bool {
    exists|i: int| 0 <= i < host.len() && host[i] == c
}

/// Decides `has_char`.
pub fn str_has_char(s: &str, c: char) -> (b: bool)
    ensures
        b == has_char(s@, c),
{
    let cs = chars_of(s);
    let k = find_char_from(&cs, c, 0);
    proof {
        lemma_find_from_bounds(s@, c, 0);
    }
    k < cs.len()
}

/// Where to connect for a host given as a bare name or address (with or without a port):
/// the WebSocket URL, whether TLS is used (exactly when a token is given), and the
/// `host:port` to open.
pub open spec fn plain_target(host: Seq<char>, token: Option<Seq<char>>) -> (Seq<char>, bool, Seq<char>) {
    let is_tls = token is Some;
    let port: nat = if is_tls { 8002 } else { 8001 };
    let scheme = if is_tls { "wss"@ } else { "ws"@ };
    let addr = if has_char(host, ':') { host } else { host_part(host) + ":"@ + decimal(port) };
    let base = scheme + "://"@ + addr + channel_suffix();
    let url = match token {
        Some(t) => base + "&token="@ + t,
        None => base,
    };
    (url, is_tls, addr)
}

/// A bare host is reached with TLS on port 8002 exactly when a token is given, and
/// without TLS on port 8001 otherwise; the token rides on the URL.
pub proof fn lemma_port_follows_token(host: Seq<char>, token: Option<Seq<char>>)
    requires
        !has_char(host, ':'),
    ensures
        plain_target(host, token).1 == token is Some,
        plain_target(host, token).2 == host + ":"@ + decimal(if token is Some { 8002 } else { 8001 }),
        plain_target(host, token).0 == (if token is Some { "wss://"@ } else { "ws://"@ }) + plain_target(
            host,
            token,
        ).2 + channel_suffix() + match token {
            Some(t) => "&token="@ + t,
            None => Seq::<char>::empty(),
        },
{
    lemma_find_from_bounds(host, ':', 0);
    assert(find_from(host, ':', 0) == host.len());
    assert(host_part(host) == host);
    reveal_strlit("wss");
    reveal_strlit("ws");
    reveal_strlit("://");
    reveal_strlit("wss://");
    reveal_strlit("ws://");
    let addr = plain_target(host, token).2;
    match token {
        Some(t) => {
            assert("wss"@ + "://"@ + addr + channel_suffix() + "&token="@ + t =~= "wss://"@ + addr
                + channel_suffix() + ("&token="@ + t));
        },
        None => {
            assert("ws"@ + "://"@ + addr + channel_suffix() =~= "ws://"@ + addr + channel_suffix()
                + Seq::<char>::empty());
        },
    }
}

/// A bare host that carries its own port (`host:port`) is connected to exactly as given,
/// with a token or without; the token only decides TLS.
pub proof fn lemma_given_port_kept(host: Seq<char>, token: Option<Seq<char>>)
    requires
        has_char(host, ':'),
    ensures
        plain_target(host, token).2 == host,
        plain_target(host, token).1 == token is Some,
        plain_target(host, token).0 == (if token is Some { "wss"@ } else { "ws"@ }) + "://"@ + host
            + channel_suffix() + match token {
            Some(t) => "&token="@ + t,
            None => Seq::<char>::empty(),
        },
{
    let addr = plain_target(host, token).2;
    match token {
        Some(t) => {
            assert("wss"@ + "://"@ + addr + channel_suffix() + "&token="@ + t =~= "wss"@ + "://"@ + addr
                + channel_suffix() + ("&token="@ + t));
        },
        None => {
            assert("ws"@ + "://"@ + addr + channel_suffix() =~= "ws"@ + "://"@ + addr + channel_suffix()
                + Seq::<char>::empty());
        },
    }
}

/// A `ws://` or `wss://` URL is connected to at its authority's host and port, the port
/// 8002 for `wss://` and 8001 for `ws://` when the URL gives none; TLS is used exactly for
/// `wss://`; the token, when given, ends the URL.
pub proof fn lemma_url_target(host: Seq<char>, token: Option<Seq<char>>, name: Seq<char>, port: Option<u16>)
    ensures
        url_target(host, token, Ok(Some((name, port)))) matches Ok((url, tls, addr)) && tls
            == starts_with(host, "wss://"@) && addr == name + ":"@ + decimal(
            match port {
                Some(p) => p as nat,
                None => if starts_with(host, "wss://"@) { 8002 } else { 8001 },
            },
        ) && url.subrange(0, host.len() as int) == host && (token matches Some(t) ==> url.subrange(
            url.len() - t.len(),
            url.len() as int,
        ) == t && url.subrange(url.len() - t.len() - 7, url.len() - t.len()) == "&token="@),
{
    reveal_strlit("&token=");
    let r = url_target(host, token, Ok(Some((name, port))));
    let url = r->Ok_0.0;
    let q = has_char(host, '?');
    match token {
        Some(t) => {
            let mid = if q { "&name="@ + APP_NAME_BASE64@ } else { channel_suffix() };
            assert(url =~= host + mid + "&token="@ + t) by {
                if q {
                    assert(host + "&name="@ + APP_NAME_BASE64@ + "&token="@ + t =~= host + ("&name="@
                        + APP_NAME_BASE64@) + "&token="@ + t);
                }
            }
            assert(url.subrange(url.len() - t.len(), url.len() as int) =~= t);
            assert(url.subrange(url.len() - t.len() - 7, url.len() - t.len()) =~= "&token="@);
            assert(url.subrange(0, host.len() as int) =~= host);
        },
        None => {
            assert(url.subrange(0, host.len() as int) =~= host);
        },
    }
}

/// What the URI parser of the `http` crate makes of a string: its authority (host and
/// port) when it parses and has one; `Err` with the parser's message when it does not
/// parse. Only the outside parser defines it.
pub uninterp spec fn uri_authority(s: Seq<char>) -> Result<Option<(Seq<char>, Option<u16>)>, Seq<char>>;

/// What parsing a URL gave: the parser's message, no authority, or the authority's host
/// and optional port.
#[derive(Debug)]
pub enum UriAuthority {
    Invalid(String),
    Missing,
    Present(String, Option<u16>),
}

/// The view of a parse outcome, in the shape of `uri_authority`.
pub open spec fn authority_view(a: UriAuthority) -> Result<Option<(Seq<char>, Option<u16>)>, Seq<char>> {
    match a {
        UriAuthority::Invalid(m) => Err(m@),
        UriAuthority::Missing => Ok(None),
        UriAuthority::Present(h, p) => Ok(Some((h@, p))),
    }
}

/// Parses `s` with `http::Uri`'s `FromStr` and reads `authority().host()` and
/// `authority().port_u16()`. The contract ties the outcome to the name `uri_authority`
/// of the input; the URI grammar itself is the parser's.
#[verifier::external_body]
fn parse_uri_authority(s: &str) -> (r: UriAuthority)
    ensures
        authority_view(r) == uri_authority(s@),
{
    match s.parse::<tungstenite::http::Uri>() {
        Err(e) => UriAuthority::Invalid(e.to_string()),
        Ok(u) => match u.authority() {
            None => UriAuthority::Missing,
            Some(a) => UriAuthority::Present(a.host().to_string(), a.port_u16()),
        },
    }
}

/// Where to connect for a host given as a `ws://` or `wss://` URL, from what the URI
/// parser made of it.
pub open spec fn url_target(
    host: Seq<char>,
    token: Option<Seq<char>>,
    auth: Result<Option<(Seq<char>, Option<u16>)>, Seq<char>>,
) -> Result<(Seq<char>, bool, Seq<char>), ErrorView> {
    let is_tls = starts_with(host, "wss://"@);
    match auth {
        Err(m) => Err(
            plain_error(ErrorCode::InvalidInput, "Invalid URL: "@ + host + " ("@ + m + ")"@),
        ),
        Ok(None) => Err(plain_error(ErrorCode::InvalidInput, "Missing host/authority in URL"@)),
        Ok(Some((name, port))) => {
            let p: nat = match port {
                Some(p) => p as nat,
                None => if is_tls { 8002 } else { 8001 },
            };
            let addr = name + ":"@ + decimal(p);
            let q = has_char(host, '?');
            let url = match token {
                Some(t) => if q {
                    host + "&name="@ + APP_NAME_BASE64@ + "&token="@ + t
                } else {
                    host + channel_suffix() + "&token="@ + t
                },
                None => if q {
                    host + "&name="@ + APP_NAME_BASE64@
                } else {
                    host + channel_suffix()
                },
            };
            Ok((url, is_tls, addr))
        },
    }
}

/// Whether the host is given as a WebSocket URL.
pub open spec fn is_ws_url(host: Seq<char>) -> bool {
    starts_with(host, "ws://"@) || starts_with(host, "wss://"@)
}

/// The view of a connection target.
pub open spec fn target_view(r: Result<(String, bool, String), Error>) -> Result<(Seq<char>, bool, Seq<char>), ErrorView> {
    match r {
        Ok((u, t, a)) => Ok((u@, t, a@)),
        Err(e) => Err(e@),
    }
}

/// The view of an optional string slice.
pub open spec fn opt_str(s: Option<&str>) -> Option<Seq<char>> {
    match s {
        Some(t) => Some(t@),
        None => None,
    }
}

fn str_starts_with(s: &str, p: &str) -> (b: bool)
    ensures
        b == starts_with(s@, p@),
{
    let a = chars_of(s);
    let b = chars_of(p);
    chars_start_with(&a, &b)
}

fn channel_suffix_string() -> (r: String)
    ensures
        r@ == channel_suffix(),
{
    let mut r = owned("/api/v2/channels/");
    push_str(&mut r, ART_APP_ENDPOINT);
    push_str(&mut r, "?name=");
    push_str(&mut r, APP_NAME_BASE64);
    r
}

/// Where to connect for a `ws://` or `wss://` URL, given what the URI parser made of it.
pub fn connection_target_from_url(host: &str, token: Option<&str>, auth: UriAuthority) -> (r: Result<(String, bool, String), Error>)
    ensures
        target_view(r) == url_target(host@, opt_str(token), authority_view(auth)),
{
    let is_tls = str_starts_with(host, "wss://");
    match auth {
        UriAuthority::Invalid(m) => {
            let mut msg = owned("Invalid URL: ");
            push_str(&mut msg, host);
            push_str(&mut msg, " (");
            push_str(&mut msg, m.as_str());
            push_str(&mut msg, ")");
            Err(Error::invalid(msg))
        },
        UriAuthority::Missing => Err(Error::invalid(owned("Missing host/authority in URL"))),
        UriAuthority::Present(name, port) => {
            let p: u16 = match port {
                Some(p) => p,
                None => if is_tls { 8002 } else { 8001 },
            };
            let mut addr = name;
            push_str(&mut addr, ":");
            let digits = decimal_string(p as u128);
            push_str(&mut addr, digits.as_str());
            let q = str_has_char(host, '?');
            let mut url = owned(host);
            if q {
                push_str(&mut url, "&name=");
                push_str(&mut url, APP_NAME_BASE64);
            } else {
                let suffix = channel_suffix_string();
                push_str(&mut url, suffix.as_str());
            }
            if let Some(t) = token {
                push_str(&mut url, "&token=");
                push_str(&mut url, t);
            }
            Ok((url, is_tls, addr))
        },
    }
}

/// Where to connect for a host given as a bare name or address.
pub fn connection_target_from_host(host: &str, token: Option<&str>) -> (r: (String, bool, String))
    ensures
        (r.0@, r.1, r.2@) == plain_target(host@, opt_str(token)),
        has_char(host@, ':') ==> r.2@ == host@,
        r.1 == token is Some,
{
    proof {
        if has_char(host@, ':') {
            lemma_given_port_kept(host@, opt_str(token));
        }
    }
    let is_tls = token.is_some();
    let port: u16 = if is_tls { 8002 } else { 8001 };
    let addr = if str_has_char(host, ':') {
        owned(host)
    } else {
        let mut a = host_without_port(host);
        push_str(&mut a, ":");
        let digits = decimal_string(port as u128);
        push_str(&mut a, digits.as_str());
        a
    };
    let mut url = if is_tls { owned("wss") } else { owned("ws") };
    push_str(&mut url, "://");
    push_str(&mut url, addr.as_str());
    let suffix = channel_suffix_string();
    push_str(&mut url, suffix.as_str());
    if let Some(t) = token {
        push_str(&mut url, "&token=");
        push_str(&mut url, t);
    }
    (url, is_tls, addr)
}

/// Where to connect: the WebSocket URL, whether TLS is used, and the `host:port` to open.
/// A `ws://` or `wss://` URL is taken apart by the URI parser; anything else is a host
/// name or address, with an optional port.
pub fn parse_connection_target(host: &str, token: Option<&str>) -> (r: Result<(String, bool, String), Error>)
    ensures
        is_ws_url(host@) ==> target_view(r) == url_target(host@, opt_str(token), uri_authority(host@)),
        !is_ws_url(host@) ==> target_view(r) == Ok::<_, ErrorView>(plain_target(host@, opt_str(token))),
        (!is_ws_url(host@) && has_char(host@, ':')) ==> (r matches Ok((_, tls, a)) && a@ == host@ && tls
            == token is Some),
{
    if str_starts_with(host, "ws://") || str_starts_with(host, "wss://") {
        let auth = parse_uri_authority(host);
        connection_target_from_url(host, token, auth)
    } else {
        Ok(connection_target_from_host(host, token))
    }
}

} // verus!

verus! {

/// An Art Mode request: its name and the extra members of its payload.
#[derive(Debug)]
pub struct ArtRequest {
    pub request: String,
    pub extra: Vec<(String, Json)>,
}

/// The mathematical value of a request.
pub struct ArtRequestView {
    pub request: Seq<char>,
    pub extra: Seq<(Seq<char>, JsonValue)>,
}

impl View for ArtRequest {
    type V = ArtRequestView;

    open spec fn view(&self) -> ArtRequestView {
        ArtRequestView { request: self.request@, extra: members_view(self.extra@) }
    }
}

/// A request view.
pub open spec fn request_view(name: Seq<char>, extra: Seq<(Seq<char>, JsonValue)>) -> ArtRequestView {
    ArtRequestView { request: name, extra }
}

/// A string JSON value.
pub open spec fn jstr(s: Seq<char>) -> JsonValue {
    JsonValue::Str(s)
}

fn request(name: &str, extra: Vec<(String, Json)>) -> (r: ArtRequest)
    ensures
        r@ == request_view(name@, members_view(extra@)),
{
    ArtRequest { request: owned(name), extra }
}

/// The payload members of a slideshow request.
pub open spec fn slideshow_extra(off: bool, interval: Option<u32>, category: Seq<char>, shuffle: bool) -> Seq<(Seq<char>, JsonValue)> {
    if off {
        seq![("value"@, jstr("off"@))]
    } else {
        let minutes: nat = match interval {
            Some(i) => i as nat,
            None => 10,
        };
        seq![
            ("value"@, jstr(decimal(minutes))),
            ("category_id"@, jstr(category)),
            ("type"@, jstr(if shuffle { "shuffleslideshow"@ } else { "slideshow"@ })),
        ]
    }
}

/// A slideshow that is turned on shows the category it is given, and says how often it
/// changes: the interval in minutes, 10 when none is given; a slideshow turned off says
/// only `off`.
pub proof fn lemma_slideshow_members(off: bool, interval: Option<u32>, category: Seq<char>, shuffle: bool)
    ensures
        !off ==> field(slideshow_extra(off, interval, category, shuffle), "category_id"@) == Some(
            JsonValue::Str(category),
        ),
        !off ==> field(slideshow_extra(off, interval, category, shuffle), "value"@) == Some(
            JsonValue::Str(
                decimal(
                    match interval {
                        Some(i) => i as nat,
                        None => 10,
                    },
                ),
            ),
        ),
        !off ==> field(slideshow_extra(off, interval, category, shuffle), "type"@) == Some(
            JsonValue::Str(if shuffle { "shuffleslideshow"@ } else { "slideshow"@ }),
        ),
        off ==> slideshow_extra(off, interval, category, shuffle) == seq![("value"@, JsonValue::Str("off"@))],
{
    reveal_strlit("type");
    if !off {
        let x = slideshow_extra(off, interval, category, shuffle);
        reveal_strlit("value");
        reveal_strlit("category_id");
        assert(x[0].0 != x[2].0) by { assert(x[0].0[0] != x[2].0[0]); }
        assert(x[1].0 != x[2].0) by { assert(x[1].0[0] != x[2].0[0]); }
        lemma_field_at(x, 2);
    }
    reveal_strlit("value");
    reveal_strlit("category_id");
    if !off {
        let m = slideshow_extra(off, interval, category, shuffle);
        assert(m[0].0 != "category_id"@) by {
            assert(m[0].0[0] != "category_id"@[0]);
        }
        let m1 = m.drop_first();
        assert(m1[0] == m[1]);
        assert(field(m1, "category_id"@) == Some(m[1].1));
        assert(field(m, "category_id"@) == Some(m[1].1));
        assert(field(m, "value"@) == Some(m[0].1));
    }
}

impl ArtRequest {
    /// Asks whether Art Mode is on.
    pub fn get_artmode_status() -> (r: ArtRequest)
        ensures
            r@ == request_view("get_artmode_status"@, seq![]),
    {
        let r = request("get_artmode_status", Vec::new());
        assert(r@.extra =~= seq![]);
        r
    }

    /// Lists the artwork, of one category when one is given.
    pub fn get_content_list(category: Option<&str>) -> (r: ArtRequest)
        ensures
            r@ == request_view(
                "get_content_list"@,
                match category {
                    Some(c) => seq![("category"@, jstr(c@))],
                    None => seq![],
                },
            ),
    {
        let mut extra: Vec<(String, Json)> = Vec::new();
        assert(members_view(extra@) =~= seq![]);
        if let Some(c) = category {
            push_member(&mut extra, "category", Json::text(c));
        }
        request("get_content_list", extra)
    }

    /// Asks which artwork is shown.
    pub fn get_current_artwork() -> (r: ArtRequest)
        ensures
            r@ == request_view("get_current_artwork"@, seq![]),
    {
        let r = request("get_current_artwork", Vec::new());
        assert(r@.extra =~= seq![]);
        r
    }

    /// Selects an artwork, showing it at once when `show` is set.
    pub fn select_image(content_id: &str, show: bool) -> (r: ArtRequest)
        ensures
            r@ == request_view(
                "select_image"@,
                seq![("content_id"@, jstr(content_id@)), ("show"@, JsonValue::Bool(show))],
            ),
    {
        let mut extra: Vec<(String, Json)> = Vec::new();
        assert(members_view(extra@) =~= seq![]);
        push_member(&mut extra, "content_id", Json::text(content_id));
        push_member(&mut extra, "show", Json::Bool(show));
        assert(members_view(extra@) =~= seq![("content_id"@, jstr(content_id@)), ("show"@, JsonValue::Bool(show))]);
        request("select_image", extra)
    }

    /// Deletes one artwork.
    pub fn delete_image_list(content_id: &str) -> (r: ArtRequest)
        ensures
            r@ == request_view(
                "delete_image_list"@,
                seq![
                    (
                        "content_id_list"@,
                        JsonValue::Array(
                            seq![JsonValue::Object(seq![("content_id"@, jstr(content_id@))])],
                        ),
                    ),
                ],
            ),
    {
        let mut inner: Vec<(String, Json)> = Vec::new();
        assert(members_view(inner@) =~= seq![]);
        push_member(&mut inner, "content_id", Json::text(content_id));
        let obj = Json::object(inner);
        let mut items: Vec<Json> = Vec::new();
        items.push(obj);
        let list = Json::Array(items);
        proof {
            lemma_array_view(items);
            assert(items_view(items@) =~= seq![obj@]);
        }
        let mut extra: Vec<(String, Json)> = Vec::new();
        assert(members_view(extra@) =~= seq![]);
        push_member(&mut extra, "content_id_list", list);
        request("delete_image_list", extra)
    }

    /// Adds an artwork to the favorites, or takes it out when `remove` is set.
    pub fn change_favorite(content_id: &str, remove: bool) -> (r: ArtRequest)
        ensures
            r@ == request_view(
                "change_favorite"@,
                seq![
                    ("content_id"@, jstr(content_id@)),
                    ("status"@, jstr(if remove { "off"@ } else { "on"@ })),
                ],
            ),
    {
        let mut extra: Vec<(String, Json)> = Vec::new();
        assert(members_view(extra@) =~= seq![]);
        push_member(&mut extra, "content_id", Json::text(content_id));
        push_member(&mut extra, "status", Json::text(if remove { "off" } else { "on" }));
        assert(members_view(extra@) =~= seq![
            ("content_id"@, jstr(content_id@)),
            ("status"@, jstr(if remove { "off"@ } else { "on"@ })),
        ]);
        request("change_favorite", extra)
    }

    /// Asks for the brightness.
    pub fn get_brightness() -> (r: ArtRequest)
        ensures
            r@ == request_view("get_brightness"@, seq![]),
    {
        let r = request("get_brightness", Vec::new());
        assert(r@.extra =~= seq![]);
        r
    }

    /// Sets the brightness.
    pub fn set_brightness(value: u8) -> (r: ArtRequest)
        ensures
            r@ == request_view("set_brightness"@, seq![("value"@, JsonValue::UInt(value as u64))]),
    {
        let mut extra: Vec<(String, Json)> = Vec::new();
        assert(members_view(extra@) =~= seq![]);
        push_member(&mut extra, "value", Json::UInt(value as u64));
        request("set_brightness", extra)
    }

    /// Lists the available mattes.
    pub fn get_matte_list() -> (r: ArtRequest)
        ensures
            r@ == request_view("get_matte_list"@, seq![]),
    {
        let r = request("get_matte_list", Vec::new());
        assert(r@.extra =~= seq![]);
        r
    }

    /// Puts a matte around an artwork (none in portrait orientation).
    pub fn change_matte(content_id: &str, matte_id: &str) -> (r: ArtRequest)
        ensures
            r@ == request_view(
                "change_matte"@,
                seq![
                    ("content_id"@, jstr(content_id@)),
                    ("matte_id"@, jstr(matte_id@)),
                    ("portrait_matte_id"@, jstr("none"@)),
                ],
            ),
    {
        let mut extra: Vec<(String, Json)> = Vec::new();
        assert(members_view(extra@) =~= seq![]);
        push_member(&mut extra, "content_id", Json::text(content_id));
        push_member(&mut extra, "matte_id", Json::text(matte_id));
        push_member(&mut extra, "portrait_matte_id", Json::text("none"));
        assert(members_view(extra@) =~= seq![
            ("content_id"@, jstr(content_id@)),
            ("matte_id"@, jstr(matte_id@)),
            ("portrait_matte_id"@, jstr("none"@)),
        ]);
        request("change_matte", extra)
    }

    /// Turns the slideshow off, or on with an interval in minutes (10 when none is given),
    /// a category and an order.
    pub fn set_slideshow(off: bool, interval: Option<u32>, category: &str, shuffle: bool) -> (r: ArtRequest)
        ensures
            r@ == request_view("set_slideshow_status"@, slideshow_extra(off, interval, category@, shuffle)),
            !off ==> field(r@.extra, "category_id"@) == Some(JsonValue::Str(category@)),
    {
        proof {
            lemma_slideshow_members(off, interval, category@, shuffle);
        }
        let mut extra: Vec<(String, Json)> = Vec::new();
        assert(members_view(extra@) =~= seq![]);
        if off {
            push_member(&mut extra, "value", Json::text("off"));
            assert(members_view(extra@) =~= seq![("value"@, jstr("off"@))]);
        } else {
            let iv: u32 = match interval {
                Some(i) => i,
                None => 10,
            };
            let digits = decimal_string(iv as u128);
            assert(iv as nat == match interval {
                Some(i) => i as nat,
                None => 10nat,
            });
            assert(Json::Str(digits)@ == jstr(decimal(iv as nat)));
            push_member(&mut extra, "value", Json::Str(digits));
            push_member(&mut extra, "category_id", Json::text(category));
            push_member(
                &mut extra,
                "type",
                Json::text(if shuffle { "shuffleslideshow" } else { "slideshow" }),
            );
            assert(members_view(extra@) =~= seq![
                ("value"@, jstr(decimal(iv as nat))),
                ("category_id"@, jstr(category@)),
                ("type"@, jstr(if shuffle { "shuffleslideshow"@ } else { "slideshow"@ })),
            ]);
        }
        assert(members_view(extra@) == slideshow_extra(off, interval, category@, shuffle));
        request("set_slideshow_status", extra)
    }
}

} // verus!

verus! {

/// The payload of a request: its name and id, then its extra members set in turn.
pub open spec fn payload_members(request: Seq<char>, id: Seq<char>, extra: Seq<(Seq<char>, JsonValue)>) -> Seq<(Seq<char>, JsonValue)> {
    set_fields(seq![("request"@, jstr(request)), ("id"@, jstr(id))], extra)
}

/// The payload of a request names the request and carries the id it is sent with, and
/// every extra member as given (the extra members' keys being distinct, and neither
/// `request` nor `id`).
pub proof fn lemma_payload_fields(request: Seq<char>, id: Seq<char>, extra: Seq<(Seq<char>, JsonValue)>)
    requires
        forall|a: int, b: int| 0 <= a < b < extra.len() ==> #[trigger] extra[a].0 != #[trigger] extra[b].0,
        forall|j: int| 0 <= j < extra.len() ==> #[trigger] extra[j].0 != "request"@ && extra[j].0 != "id"@,
    ensures
        field(payload_members(request, id, extra), "request"@) == Some(JsonValue::Str(request)),
        field(payload_members(request, id, extra), "id"@) == Some(JsonValue::Str(id)),
        forall|i: int| 0 <= i < extra.len() ==> field(payload_members(request, id, extra), #[trigger] extra[i].0)
            == Some(extra[i].1),
{
    reveal_strlit("request");
    reveal_strlit("id");
    let base = seq![("request"@, jstr(request)), ("id"@, jstr(id))];
    lemma_set_fields_keeps(base, extra, "request"@);
    lemma_set_fields_keeps(base, extra, "id"@);
    assert(base[0].0 != base[1].0) by { assert(base[0].0[0] != base[1].0[0]); }
    lemma_field_at(base, 0);
    lemma_field_at(base, 1);
    assert forall|i: int| 0 <= i < extra.len() implies field(payload_members(request, id, extra), #[trigger] extra[i].0)
        == Some(extra[i].1) by {
        lemma_set_fields_finds(base, extra, i);
    }
}

/// The payload sent for a request with the given id.
pub fn art_request_payload(req: ArtRequest, id: String) -> (r: Json)
    ensures
        r@ == JsonValue::Object(payload_members(req@.request, id@, req@.extra)),
{
    let ghost extra = req@.extra;
    let ghost rq = req@.request;
    let ghost idv = id@;
    let mut members: Vec<(String, Json)> = Vec::new();
    members.push((owned("request"), Json::Str(req.request)));
    members.push((owned("id"), Json::Str(id)));
    let ghost base = seq![("request"@, jstr(rq)), ("id"@, jstr(idv))];
    assert(members_view(members@) =~= base);
    assert(extra.skip(0) == extra);
    let ghost exec_extra = req.extra@;
    for kv in it: req.extra
        invariant
            it.seq() == exec_extra,
            extra == members_view(exec_extra),
            set_fields(base, extra) == set_fields(members_view(members@), extra.skip(it.index())),
    {
        let ghost i = it.index();
        let ghost rest = extra.skip(i);
        assert(rest.drop_first() == extra.skip(i + 1));
        assert(rest[0] == (kv.0@, kv.1@));
        let (k, v) = kv;
        set_member(&mut members, k, v);
    }
    Json::object(members)
}

/// The envelope in which a payload (given as JSON text) goes to the Art Mode application.
pub open spec fn envelope_view(data: Seq<char>) -> JsonValue {
    JsonValue::Object(
        seq![
            ("method"@, jstr("ms.channel.emit"@)),
            (
                "params"@,
                JsonValue::Object(
                    seq![
                        ("event"@, jstr("art_app_request"@)),
                        ("to"@, jstr("host"@)),
                        ("data"@, jstr(data)),
                    ],
                ),
            ),
        ],
    )
}

/// The envelope is a channel emit to the host, for the Art Mode application, whose data is
/// exactly the payload text it was given.
pub proof fn lemma_envelope_fields(data: Seq<char>)
    ensures
        get(envelope_view(data), "method"@) == Some(JsonValue::Str("ms.channel.emit"@)),
        get(envelope_view(data), "params"@) matches Some(p) && get(p, "data"@) == Some(JsonValue::Str(data))
            && get(p, "event"@) == Some(JsonValue::Str("art_app_request"@)) && get(p, "to"@) == Some(
            JsonValue::Str("host"@),
        ),
{
    reveal_strlit("method");
    reveal_strlit("params");
    reveal_strlit("event");
    reveal_strlit("to");
    reveal_strlit("data");
    let top = envelope_view(data)->Object_0;
    assert(top[0].0 != top[1].0) by { assert(top[0].0[0] != top[1].0[0]); }
    lemma_field_at(top, 0);
    lemma_field_at(top, 1);
    let p = top[1].1->Object_0;
    assert(p[0].0 != p[1].0) by { assert(p[0].0[0] != p[1].0[0]); }
    assert(p[0].0 != p[2].0) by { assert(p[0].0[0] != p[2].0[0]); }
    assert(p[1].0 != p[2].0) by { assert(p[1].0[0] != p[2].0[0]); }
    lemma_field_at(p, 0);
    lemma_field_at(p, 1);
    lemma_field_at(p, 2);
}

/// The envelope in which a payload, given as JSON text, goes to the Art Mode application.
pub fn envelope(data: String) -> (r: Json)
    ensures
        r@ == envelope_view(data@),
{
    let mut params: Vec<(String, Json)> = Vec::new();
    assert(members_view(params@) =~= seq![]);
    push_member(&mut params, "event", Json::text("art_app_request"));
    push_member(&mut params, "to", Json::text("host"));
    push_member(&mut params, "data", Json::Str(data));
    assert(members_view(params@) =~= seq![
        ("event"@, jstr("art_app_request"@)),
        ("to"@, jstr("host"@)),
        ("data"@, jstr(data@)),
    ]);
    let p = Json::object(params);
    let mut top: Vec<(String, Json)> = Vec::new();
    assert(members_view(top@) =~= seq![]);
    push_member(&mut top, "method", Json::text("ms.channel.emit"));
    push_member(&mut top, "params", p);
    assert(members_view(top@) =~= envelope_view(data@)->Object_0);
    Json::object(top)
}

} // verus!

verus! {

/// What the `data` member of a message from the TV holds: nothing, JSON text still to be
/// parsed, or a JSON value.
#[derive(Debug)]
pub enum DataField {
    Absent,
    Text(String),
    Value(Json),
}

/// Splits off the `data` member of a message from the TV. A string member is JSON text
/// that is parsed next (a failed parse counts as no data); any other value is the data.
pub fn extract_data(root: Json) -> (r: DataField)
    ensures
        match get(root@, "data"@) {
            None => r is Absent,
            Some(JsonValue::Str(t)) => r matches DataField::Text(s) && s@ == t,
            Some(v) => r matches DataField::Value(d) && d@ == v,
        },
{
    match root.take("data") {
        None => DataField::Absent,
        Some(Json::Str(s)) => DataField::Text(s),
        Some(v) => DataField::Value(v),
    }
}

/// Whether `data` answers `request`: its `request` or its `event` member is that name.
pub open spec fn answers(data: JsonValue, request: Seq<char>) -> bool {
    text_field(data, "request"@) == Some(request) || text_field(data, "event"@) == Some(request)
}

fn opt_text_is(t: Option<&str>, s: &str) -> (b: bool)
    ensures
        b == (opt_str(t) == Some(s@)),
{
    match t {
        Some(x) => str_eq(x, s),
        None => false,
    }
}

/// Whether the data of a message is the reply to `request`.
pub fn response_matches(request: &str, data: &Json) -> (b: bool)
    ensures
        b == answers(data@, request@),
{
    opt_text_is(data.get_text("request"), request) || opt_text_is(data.get_text("event"), request)
}

/// The connection information of a `ready_to_use` message, which says where the image
/// bytes go.
pub open spec fn ready_conn_info(data: JsonValue) -> Option<JsonValue> {
    if answers(data, "ready_to_use"@) {
        get(data, "conn_info"@)
    } else {
        None
    }
}

/// The connection information when the data is the `ready_to_use` signal that carries it.
pub fn upload_ready_info(data: Json) -> (r: Option<Json>)
    ensures
        match ready_conn_info(data@) {
            None => r is None,
            Some(v) => r matches Some(c) && c@ == v,
        },
{
    if response_matches("ready_to_use", &data) {
        data.take("conn_info")
    } else {
        None
    }
}

/// The content id of an `image_added` message, which confirms an upload.
pub open spec fn added_content_id(data: JsonValue) -> Option<Seq<char>> {
    if answers(data, "image_added"@) {
        text_field(data, "content_id"@)
    } else {
        None
    }
}

/// The content id when the data confirms an uploaded image.
pub fn image_added_id(data: &Json) -> (r: Option<String>)
    ensures
        r matches Some(s) ==> added_content_id(data@) == Some(s@),
        r is None ==> added_content_id(data@) is None,
{
    if response_matches("image_added", data) {
        match data.get_text("content_id") {
            Some(s) => Some(owned(s)),
            None => None,
        }
    } else {
        None
    }
}

/// The token the TV hands out when pairing: member `token` of member `data`.
pub open spec fn token_of(root: JsonValue) -> Option<Seq<char>> {
    match get(root, "data"@) {
        Some(d) => text_field(d, "token"@),
        None => None,
    }
}

/// The pairing token in a message, if it holds one.
pub fn pairing_token(root: &Json) -> (r: Option<String>)
    ensures
        r matches Some(s) ==> token_of(root@) == Some(s@),
        r is None ==> token_of(root@) is None,
{
    match root.get("data") {
        Some(d) => match d.get_text("token") {
            Some(t) => Some(owned(t)),
            None => None,
        },
        None => None,
    }
}

/// Where and how the image bytes are sent.
#[derive(Debug)]
pub struct UploadTarget {
    pub ip: String,
    pub port: u16,
    pub secured: bool,
    pub sec_key: String,
}

/// The key member of connection information: `key`, or `secKey` when there is no `key`.
pub open spec fn key_member(info: JsonValue) -> Option<JsonValue> {
    match get(info, "key"@) {
        Some(k) => Some(k),
        None => get(info, "secKey"@),
    }
}

/// The upload target that connection information describes: `ip` (a string) and `port`
/// (a non-negative integer, taken modulo 2^16) are required; `secured` defaults to false
/// and the key to the empty string.
pub open spec fn upload_target_of(info: JsonValue) -> Result<(Seq<char>, u16, bool, Seq<char>), ErrorView> {
    match text_field(info, "ip"@) {
        None => Err(plain_error(ErrorCode::Network, "Missing 'ip' in ready_to_use connection info"@)),
        Some(ip) => match match get(info, "port"@) {
            Some(p) => as_uint(p),
            None => None,
        } {
            None => Err(
                plain_error(ErrorCode::Network, "Missing 'port' in ready_to_use connection info"@),
            ),
            Some(port) => {
                let secured = match get(info, "secured"@) {
                    Some(s) => match as_boolean(s) {
                        Some(b) => b,
                        None => false,
                    },
                    None => false,
                };
                let key = match key_member(info) {
                    Some(k) => match as_text(k) {
                        Some(t) => t,
                        None => Seq::empty(),
                    },
                    None => Seq::empty(),
                };
                Ok((ip, (port % 65536) as u16, secured, key))
            },
        },
    }
}

/// Where the image bytes go is what the connection information says: its `ip`, its
/// `port` (modulo 2^16), TLS exactly when `secured` is true, and its key (`key`, else
/// `secKey`, else empty); without an `ip` string or a `port` number there is no target.
pub proof fn lemma_upload_target_fields(info: JsonValue)
    ensures
        upload_target_of(info) is Ok <==> (text_field(info, "ip"@) is Some && get(info, "port"@) is Some
            && as_uint(get(info, "port"@)->Some_0) is Some),
        upload_target_of(info) matches Ok((ip, port, secured, key)) ==> (get(info, "ip"@) == Some(
            JsonValue::Str(ip),
        ) && port == as_uint(get(info, "port"@)->Some_0)->Some_0 % 65536 && secured == (get(
            info,
            "secured"@,
        ) == Some(JsonValue::Bool(true))) && (get(info, "key"@) is Some && as_text(get(info, "key"@)->Some_0)
            is Some ==> key == as_text(get(info, "key"@)->Some_0)->Some_0) && (get(info, "key"@) is None
            && get(info, "secKey"@) is Some && as_text(get(info, "secKey"@)->Some_0) is Some ==> key
            == as_text(get(info, "secKey"@)->Some_0)->Some_0)),
{
}

/// The view of an upload target outcome.
pub open spec fn upload_target_view(r: Result<UploadTarget, Error>) -> Result<(Seq<char>, u16, bool, Seq<char>), ErrorView> {
    match r {
        Ok(t) => Ok((t.ip@, t.port, t.secured, t.sec_key@)),
        Err(e) => Err(e@),
    }
}

/// Reads the upload target out of `ready_to_use` connection information.
pub fn upload_target(info: &Json) -> (r: Result<UploadTarget, Error>)
    ensures
        upload_target_view(r) == upload_target_of(info@),
{
    let ip = match info.get_text("ip") {
        Some(ip) => owned(ip),
        None => {
            return Err(Error::network(owned("Missing 'ip' in ready_to_use connection info")));
        },
    };
    let port = match info.get("port") {
        Some(p) => p.as_u64(),
        None => None,
    };
    let port = match port {
        Some(p) => p,
        None => {
            return Err(Error::network(owned("Missing 'port' in ready_to_use connection info")));
        },
    };
    let secured = match info.get("secured") {
        Some(s) => match s.as_bool() {
            Some(b) => b,
            None => false,
        },
        None => false,
    };
    let key_val = match info.get("key") {
        Some(k) => Some(k),
        None => info.get("secKey"),
    };
    let sec_key = match key_val {
        Some(k) => match k.as_str() {
            Some(t) => owned(t),
            None => String::new(),
        },
        None => String::new(),
    };
    Ok(UploadTarget { ip, port: (port % 65536) as u16, secured, sec_key })
}

/// The kinds of WebSocket frames.
#[derive(Clone, Copy, Debug, PartialEq, Eq, Structural)]
pub enum FrameKind {
    Text,
    Binary,
    Ping,
    Pong,
    Close,
    Raw,
}

/// What to do with a received frame.
#[derive(Debug)]
pub enum FrameStep {
    /// Hand its payload on as text.
    Deliver,
    /// Answer with a pong carrying the same payload, then read on.
    AnswerPing,
    /// Read on.
    Skip,
    /// Stop with this error.
    Fail(Error),
}

/// What to do with a received frame: text and binary frames carry messages, a ping is
/// answered, a close ends the exchange with a network error, anything else is skipped.
pub fn frame_step(kind: FrameKind) -> (r: FrameStep)
    ensures
        match kind {
            FrameKind::Text | FrameKind::Binary => r is Deliver,
            FrameKind::Ping => r is AnswerPing,
            FrameKind::Pong | FrameKind::Raw => r is Skip,
            FrameKind::Close => r matches FrameStep::Fail(e) && e@ == plain_error(
                ErrorCode::Network,
                "WebSocket connection closed by TV."@,
            ),
        },
{
    match kind {
        FrameKind::Text | FrameKind::Binary => FrameStep::Deliver,
        FrameKind::Ping => FrameStep::AnswerPing,
        FrameKind::Pong | FrameKind::Raw => FrameStep::Skip,
        FrameKind::Close => FrameStep::Fail(Error::network(owned("WebSocket connection closed by TV."))),
    }
}

} // verus!

verus! {

/// The file type the TV is told for an image file extension (compared in lower case), or
/// the error for an unsupported one.
pub open spec fn file_type_of(ext: Seq<char>) -> Result<Seq<char>, ErrorView> {
    let e = crate::text::lowercase(ext);
    if e == "jpg"@ || e == "jpeg"@ {
        Ok("jpeg"@)
    } else if e == "png"@ {
        Ok("png"@)
    } else {
        Err(
            plain_error(
                ErrorCode::InvalidInput,
                "Unsupported image format: '"@ + e + "'. Supported formats are PNG and JPEG."@,
            ),
        )
    }
}

/// The file type the TV is told for an image with the given file extension.
pub fn upload_file_type(ext: &str) -> (r: Result<&'static str, Error>)
    ensures
        match r {
            Ok(t) => file_type_of(ext@) == Ok::<_, ErrorView>(t@),
            Err(e) => file_type_of(ext@) == Err::<Seq<char>, _>(e@),
        },
{
    let e = crate::text::to_lowercase(ext);
    if str_eq(e.as_str(), "jpg") || str_eq(e.as_str(), "jpeg") {
        Ok("jpeg")
    } else if str_eq(e.as_str(), "png") {
        Ok("png")
    } else {
        let mut msg = owned("Unsupported image format: '");
        push_str(&mut msg, e.as_str());
        push_str(&mut msg, "'. Supported formats are PNG and JPEG.");
        Err(Error::invalid(msg))
    }
}

/// The connection id announced for an upload: from the milliseconds since the Unix epoch
/// (taken modulo 2^32), a number from 100000 to 999999; 123456 when the clock is before
/// the epoch.
pub open spec fn connection_id_of(millis: Option<u128>) -> u32 {
    match millis {
        Some(m) => ((m % 0x1_0000_0000) % 900_000 + 100_000) as u32,
        None => 123456,
    }
}

/// The connection id announced for an upload.
pub fn connection_id(millis: Option<u128>) -> (r: u32)
    ensures
        r == connection_id_of(millis),
        100_000 <= r <= 999_999,
{
    match millis {
        Some(m) => {
            let low = (m % 0x1_0000_0000) as u32;
            low % 900_000 + 100_000
        },
        None => 123456,
    }
}

/// The members of the `send_image` payload that announces an upload.
pub open spec fn send_image_members(
    file_type: Seq<char>,
    file_size: u64,
    id: Seq<char>,
    request_id: Seq<char>,
    matte_id: Option<Seq<char>>,
    image_date: Seq<char>,
    conn_id: u32,
    conn_info_id: Seq<char>,
) -> Seq<(Seq<char>, JsonValue)> {
    seq![
        ("request"@, jstr("send_image"@)),
        ("file_type"@, jstr(file_type)),
        ("file_size"@, JsonValue::UInt(file_size)),
        ("id"@, jstr(id)),
        ("request_id"@, jstr(request_id)),
        (
            "matte_id"@,
            jstr(
                match matte_id {
                    Some(m) => m,
                    None => "none"@,
                },
            ),
        ),
        ("portrait_matte_id"@, jstr("none"@)),
        ("image_date"@, jstr(image_date)),
        (
            "conn_info"@,
            JsonValue::Object(
                seq![
                    ("d2d_mode"@, jstr("socket"@)),
                    ("connection_id"@, JsonValue::UInt(conn_id as u64)),
                    ("id"@, jstr(conn_info_id)),
                ],
            ),
        ),
    ]
}

/// The matte an upload announces is the matte given to it; only an upload without one
/// announces `none`.
pub proof fn lemma_send_image_matte(
    file_type: Seq<char>,
    file_size: u64,
    id: Seq<char>,
    request_id: Seq<char>,
    matte_id: Option<Seq<char>>,
    image_date: Seq<char>,
    conn_id: u32,
    conn_info_id: Seq<char>,
)
    ensures
        ({
            let payload = JsonValue::Object(
                send_image_members(file_type, file_size, id, request_id, matte_id, image_date, conn_id, conn_info_id),
            );
            &&& matte_id matches Some(m) ==> get(payload, "matte_id"@) == Some(JsonValue::Str(m))
            &&& matte_id is None ==> get(payload, "matte_id"@) == Some(JsonValue::Str("none"@))
            &&& get(payload, "request"@) == Some(JsonValue::Str("send_image"@))
            &&& get(payload, "file_type"@) == Some(JsonValue::Str(file_type))
            &&& get(payload, "file_size"@) == Some(JsonValue::UInt(file_size))
            &&& get(payload, "request_id"@) == Some(JsonValue::Str(request_id))
            &&& get(payload, "image_date"@) == Some(JsonValue::Str(image_date))
            &&& get(payload, "conn_info"@) matches Some(info) && get(info, "connection_id"@) == Some(
                JsonValue::UInt(conn_id as u64),
            )
        }),
{
    reveal_strlit("portrait_matte_id");
    reveal_strlit("image_date");
    reveal_strlit("conn_info");
    reveal_strlit("d2d_mode");
    reveal_strlit("connection_id");
    let p = send_image_members(file_type, file_size, id, request_id, matte_id, image_date, conn_id, conn_info_id);
    reveal_strlit("request");
    reveal_strlit("file_type");
    reveal_strlit("file_size");
    reveal_strlit("id");
    reveal_strlit("request_id");
    reveal_strlit("matte_id");
    lemma_field_at(p, 0);
    assert(p[0].0 != p[1].0) by { assert(p[0].0[0] != p[1].0[0]); }
    lemma_field_at(p, 1);
    assert(p[0].0 != p[2].0) by { assert(p[0].0[0] != p[2].0[0]); }
    assert(p[1].0 != p[2].0) by { assert(p[1].0[5] != p[2].0[5]); }
    lemma_field_at(p, 2);
    assert(p[0].0 != p[4].0) by { assert(p[0].0.len() != p[4].0.len()); }
    assert(p[1].0 != p[4].0) by { assert(p[1].0[0] != p[4].0[0]); }
    assert(p[2].0 != p[4].0) by { assert(p[2].0[0] != p[4].0[0]); }
    assert(p[3].0 != p[4].0) by { assert(p[3].0[0] != p[4].0[0]); }
    lemma_field_at(p, 4);
    assert(p[0].0 != p[7].0) by { assert(p[0].0[0] != p[7].0[0]); }
    assert(p[1].0 != p[7].0) by { assert(p[1].0[0] != p[7].0[0]); }
    assert(p[2].0 != p[7].0) by { assert(p[2].0[0] != p[7].0[0]); }
    assert(p[3].0 != p[7].0) by { assert(p[3].0[1] != p[7].0[1]); }
    assert(p[4].0 != p[7].0) by { assert(p[4].0[0] != p[7].0[0]); }
    assert(p[5].0 != p[7].0) by { assert(p[5].0[0] != p[7].0[0]); }
    assert(p[6].0 != p[7].0) by { assert(p[6].0[0] != p[7].0[0]); }
    lemma_field_at(p, 7);
    assert(p[0].0 != p[8].0) by { assert(p[0].0[0] != p[8].0[0]); }
    assert(p[1].0 != p[8].0) by { assert(p[1].0[0] != p[8].0[0]); }
    assert(p[2].0 != p[8].0) by { assert(p[2].0[0] != p[8].0[0]); }
    assert(p[3].0 != p[8].0) by { assert(p[3].0[0] != p[8].0[0]); }
    assert(p[4].0 != p[8].0) by { assert(p[4].0[0] != p[8].0[0]); }
    assert(p[5].0 != p[8].0) by { assert(p[5].0[0] != p[8].0[0]); }
    assert(p[6].0 != p[8].0) by { assert(p[6].0[0] != p[8].0[0]); }
    assert(p[7].0 != p[8].0) by { assert(p[7].0[0] != p[8].0[0]); }
    lemma_field_at(p, 8);
    let info = p[8].1->Object_0;
    assert(info[0].0 != info[1].0) by { assert(info[0].0[0] != info[1].0[0]); }
    lemma_field_at(info, 1);
    reveal_strlit("matte_id");
    reveal_strlit("request");
    reveal_strlit("file_type");
    reveal_strlit("file_size");
    reveal_strlit("id");
    reveal_strlit("request_id");
    let m = send_image_members(file_type, file_size, id, request_id, matte_id, image_date, conn_id, conn_info_id);
    assert(m[0].0 != "matte_id"@) by {
        assert(m[0].0[0] != "matte_id"@[0]);
    }
    assert(m[1].0 != "matte_id"@) by {
        assert(m[1].0[0] != "matte_id"@[0]);
    }
    assert(m[2].0 != "matte_id"@) by {
        assert(m[2].0[0] != "matte_id"@[0]);
    }
    assert(m[3].0 != "matte_id"@) by {
        assert(m[3].0[0] != "matte_id"@[0]);
    }
    assert(m[4].0 != "matte_id"@) by {
        assert(m[4].0[0] != "matte_id"@[0]);
    }
    let m1 = m.drop_first();
    let m2 = m1.drop_first();
    let m3 = m2.drop_first();
    let m4 = m3.drop_first();
    let m5 = m4.drop_first();
    assert(m5[0] == m[5]);
    assert(field(m5, "matte_id"@) == Some(m[5].1));
    assert(m4[0] == m[4]);
    assert(field(m4, "matte_id"@) == Some(m[5].1));
    assert(m3[0] == m[3]);
    assert(field(m3, "matte_id"@) == Some(m[5].1));
    assert(m2[0] == m[2]);
    assert(field(m2, "matte_id"@) == Some(m[5].1));
    assert(m1[0] == m[1]);
    assert(field(m1, "matte_id"@) == Some(m[5].1));
    assert(field(m, "matte_id"@) == Some(m[5].1));
}

/// The `send_image` payload that announces an upload (no matte when none is given).
pub fn send_image_payload(
    file_type: &str,
    file_size: u64,
    id: String,
    request_id: String,
    matte_id: Option<&str>,
    image_date: String,
    conn_id: u32,
    conn_info_id: String,
) -> (r: Json)
    ensures
        r@ == JsonValue::Object(
            send_image_members(
                file_type@,
                file_size,
                id@,
                request_id@,
                opt_str(matte_id),
                image_date@,
                conn_id,
                conn_info_id@,
            ),
        ),
        get(r@, "matte_id"@) == Some(
            JsonValue::Str(
                match matte_id {
                    Some(m) => m@,
                    None => "none"@,
                },
            ),
        ),
{
    proof {
        lemma_send_image_matte(
            file_type@,
            file_size,
            id@,
            request_id@,
            opt_str(matte_id),
            image_date@,
            conn_id,
            conn_info_id@,
        );
    }
    let ghost info_id = conn_info_id@;
    let mut info: Vec<(String, Json)> = Vec::new();
    assert(members_view(info@) =~= seq![]);
    push_member(&mut info, "d2d_mode", Json::text("socket"));
    push_member(&mut info, "connection_id", Json::UInt(conn_id as u64));
    push_member(&mut info, "id", Json::Str(conn_info_id));
    assert(members_view(info@) =~= seq![
        ("d2d_mode"@, jstr("socket"@)),
        ("connection_id"@, JsonValue::UInt(conn_id as u64)),
        ("id"@, jstr(info_id)),
    ]);
    let info = Json::object(info);
    let ghost idv = id@;
    let ghost ridv = request_id@;
    let ghost datev = image_date@;
    let mut m: Vec<(String, Json)> = Vec::new();
    assert(members_view(m@) =~= seq![]);
    push_member(&mut m, "request", Json::text("send_image"));
    push_member(&mut m, "file_type", Json::text(file_type));
    push_member(&mut m, "file_size", Json::UInt(file_size));
    push_member(&mut m, "id", Json::Str(id));
    push_member(&mut m, "request_id", Json::Str(request_id));
    push_member(
        &mut m,
        "matte_id",
        Json::text(
            match matte_id {
                Some(x) => x,
                None => "none",
            },
        ),
    );
    push_member(&mut m, "portrait_matte_id", Json::text("none"));
    push_member(&mut m, "image_date", Json::Str(image_date));
    push_member(&mut m, "conn_info", info);
    assert(members_view(m@) =~= send_image_members(
        file_type@,
        file_size,
        idv,
        ridv,
        opt_str(matte_id),
        datev,
        conn_id,
        info_id,
    ));
    Json::object(m)
}

/// The members of the header that precedes the image bytes on the upload socket.
pub open spec fn upload_header_members(file_len: u64, file_type: Seq<char>, sec_key: Seq<char>) -> Seq<(Seq<char>, JsonValue)> {
    seq![
        ("num"@, JsonValue::UInt(0)),
        ("total"@, JsonValue::UInt(1)),
        ("fileLength"@, JsonValue::UInt(file_len)),
        ("fileName"@, jstr("upload"@)),
        ("fileType"@, jstr(file_type)),
        ("secKey"@, jstr(sec_key)),
        ("version"@, jstr("0.0.1"@)),
    ]
}

/// The header before the image bytes gives the file's length, type and key as given.
pub proof fn lemma_upload_header_fields(file_len: u64, file_type: Seq<char>, sec_key: Seq<char>)
    ensures
        get(JsonValue::Object(upload_header_members(file_len, file_type, sec_key)), "fileLength"@)
            == Some(JsonValue::UInt(file_len)),
        get(JsonValue::Object(upload_header_members(file_len, file_type, sec_key)), "fileType"@)
            == Some(JsonValue::Str(file_type)),
        get(JsonValue::Object(upload_header_members(file_len, file_type, sec_key)), "secKey"@)
            == Some(JsonValue::Str(sec_key)),
{
    reveal_strlit("num");
    reveal_strlit("total");
    reveal_strlit("fileLength");
    reveal_strlit("fileName");
    reveal_strlit("fileType");
    reveal_strlit("secKey");
    let m = upload_header_members(file_len, file_type, sec_key);
    assert(m[0].0 != m[2].0) by { assert(m[0].0[0] != m[2].0[0]); }
    assert(m[1].0 != m[2].0) by { assert(m[1].0[0] != m[2].0[0]); }
    assert(m[0].0 != m[4].0) by { assert(m[0].0[0] != m[4].0[0]); }
    assert(m[1].0 != m[4].0) by { assert(m[1].0[0] != m[4].0[0]); }
    assert(m[2].0 != m[4].0) by { assert(m[2].0[4] != m[4].0[4]); }
    assert(m[3].0 != m[4].0) by { assert(m[3].0[4] != m[4].0[4]); }
    assert(m[0].0 != m[5].0) by { assert(m[0].0[0] != m[5].0[0]); }
    assert(m[1].0 != m[5].0) by { assert(m[1].0[0] != m[5].0[0]); }
    assert(m[2].0 != m[5].0) by { assert(m[2].0[0] != m[5].0[0]); }
    assert(m[3].0 != m[5].0) by { assert(m[3].0[0] != m[5].0[0]); }
    assert(m[4].0 != m[5].0) by { assert(m[4].0[0] != m[5].0[0]); }
    lemma_field_at(m, 2);
    lemma_field_at(m, 4);
    lemma_field_at(m, 5);
}

/// The header that precedes the image bytes on the upload socket.
pub fn upload_header(file_len: u64, file_type: &str, sec_key: &str) -> (r: Json)
    ensures
        r@ == JsonValue::Object(upload_header_members(file_len, file_type@, sec_key@)),
        get(r@, "fileLength"@) == Some(JsonValue::UInt(file_len)),
        get(r@, "fileType"@) == Some(JsonValue::Str(file_type@)),
        get(r@, "secKey"@) == Some(JsonValue::Str(sec_key@)),
{
    proof {
        lemma_upload_header_fields(file_len, file_type@, sec_key@);
    }
    let mut m: Vec<(String, Json)> = Vec::new();
    assert(members_view(m@) =~= seq![]);
    push_member(&mut m, "num", Json::UInt(0));
    push_member(&mut m, "total", Json::UInt(1));
    push_member(&mut m, "fileLength", Json::UInt(file_len));
    push_member(&mut m, "fileName", Json::text("upload"));
    push_member(&mut m, "fileType", Json::text(file_type));
    push_member(&mut m, "secKey", Json::text(sec_key));
    push_member(&mut m, "version", Json::text("0.0.1"));
    assert(members_view(m@) =~= upload_header_members(file_len, file_type@, sec_key@));
    Json::object(m)
}

/// The four bytes of `n mod 2^32`, most significant first.
pub open spec fn be32(n: nat) -> Seq<u8> {
    let v = n % 0x1_0000_0000;
    seq![(v / 0x100_0000) as u8, ((v / 0x1_0000) % 256) as u8, ((v / 256) % 256) as u8, (v % 256) as u8]
}

/// The value of four bytes read most significant first.
pub open spec fn be32_value(b: Seq<u8>) -> nat {
    (b[0] as nat) * 0x100_0000 + (b[1] as nat) * 0x1_0000 + (b[2] as nat) * 256 + (b[3] as nat)
}

/// Reading back the length prefix gives the length (modulo 2^32).
pub proof fn lemma_be32_roundtrip(n: nat)
    ensures
        be32(n).len() == 4,
        be32_value(be32(n)) == n % 0x1_0000_0000,
{
    let v = n % 0x1_0000_0000;
    assert(be32_value(be32(n)) == v) by (nonlinear_arith)
        requires
            v < 0x1_0000_0000,
            v == n % 0x1_0000_0000,
    ;
}

/// What goes over the upload socket: the header's length as four big-endian bytes, the
/// header, then the file.
pub fn upload_frame(header: &[u8], file: &[u8]) -> (r: Vec<u8>)
    ensures
        r@ == be32(header@.len()) + header@ + file@,
{
    let n = header.len();
    let v: u32 = ((n as u64) % 0x1_0000_0000) as u32;
    let mut r: Vec<u8> = Vec::new();
    r.push((v / 0x100_0000) as u8);
    r.push(((v / 0x1_0000) % 256) as u8);
    r.push(((v / 256) % 256) as u8);
    r.push((v % 256) as u8);
    assert(r@ =~= be32(header@.len()));
    let mut i: usize = 0;
    let ghost start = r@;
    while i < header.len()
        invariant
            i <= header@.len(),
            r@ == start + header@.subrange(0, i as int),
        decreases header@.len() - i,
    {
        r.push(header[i]);
        i += 1;
        assert(r@ =~= start + header@.subrange(0, i as int));
    }
    assert(header@.subrange(0, header@.len() as int) == header@);
    let ghost mid = r@;
    let mut j: usize = 0;
    while j < file.len()
        invariant
            j <= file@.len(),
            r@ == mid + file@.subrange(0, j as int),
        decreases file@.len() - j,
    {
        r.push(file[j]);
        j += 1;
        assert(r@ =~= mid + file@.subrange(0, j as int));
    }
    assert(file@.subrange(0, file@.len() as int) == file@);
    r
}

} // verus!

verus! {

/// What a wait for the TV is for: the reply to a request, the signal that the upload
/// socket is ready, or the confirmation of an uploaded image.
#[derive(Debug)]
pub enum Awaited {
    Reply(String),
    UploadReady,
    ImageAdded,
}

/// What a wait ends with: the reply's data, the upload connection information, or the
/// uploaded image's content id.
#[derive(Debug)]
pub enum Heard {
    Reply(Json),
    ConnInfo(Json),
    ContentId(String),
}

/// How long a wait lasts, in seconds: 15 for a reply, 30 for each step of an upload.
pub open spec fn wait_secs(a: Awaited) -> u64 {
    match a {
        Awaited::Reply(_) => 15,
        _ => 30,
    }
}

/// How long a wait lasts, in seconds.
pub fn wait_limit_secs(a: &Awaited) -> (r: u64)
    ensures
        r == wait_secs(*a),
{
    match a {
        Awaited::Reply(_) => 15,
        _ => 30,
    }
}

/// Whether a wait of `limit_secs` seconds goes on after `elapsed_millis` milliseconds.
pub fn still_waiting(elapsed_millis: u128, limit_secs: u64) -> (b: bool)
    ensures
        b == (elapsed_millis < limit_secs * 1000),
{
    elapsed_millis < (limit_secs as u128) * 1000
}

/// What the data of a message from the TV means to a wait: the end of it, or nothing (the
/// wait goes on).
pub fn on_data(a: &Awaited, data: Json) -> (r: Option<Heard>)
    ensures
        match a {
            Awaited::Reply(req) => if answers(data@, req@) {
                r matches Some(Heard::Reply(d)) && d@ == data@
            } else {
                r is None
            },
            Awaited::UploadReady => match ready_conn_info(data@) {
                Some(v) => r matches Some(Heard::ConnInfo(c)) && c@ == v,
                None => r is None,
            },
            Awaited::ImageAdded => match added_content_id(data@) {
                Some(s) => r matches Some(Heard::ContentId(c)) && c@ == s,
                None => r is None,
            },
        },
{
    match a {
        Awaited::Reply(req) => if response_matches(req.as_str(), &data) {
            Some(Heard::Reply(data))
        } else {
            None
        },
        Awaited::UploadReady => match upload_ready_info(data) {
            Some(c) => Some(Heard::ConnInfo(c)),
            None => None,
        },
        Awaited::ImageAdded => match image_added_id(&data) {
            Some(c) => Some(Heard::ContentId(c)),
            None => None,
        },
    }
}

/// The error when a wait ran out.
pub fn wait_timeout(a: &Awaited) -> (e: Error)
    ensures
        e@ == match a {
            Awaited::Reply(req) => ErrorView {
                code: ErrorCode::Network,
                message: "Timed out waiting for response to '"@ + req@ + "' from TV."@,
                detail: Some("The TV did not reply within the 15-second timeout window."@),
                remediation: Some("Check that the TV is powered on, connected, and in Art Mode."@),
            },
            Awaited::UploadReady => ErrorView {
                code: ErrorCode::Network,
                message: "Timed out waiting for upload ready signal from TV."@,
                detail: Some("The TV did not return 'ready_to_use' connection info."@),
                remediation: None,
            },
            Awaited::ImageAdded => ErrorView {
                code: ErrorCode::Network,
                message: "Timed out waiting for image upload confirmation from TV."@,
                detail: Some("The TV accepted binary chunks but did not confirm 'image_added'."@),
                remediation: None,
            },
        },
{
    match a {
        Awaited::Reply(req) => response_timeout(req.as_str()),
        Awaited::UploadReady => upload_ready_timeout(),
        Awaited::ImageAdded => image_added_timeout(),
    }
}

/// The error when the TV at `target_addr` cannot be reached; `cause` is the connection
/// failure's text, `host` the host as given.
pub fn connect_error(target_addr: &str, cause: &str, host: &str) -> (e: Error)
    ensures
        e@ == (ErrorView {
            code: ErrorCode::Network,
            message: "Could not connect to TV at "@ + target_addr@ + ": "@ + cause@,
            detail: Some(
                "Check that the TV is powered on, connected to the network, and IP is correct. (Underlying error: "@
                    + cause@ + ")"@,
            ),
            remediation: Some("samsung-artmode pair "@ + host@),
        }),
{
    let mut msg = owned("Could not connect to TV at ");
    push_str(&mut msg, target_addr);
    push_str(&mut msg, ": ");
    push_str(&mut msg, cause);
    let mut detail = owned(
        "Check that the TV is powered on, connected to the network, and IP is correct. (Underlying error: ",
    );
    push_str(&mut detail, cause);
    push_str(&mut detail, ")");
    let mut fix = owned("samsung-artmode pair ");
    push_str(&mut fix, host);
    Error::network(msg).detail(detail).fix(fix)
}

/// The error when a TLS session with the TV cannot be set up.
pub fn tls_setup_error(cause: &str) -> (e: Error)
    ensures
        e@ == plain_error(ErrorCode::Network, "TLS handshake initialization failed: "@ + cause@),
{
    let mut msg = owned("TLS handshake initialization failed: ");
    push_str(&mut msg, cause);
    Error::network(msg)
}

/// The error when the WebSocket handshake at `url` fails.
pub fn handshake_error(url: &str, cause: &str) -> (e: Error)
    ensures
        e@ == (ErrorView {
            code: ErrorCode::Network,
            message: "WebSocket handshake with TV failed: "@ + cause@,
            detail: Some("Handshake failed for "@ + url@ + ". The TV may have rejected the connection."@),
            remediation: Some(
                "Check your TV and select 'Allow' when prompted, or run: samsung-artmode pair"@,
            ),
        }),
{
    let mut msg = owned("WebSocket handshake with TV failed: ");
    push_str(&mut msg, cause);
    let mut detail = owned("Handshake failed for ");
    push_str(&mut detail, url);
    push_str(&mut detail, ". The TV may have rejected the connection.");
    Error::network(msg).detail(detail).fix(
        owned("Check your TV and select 'Allow' when prompted, or run: samsung-artmode pair"),
    )
}

/// The error when the socket that takes the image bytes cannot be reached.
pub fn upload_connect_error(ip: &str, port: u16, cause: &str) -> (e: Error)
    ensures
        e@ == plain_error(
            ErrorCode::Network,
            "Failed to connect to TV binary upload socket at "@ + ip@ + ":"@ + decimal(port as nat)
                + ": "@ + cause@,
        ),
{
    let mut msg = owned("Failed to connect to TV binary upload socket at ");
    push_str(&mut msg, ip);
    push_str(&mut msg, ":");
    let p = decimal_string(port as u128);
    push_str(&mut msg, p.as_str());
    push_str(&mut msg, ": ");
    push_str(&mut msg, cause);
    Error::network(msg)
}

/// The error when the TLS session for the image bytes cannot be set up.
pub fn upload_tls_error(cause: &str) -> (e: Error)
    ensures
        e@ == plain_error(ErrorCode::Network, "TLS handshake failed for binary upload: "@ + cause@),
{
    let mut msg = owned("TLS handshake failed for binary upload: ");
    push_str(&mut msg, cause);
    Error::network(msg)
}

/// The error when no reply to `request` came in time.
pub fn response_timeout(request: &str) -> (e: Error)
    ensures
        e@ == (ErrorView {
            code: ErrorCode::Network,
            message: "Timed out waiting for response to '"@ + request@ + "' from TV."@,
            detail: Some("The TV did not reply within the 15-second timeout window."@),
            remediation: Some("Check that the TV is powered on, connected, and in Art Mode."@),
        }),
{
    let mut msg = owned("Timed out waiting for response to '");
    push_str(&mut msg, request);
    push_str(&mut msg, "' from TV.");
    Error::network(msg).detail(owned("The TV did not reply within the 15-second timeout window.")).fix(
        owned("Check that the TV is powered on, connected, and in Art Mode."),
    )
}

/// The error when the TV did not say where to send the image bytes in time.
pub fn upload_ready_timeout() -> (e: Error)
    ensures
        e@ == (ErrorView {
            code: ErrorCode::Network,
            message: "Timed out waiting for upload ready signal from TV."@,
            detail: Some("The TV did not return 'ready_to_use' connection info."@),
            remediation: None,
        }),
{
    Error::network(owned("Timed out waiting for upload ready signal from TV.")).detail(
        owned("The TV did not return 'ready_to_use' connection info."),
    )
}

/// The error when the TV did not confirm an uploaded image in time.
pub fn image_added_timeout() -> (e: Error)
    ensures
        e@ == (ErrorView {
            code: ErrorCode::Network,
            message: "Timed out waiting for image upload confirmation from TV."@,
            detail: Some("The TV accepted binary chunks but did not confirm 'image_added'."@),
            remediation: None,
        }),
{
    Error::network(owned("Timed out waiting for image upload confirmation from TV.")).detail(
        owned("The TV accepted binary chunks but did not confirm 'image_added'."),
    )
}

/// The error when pairing with `host` yielded no token in time.
pub fn pairing_timeout(host: &str) -> (e: Error)
    ensures
        e@ == (ErrorView {
            code: ErrorCode::AuthRequired,
            message: "No token received from TV. The connection may have timed out or been denied."@,
            detail: Some(
                "Make sure to press 'Allow' on the TV screen when the permission prompt appears."@,
            ),
            remediation: Some("samsung-artmode pair "@ + host@),
        }),
{
    let mut fix = owned("samsung-artmode pair ");
    push_str(&mut fix, host);
    Error::auth(owned("No token received from TV. The connection may have timed out or been denied.")).detail(
        owned("Make sure to press 'Allow' on the TV screen when the permission prompt appears."),
    ).fix(fix)
}

/// The text of a request id: the clock's nanoseconds and a mixed-up stack address, each
/// as at least 16 lower-case hexadecimal digits.
pub open spec fn request_id_text(nanos: u128, addr: u64) -> Seq<char> {
    zero_pad(hex(nanos as nat), 16) + zero_pad(hex((addr ^ 0x5a5a_5a5a_5a5a_5a5au64) as nat), 16)
}

/// The text of a request id from the clock's nanoseconds and a stack address.
pub fn format_request_id(nanos: u128, addr: u64) -> (r: String)
    ensures
        r@ == request_id_text(nanos, addr),
{
    let mut r = padded_hex(nanos, 16);
    let b = padded_hex((addr ^ 0x5a5a_5a5a_5a5a_5a5au64) as u128, 16);
    push_str(&mut r, b.as_str());
    r
}

} // verus!

verus! {

/// A fresh request id: the clock's nanoseconds since the Unix epoch (0 when the clock is
/// before it) and the address of a stack slot, in hexadecimal.
pub fn generate_id() -> (r: String)
    ensures
        exists|nanos: u128, addr: u64| r@ == request_id_text(nanos, addr),
{
    let now: u128 = match crate::clock::since_unix_epoch(&crate::clock::system_now()) {
        Some(d) => crate::clock::duration_nanos(&d),
        None => 0,
    };
    let p = crate::clock::stack_address(&now);
    format_request_id(now, p)
}

/// The connection id for an upload, from the current time.
pub fn current_connection_id() -> (r: u32)
    ensures
        exists|millis: Option<u128>| r == connection_id_of(millis),
{
    let millis = match crate::clock::since_unix_epoch(&crate::clock::system_now()) {
        Some(d) => Some(crate::clock::duration_millis(&d)),
        None => None,
    };
    connection_id(millis)
}

/// The text of an image date: `YYYY:MM:DD hh:mm:ss`, the year zero-padded to four
/// characters (its sign included), the rest to two digits.
pub open spec fn date_text(y: int, m: int, d: int, secs_of_day: int) -> Seq<char> {
    signed_padded(y, 4) + ":"@ + zero_pad(decimal(m as nat), 2) + ":"@ + zero_pad(decimal(d as nat), 2)
        + " "@ + zero_pad(decimal((secs_of_day / 3600) as nat), 2) + ":"@ + zero_pad(
        decimal((secs_of_day % 3600 / 60) as nat),
        2,
    ) + ":"@ + zero_pad(decimal((secs_of_day % 60) as nat), 2)
}

fn push_padded(s: &mut String, n: i64, width: usize)
    requires
        n >= 0,
    ensures
        final(s)@ == old(s)@ + zero_pad(decimal(n as nat), width as nat),
{
    let t = padded_decimal(n as u128, width);
    push_str(s, t.as_str());
}

/// Whether `text` is the image date of the moment `secs` seconds after the Unix epoch
/// (UTC): the calendar date of that day and the time of day. By `lemma_civil_unique` only
/// one date fits, so only one text does.
pub open spec fn is_image_date(text: Seq<char>, secs: i64) -> bool {
    exists|y: int, m: int, d: int|
        #![trigger days_from_civil(y, m, d)]
        valid_date(y, m, d) && days_from_civil(y, m, d) == secs as int / 86400 && text == date_text(
            y,
            m,
            d,
            secs as int % 86400,
        )
}

/// The image date for `secs` seconds after the Unix epoch.
pub fn format_image_date(secs: i64) -> (r: String)
    ensures
        is_image_date(r@, secs),
{
    let days = match secs.checked_div_euclid(86400) {
        Some(q) => q,
        None => 0,
    };
    let rem = match secs.checked_rem_euclid(86400) {
        Some(q) => q,
        None => 0,
    };
    proof {
        vstd::arithmetic::div_mod::lemma_fundamental_div_mod(secs as int, 86400);
    }
    let (y, m, d) = civil_from_days(days);
    let mut r = padded_signed(y, 4);
    push_str(&mut r, ":");
    push_padded(&mut r, m, 2);
    push_str(&mut r, ":");
    push_padded(&mut r, d, 2);
    push_str(&mut r, " ");
    push_padded(&mut r, rem / 3600, 2);
    push_str(&mut r, ":");
    push_padded(&mut r, rem % 3600 / 60, 2);
    push_str(&mut r, ":");
    push_padded(&mut r, rem % 60, 2);
    assert(r@ == date_text(y as int, m as int, d as int, rem as int));
    assert(days_from_civil(y as int, m as int, d as int) == secs as int / 86400);
    r
}

/// The text of a UTC timestamp: `YYYY-MM-DDThh:mm:ssZ`, the year zero-padded to four
/// characters (its sign included), the rest to two digits.
pub open spec fn timestamp_text(y: int, m: int, d: int, secs_of_day: int) -> Seq<char> {
    signed_padded(y, 4) + "-"@ + zero_pad(decimal(m as nat), 2) + "-"@ + zero_pad(decimal(d as nat), 2)
        + "T"@ + zero_pad(decimal((secs_of_day / 3600) as nat), 2) + ":"@ + zero_pad(
        decimal((secs_of_day % 3600 / 60) as nat),
        2,
    ) + ":"@ + zero_pad(decimal((secs_of_day % 60) as nat), 2) + "Z"@
}

/// Whether `text` is the UTC timestamp of the moment `secs` seconds after the Unix epoch.
pub open spec fn is_timestamp(text: Seq<char>, secs: i64) -> bool {
    exists|y: int, m: int, d: int|
        #![trigger days_from_civil(y, m, d)]
        valid_date(y, m, d) && days_from_civil(y, m, d) == secs as int / 86400 && text == timestamp_text(
            y,
            m,
            d,
            secs as int % 86400,
        )
}

/// The UTC timestamp for `secs` seconds after the Unix epoch, as accounts are stamped.
pub fn format_timestamp(secs: i64) -> (r: String)
    ensures
        is_timestamp(r@, secs),
{
    let days = match secs.checked_div_euclid(86400) {
        Some(q) => q,
        None => 0,
    };
    let rem = match secs.checked_rem_euclid(86400) {
        Some(q) => q,
        None => 0,
    };
    proof {
        vstd::arithmetic::div_mod::lemma_fundamental_div_mod(secs as int, 86400);
    }
    let (y, m, d) = civil_from_days(days);
    let mut r = padded_signed(y, 4);
    push_str(&mut r, "-");
    push_padded(&mut r, m, 2);
    push_str(&mut r, "-");
    push_padded(&mut r, d, 2);
    push_str(&mut r, "T");
    push_padded(&mut r, rem / 3600, 2);
    push_str(&mut r, ":");
    push_padded(&mut r, rem % 3600 / 60, 2);
    push_str(&mut r, ":");
    push_padded(&mut r, rem % 60, 2);
    push_str(&mut r, "Z");
    assert(r@ == timestamp_text(y as int, m as int, d as int, rem as int));
    assert(days_from_civil(y as int, m as int, d as int) == secs as int / 86400);
    r
}

/// The UTC timestamp of the present moment (the epoch when the clock is before it).
pub fn now_timestamp() -> (r: String)
    ensures
        exists|secs: i64| is_timestamp(r@, secs),
{
    let secs: i64 = match crate::clock::since_unix_epoch(&crate::clock::system_now()) {
        Some(d) => crate::clock::duration_secs(&d) as i64,
        None => 0,
    };
    format_timestamp(secs)
}

/// The image date of the present moment (the epoch when the clock is before it).
pub fn now_image_date() -> (r: String)
    ensures
        exists|secs: i64| is_image_date(r@, secs),
{
    let secs: i64 = match crate::clock::since_unix_epoch(&crate::clock::system_now()) {
        Some(d) => crate::clock::duration_secs(&d) as i64,
        None => 0,
    };
    format_image_date(secs)
}

} // verus!

