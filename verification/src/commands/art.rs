//! The Art Mode commands: what each one asks of the TV and what it reports.
use vstd::prelude::*;
use crate::account::{given, opt_str_view};
use crate::client::{ArtRequest, ArtRequestView, jstr, request_view, slideshow_extra};
use crate::discovery::{DiscoveredTv, tvs_view};
use crate::error::{Error, ErrorCode, ErrorView, opt_view};
use crate::json::{Json, JsonValue, field, get, lemma_field_at, members_view, push_member};
use crate::text::{is_blank, owned, push_str, trim, trimmed};

verus! {

broadcast use vstd::string::group_string_axioms;

/// The request of `status`.
pub open spec fn status_request() -> ArtRequestView {
    request_view("get_artmode_status"@, seq![])
}

/// The request of `list`.
pub open spec fn list_request(category: Option<Seq<char>>) -> ArtRequestView {
    request_view(
        "get_content_list"@,
        match category {
            Some(c) => seq![("category"@, jstr(c))],
            None => seq![],
        },
    )
}

/// The request of `current`.
pub open spec fn current_request() -> ArtRequestView {
    request_view("get_current_artwork"@, seq![])
}

/// The request of `select`.
pub open spec fn select_request(content_id: Seq<char>, show: bool) -> ArtRequestView {
    request_view("select_image"@, seq![("content_id"@, jstr(content_id)), ("show"@, JsonValue::Bool(show))])
}

/// The request of `delete`.
pub open spec fn delete_request(content_id: Seq<char>) -> ArtRequestView {
    request_view(
        "delete_image_list"@,
        seq![
            (
                "content_id_list"@,
                JsonValue::Array(seq![JsonValue::Object(seq![("content_id"@, jstr(content_id))])]),
            ),
        ],
    )
}

/// The request of `favorite`.
pub open spec fn favorite_request(content_id: Seq<char>, remove: bool) -> ArtRequestView {
    request_view(
        "change_favorite"@,
        seq![
            ("content_id"@, jstr(content_id)),
            ("status"@, jstr(if remove { "off"@ } else { "on"@ })),
        ],
    )
}

/// The request of `brightness get`.
pub open spec fn brightness_get_request() -> ArtRequestView {
    request_view("get_brightness"@, seq![])
}

/// The request of `brightness set`.
pub open spec fn brightness_set_request(value: u8) -> ArtRequestView {
    request_view("set_brightness"@, seq![("value"@, JsonValue::UInt(value as u64))])
}

/// The refusal of `brightness set` above 10.
pub open spec fn brightness_range_error() -> ErrorView {
    ErrorView {
        code: ErrorCode::InvalidInput,
        message: "Brightness value must be between 0 and 10."@,
        detail: None,
        remediation: None,
    }
}

/// The request of `matte list`.
pub open spec fn matte_list_request() -> ArtRequestView {
    request_view("get_matte_list"@, seq![])
}

/// The request of `matte set`.
pub open spec fn matte_set_request(content_id: Seq<char>, matte_id: Seq<char>) -> ArtRequestView {
    request_view(
        "change_matte"@,
        seq![
            ("content_id"@, jstr(content_id)),
            ("matte_id"@, jstr(matte_id)),
            ("portrait_matte_id"@, jstr("none"@)),
        ],
    )
}

/// The request of `slideshow`.
pub open spec fn slideshow_request(off: bool, interval: Option<u32>, category: Seq<char>, shuffle: bool) -> ArtRequestView {
    request_view("set_slideshow_status"@, slideshow_extra(off, interval, category, shuffle))
}

/// Each request carries what its command was given: the category listed, the artwork
/// selected and whether it is shown, the artwork favorited and whether it is taken out,
/// the brightness, the artwork and matte of a matte change (none in portrait), and the one
/// artwork deleted; each is sent under its own request name.
pub proof fn lemma_requests_carry_arguments(
    category: Option<Seq<char>>,
    content_id: Seq<char>,
    show: bool,
    remove: bool,
    value: u8,
    matte_id: Seq<char>,
)
    ensures
        list_request(category).request == "get_content_list"@,
        field(list_request(category).extra, "category"@) == (match category {
            Some(c) => Some(JsonValue::Str(c)),
            None => None::<JsonValue>,
        }),
        select_request(content_id, show).request == "select_image"@,
        field(select_request(content_id, show).extra, "content_id"@) == Some(JsonValue::Str(content_id)),
        field(select_request(content_id, show).extra, "show"@) == Some(JsonValue::Bool(show)),
        favorite_request(content_id, remove).request == "change_favorite"@,
        field(favorite_request(content_id, remove).extra, "content_id"@) == Some(
            JsonValue::Str(content_id),
        ),
        field(favorite_request(content_id, remove).extra, "status"@) == Some(
            JsonValue::Str(if remove { "off"@ } else { "on"@ }),
        ),
        brightness_set_request(value).request == "set_brightness"@,
        field(brightness_set_request(value).extra, "value"@) == Some(JsonValue::UInt(value as u64)),
        matte_set_request(content_id, matte_id).request == "change_matte"@,
        field(matte_set_request(content_id, matte_id).extra, "content_id"@) == Some(
            JsonValue::Str(content_id),
        ),
        field(matte_set_request(content_id, matte_id).extra, "matte_id"@) == Some(
            JsonValue::Str(matte_id),
        ),
        field(matte_set_request(content_id, matte_id).extra, "portrait_matte_id"@) == Some(
            JsonValue::Str("none"@),
        ),
        delete_request(content_id).request == "delete_image_list"@,
        field(delete_request(content_id).extra, "content_id_list"@) matches Some(JsonValue::Array(items))
            && items.len() == 1 && get(items[0], "content_id"@) == Some(JsonValue::Str(content_id)),
        status_request().request == "get_artmode_status"@,
        current_request().request == "get_current_artwork"@,
        brightness_get_request().request == "get_brightness"@,
        matte_list_request().request == "get_matte_list"@,
{
    reveal_strlit("content_id");
    reveal_strlit("show");
    reveal_strlit("status");
    reveal_strlit("matte_id");
    reveal_strlit("portrait_matte_id");
    let sel = select_request(content_id, show).extra;
    assert(sel[0].0 != sel[1].0) by {
        assert(sel[0].0[0] != sel[1].0[0]);
    }
    lemma_field_at(sel, 0);
    lemma_field_at(sel, 1);
    let fav = favorite_request(content_id, remove).extra;
    assert(fav[0].0 != fav[1].0) by {
        assert(fav[0].0[0] != fav[1].0[0]);
    }
    lemma_field_at(fav, 0);
    lemma_field_at(fav, 1);
    let mat = matte_set_request(content_id, matte_id).extra;
    assert(mat[0].0 != mat[1].0) by {
        assert(mat[0].0[0] != mat[1].0[0]);
    }
    assert(mat[0].0 != mat[2].0) by {
        assert(mat[0].0[0] != mat[2].0[0]);
    }
    assert(mat[1].0 != mat[2].0) by {
        assert(mat[1].0[0] != mat[2].0[0]);
    }
    lemma_field_at(mat, 0);
    lemma_field_at(mat, 1);
    lemma_field_at(mat, 2);
    let del = delete_request(content_id).extra;
    lemma_field_at(del, 0);
    let inner = seq![("content_id"@, JsonValue::Str(content_id))];
    lemma_field_at(inner, 0);
    lemma_field_at(brightness_set_request(value).extra, 0);
    match category {
        Some(c) => {
            lemma_field_at(list_request(category).extra, 0);
        },
        None => {},
    }
}

/// `status`: asks whether Art Mode is on.
pub fn status() -> (r: ArtRequest)
    ensures
        r@ == status_request(),
{
    ArtRequest::get_artmode_status()
}

/// `list`: asks for the artwork, of one category when one is given.
pub fn list(category: Option<&str>) -> (r: ArtRequest)
    ensures
        r@ == list_request(opt_str_view(category)),
{
    ArtRequest::get_content_list(category)
}

/// `current`: asks which artwork is shown.
pub fn current() -> (r: ArtRequest)
    ensures
        r@ == current_request(),
{
    ArtRequest::get_current_artwork()
}

/// `select`: selects an artwork.
pub fn select(content_id: &str, show: bool) -> (r: ArtRequest)
    ensures
        r@ == select_request(content_id@, show),
{
    ArtRequest::select_image(content_id, show)
}

/// `delete`: deletes an artwork.
pub fn delete(content_id: &str) -> (r: ArtRequest)
    ensures
        r@ == delete_request(content_id@),
{
    ArtRequest::delete_image_list(content_id)
}

/// What `delete` reports once the TV has answered.
pub fn delete_report(content_id: &str) -> (r: Json)
    ensures
        r@ == JsonValue::Object(seq![("status"@, jstr("ok"@)), ("deleted"@, jstr(content_id@))]),
{
    let mut m: Vec<(String, Json)> = Vec::new();
    assert(members_view(m@) =~= seq![]);
    push_member(&mut m, "status", Json::text("ok"));
    push_member(&mut m, "deleted", Json::text(content_id));
    assert(members_view(m@) =~= seq![("status"@, jstr("ok"@)), ("deleted"@, jstr(content_id@))]);
    Json::object(m)
}

/// `favorite`: adds an artwork to the favorites, or takes it out.
pub fn favorite(content_id: &str, remove: bool) -> (r: ArtRequest)
    ensures
        r@ == favorite_request(content_id@, remove),
{
    ArtRequest::change_favorite(content_id, remove)
}

/// `brightness get`: asks for the brightness.
pub fn brightness_get() -> (r: ArtRequest)
    ensures
        r@ == brightness_get_request(),
{
    ArtRequest::get_brightness()
}

/// `brightness set`: sets the brightness, which must be from 0 to 10.
pub fn brightness_set(value: u8) -> (r: Result<ArtRequest, Error>)
    ensures
        value > 10 ==> (r matches Err(e) && e@ == brightness_range_error()),
        value <= 10 ==> (r matches Ok(q) && q@ == brightness_set_request(value)),
{
    if value > 10 {
        return Err(Error::invalid(owned("Brightness value must be between 0 and 10.")));
    }
    Ok(ArtRequest::set_brightness(value))
}

/// `matte list`: asks for the available mattes.
pub fn matte_list() -> (r: ArtRequest)
    ensures
        r@ == matte_list_request(),
{
    ArtRequest::get_matte_list()
}

/// `matte set`: puts a matte around an artwork.
pub fn matte_set(content_id: &str, matte_id: &str) -> (r: ArtRequest)
    ensures
        r@ == matte_set_request(content_id@, matte_id@),
{
    ArtRequest::change_matte(content_id, matte_id)
}

/// `slideshow`: turns the slideshow off, or configures it.
pub fn slideshow(off: bool, interval: Option<u32>, category: &str, shuffle: bool) -> (r: ArtRequest)
    ensures
        r@ == slideshow_request(off, interval, category@, shuffle),
{
    ArtRequest::set_slideshow(off, interval, category, shuffle)
}

/// What `upload` reports once the TV has confirmed the image.
pub fn upload_report(content_id: &str, selected: bool) -> (r: Json)
    ensures
        r@ == JsonValue::Object(
            seq![
                ("status"@, jstr("ok"@)),
                ("contentId"@, jstr(content_id@)),
                ("selected"@, JsonValue::Bool(selected)),
            ],
        ),
{
    let mut m: Vec<(String, Json)> = Vec::new();
    assert(members_view(m@) =~= seq![]);
    push_member(&mut m, "status", Json::text("ok"));
    push_member(&mut m, "contentId", Json::text(content_id));
    push_member(&mut m, "selected", Json::Bool(selected));
    assert(members_view(m@) =~= seq![
        ("status"@, jstr("ok"@)),
        ("contentId"@, jstr(content_id@)),
        ("selected"@, JsonValue::Bool(selected)),
    ]);
    Json::object(m)
}

/// The error for an upload of a file that does not exist: `not_found`, which the exit
/// codes reserve for a content id or a file that is not there.
pub fn missing_file_error(file: &str) -> (e: Error)
    ensures
        e@ == (ErrorView {
            code: ErrorCode::NotFound,
            message: "File not found: "@ + file@,
            detail: None,
            remediation: None,
        }),
{
    let mut msg = owned("File not found: ");
    push_str(&mut msg, file);
    Error::not_found(msg)
}

/// The host to pair with when one is given (trimmed, when not blank); `None` means the
/// network is searched.
pub fn pair_host(host_arg: Option<&str>) -> (r: Option<String>)
    ensures
        opt_view(r) == given(opt_str_view(host_arg)),
{
    match host_arg {
        Some(h) => if is_blank(h) {
            None
        } else {
            Some(trimmed(h))
        },
        None => None,
    }
}

/// How a discovered TV is listed: `host (name)`, or `host (Samsung TV)` without a name.
pub open spec fn tv_label(t: (Seq<char>, Option<Seq<char>>, Option<Seq<char>>)) -> Seq<char> {
    t.0 + " ("@ + match t.1 {
        Some(n) => n,
        None => "Samsung TV"@,
    } + ")"@
}

/// The labels of discovered TVs, separated by `, `.
pub open spec fn tv_labels(s: Seq<(Seq<char>, Option<Seq<char>>, Option<Seq<char>>)>) -> Seq<char>
    decreases s.len(),
{
    if s.len() == 0 {
        Seq::empty()
    } else if s.len() == 1 {
        tv_label(s[0])
    } else {
        tv_labels(s.drop_last()) + ", "@ + tv_label(s.last())
    }
}

/// The host a search found to pair with: the only TV found; no TV is a network error,
/// several TVs are an invalid-input error that lists them and suggests the first.
pub open spec fn chosen_host(s: Seq<(Seq<char>, Option<Seq<char>>, Option<Seq<char>>)>) -> Result<Seq<char>, ErrorView> {
    if s.len() == 0 {
        Err(
            ErrorView {
                code: ErrorCode::Network,
                message: "No Samsung TVs found on the local network."@,
                detail: Some(
                    "Ensure the TV is powered on and connected to the same local network."@,
                ),
                remediation: Some("Specify the IP directly: samsung-artmode pair <ip>"@),
            },
        )
    } else if s.len() == 1 {
        Ok(s[0].0)
    } else {
        Err(
            ErrorView {
                code: ErrorCode::InvalidInput,
                message: "Multiple Samsung TVs found on the network."@,
                detail: Some("Available TVs: "@ + tv_labels(s)),
                remediation: Some("samsung-artmode pair "@ + s[0].0),
            },
        )
    }
}

fn push_tv_label(s: &mut String, t: &DiscoveredTv)
    ensures
        final(s)@ == old(s)@ + tv_label(crate::discovery::tv_view(*t)),
{
    push_str(s, t.host.as_str());
    push_str(s, " (");
    match &t.name {
        Some(n) => push_str(s, n.as_str()),
        None => push_str(s, "Samsung TV"),
    }
    push_str(s, ")");
}

/// Picks the TV to pair with from those a search found.
pub fn choose_discovered(tvs: &Vec<DiscoveredTv>) -> (r: Result<String, Error>)
    ensures
        match r {
            Ok(h) => chosen_host(tvs_view(tvs@)) == Ok::<_, ErrorView>(h@),
            Err(e) => chosen_host(tvs_view(tvs@)) == Err::<Seq<char>, _>(e@),
        },
{
    let ghost v = tvs_view(tvs@);
    if tvs.len() == 0 {
        return Err(Error::network(owned("No Samsung TVs found on the local network.")).detail(
            owned("Ensure the TV is powered on and connected to the same local network."),
        ).fix(owned("Specify the IP directly: samsung-artmode pair <ip>")));
    }
    if tvs.len() == 1 {
        assert(v[0].0 == tvs@[0].host@);
        return Ok(tvs[0].host.clone());
    }
    let mut list = String::new();
    let mut i: usize = 0;
    while i < tvs.len()
        invariant
            v == tvs_view(tvs@),
            i <= tvs@.len(),
            list@ == tv_labels(v.subrange(0, i as int)),
        decreases tvs@.len() - i,
    {
        if i > 0 {
            push_str(&mut list, ", ");
        }
        push_tv_label(&mut list, &tvs[i]);
        proof {
            let sub = v.subrange(0, i + 1);
            assert(sub.drop_last() == v.subrange(0, i as int));
            assert(sub.last() == crate::discovery::tv_view(tvs@[i as int]));
            if i == 0 {
                assert(v.subrange(0, 0).len() == 0);
            }
        }
        i += 1;
    }
    assert(v.subrange(0, v.len() as int) == v);
    let mut detail = owned("Available TVs: ");
    push_str(&mut detail, list.as_str());
    let mut fix = owned("samsung-artmode pair ");
    push_str(&mut fix, tvs[0].host.as_str());
    assert(v[0].0 == tvs@[0].host@);
    Err(Error::invalid(owned("Multiple Samsung TVs found on the network.")).detail(detail).fix(fix))
}

/// How long pairing waits for the token: the given timeout, at least 20 seconds.
pub fn pair_wait_secs(timeout_secs: u64) -> (r: u64)
    ensures
        r == if timeout_secs >= 20 { timeout_secs } else { 20 },
{
    if timeout_secs >= 20 { timeout_secs } else { 20 }
}

/// The account name a pairing is saved under: the given name, when it is not blank.
pub fn pair_account_name(name: Option<&str>) -> (r: Option<String>)
    ensures
        match name {
            Some(n) => if trim(n@).len() > 0 {
                r matches Some(s) && s@ == n@
            } else {
                r is None
            },
            None => r is None,
        },
{
    match name {
        Some(n) => if is_blank(n) {
            None
        } else {
            Some(owned(n))
        },
        None => None,
    }
}

/// What `pair` reports: saved under an account name, or with the command that saves it.
pub open spec fn pair_report_members(host: Seq<char>, token: Seq<char>, account: Option<Seq<char>>) -> Seq<(Seq<char>, JsonValue)> {
    match account {
        Some(a) => seq![
            ("status"@, jstr("ok"@)),
            ("host"@, jstr(host)),
            ("token"@, jstr(token)),
            ("account"@, jstr(a)),
            ("paired"@, JsonValue::Bool(true)),
        ],
        None => seq![
            ("status"@, jstr("ok"@)),
            ("host"@, jstr(host)),
            ("token"@, jstr(token)),
            ("paired"@, JsonValue::Bool(true)),
            (
                "remediation"@,
                jstr("samsung-artmode accounts add living-room --host "@ + host + " --token "@ + token),
            ),
        ],
    }
}

/// What `pair` reports gives the host paired with and the token the TV handed out, and
/// the account it was saved under when there is one.
pub proof fn lemma_pair_report_fields(host: Seq<char>, token: Seq<char>, account: Option<Seq<char>>)
    ensures
        get(JsonValue::Object(pair_report_members(host, token, account)), "host"@) == Some(JsonValue::Str(host)),
        get(JsonValue::Object(pair_report_members(host, token, account)), "token"@) == Some(JsonValue::Str(token)),
        account matches Some(a) ==> get(JsonValue::Object(pair_report_members(host, token, account)), "account"@)
            == Some(JsonValue::Str(a)),
        account is None ==> get(JsonValue::Object(pair_report_members(host, token, account)), "account"@) is None,
{
    reveal_strlit("status");
    reveal_strlit("host");
    reveal_strlit("token");
    reveal_strlit("account");
    reveal_strlit("paired");
    reveal_strlit("remediation");
    let m = pair_report_members(host, token, account);
    assert(m[0].0 != m[1].0) by { assert(m[0].0[0] != m[1].0[0]); }
    assert(m[0].0 != m[2].0) by { assert(m[0].0[0] != m[2].0[0]); }
    assert(m[1].0 != m[2].0) by { assert(m[1].0[0] != m[2].0[0]); }
    lemma_field_at(m, 1);
    lemma_field_at(m, 2);
    if account is Some {
        assert(m[0].0 != m[3].0) by { assert(m[0].0[0] != m[3].0[0]); }
        assert(m[1].0 != m[3].0) by { assert(m[1].0[0] != m[3].0[0]); }
        assert(m[2].0 != m[3].0) by { assert(m[2].0[0] != m[3].0[0]); }
        lemma_field_at(m, 3);
    } else {
        let k = "account"@;
        assert forall|j: int| 0 <= j < m.len() implies #[trigger] m[j].0 != k by {
            assert(m[j].0[0] != k[0]);
        }
        let m1 = m.drop_first();
        let m2 = m1.drop_first();
        let m3 = m2.drop_first();
        let m4 = m3.drop_first();
        let m5 = m4.drop_first();
        assert(m5.len() == 0);
        assert(m4[0] == m[4] && m3[0] == m[3] && m2[0] == m[2] && m1[0] == m[1]);
        assert(m[4].0 != k && m[3].0 != k && m[2].0 != k && m[1].0 != k && m[0].0 != k);
        assert(field(m5, k) is None);
        assert(field(m4, k) is None);
        assert(field(m3, k) is None);
        assert(field(m2, k) is None);
        assert(field(m1, k) is None);
    }
}

/// What `pair` reports.
pub fn pair_report(host: &str, token: &str, account: Option<&str>) -> (r: Json)
    ensures
        r@ == JsonValue::Object(pair_report_members(host@, token@, opt_str_view(account))),
{
    let mut m: Vec<(String, Json)> = Vec::new();
    assert(members_view(m@) =~= seq![]);
    push_member(&mut m, "status", Json::text("ok"));
    push_member(&mut m, "host", Json::text(host));
    push_member(&mut m, "token", Json::text(token));
    match account {
        Some(a) => {
            push_member(&mut m, "account", Json::text(a));
            push_member(&mut m, "paired", Json::Bool(true));
        },
        None => {
            push_member(&mut m, "paired", Json::Bool(true));
            let mut fix = owned("samsung-artmode accounts add living-room --host ");
            push_str(&mut fix, host);
            push_str(&mut fix, " --token ");
            push_str(&mut fix, token);
            push_member(&mut m, "remediation", Json::Str(fix));
        },
    }
    assert(members_view(m@) =~= pair_report_members(host@, token@, opt_str_view(account)));
    Json::object(m)
}

} // verus!
