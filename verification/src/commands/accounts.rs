//! The account commands: what they do to the configured accounts and what they report.
use vstd::prelude::*;
use crate::account::{
    AccountConfig, AccountView, Config, given, index_of, inserted, is_sorted_order, opt_str_view,
    removed,
};
use crate::client::jstr;
use crate::error::{Error, ErrorCode, ErrorView, opt_view};
use crate::json::{Json, JsonValue, field, get, items_view, lemma_field_at, members_view, push_member};
use crate::text::{is_blank, owned, push_str, trim, trimmed};

verus! {

broadcast use vstd::string::group_string_axioms;

/// A text member that is `null` when empty.
pub open spec fn text_or_null(s: Seq<char>) -> JsonValue {
    if s.len() == 0 {
        JsonValue::Null
    } else {
        jstr(s)
    }
}

/// How `accounts list` shows one account.
pub open spec fn account_entry(name: Seq<char>, a: AccountView) -> JsonValue {
    JsonValue::Object(
        seq![
            ("name"@, jstr(name)),
            ("host"@, jstr(a.host)),
            ("mac"@, text_or_null(a.mac)),
            ("model"@, text_or_null(a.model)),
            ("addedAt"@, jstr(a.added_at)),
        ],
    )
}

/// The entries of the accounts at the positions `idx`.
pub open spec fn listed_entries(v: Seq<(Seq<char>, AccountView)>, idx: Seq<usize>) -> Seq<JsonValue> {
    Seq::new(idx.len(), |k: int| account_entry(v[idx[k] as int].0, v[idx[k] as int].1))
}

/// How `accounts list` shows an account's MAC address and model: the stored text when
/// there is any, `null` only when it is empty; its name and host as stored.
pub proof fn lemma_account_entry_fields(name: Seq<char>, a: AccountView)
    ensures
        get(account_entry(name, a), "mac"@) == Some(
            if a.mac.len() > 0 {
                JsonValue::Str(a.mac)
            } else {
                JsonValue::Null
            },
        ),
        get(account_entry(name, a), "model"@) == Some(
            if a.model.len() > 0 {
                JsonValue::Str(a.model)
            } else {
                JsonValue::Null
            },
        ),
        get(account_entry(name, a), "name"@) == Some(JsonValue::Str(name)),
        get(account_entry(name, a), "host"@) == Some(JsonValue::Str(a.host)),
{
    reveal_strlit("name");
    reveal_strlit("host");
    reveal_strlit("mac");
    reveal_strlit("model");
    let m = account_entry(name, a)->Object_0;
    let m1 = m.drop_first();
    let m2 = m1.drop_first();
    let m3 = m2.drop_first();
    assert(m1[0] == m[1] && m2[0] == m[2] && m3[0] == m[3]);
    assert(m[0].0 != "host"@) by {
        assert(m[0].0[0] != "host"@[0]);
    }
    assert(m[0].0 != "mac"@) by {
        assert(m[0].0[0] != "mac"@[0]);
    }
    assert(m[0].0 != "model"@) by {
        assert(m[0].0[0] != "model"@[0]);
    }
    assert(m[1].0 != "mac"@) by {
        assert(m[1].0[0] != "mac"@[0]);
    }
    assert(m[1].0 != "model"@) by {
        assert(m[1].0[0] != "model"@[0]);
    }
    assert(m[2].0 != "model"@) by {
        assert(m[2].0[1] != "model"@[1]);
    }
    assert(field(m3, "model"@) == Some(m[3].1));
    assert(field(m2, "model"@) == Some(m[3].1));
    assert(field(m1, "model"@) == Some(m[3].1));
    assert(field(m2, "mac"@) == Some(m[2].1));
    assert(field(m1, "mac"@) == Some(m[2].1));
    assert(field(m1, "host"@) == Some(m[1].1));
}

/// Every account `accounts list` shows carries its own MAC address, model, name and host.
pub proof fn lemma_listed_fields(v: Seq<(Seq<char>, AccountView)>, idx: Seq<usize>, k: int)
    requires
        0 <= k < idx.len(),
    ensures
        get(listed_entries(v, idx)[k], "mac"@) == Some(
            if v[idx[k] as int].1.mac.len() > 0 {
                JsonValue::Str(v[idx[k] as int].1.mac)
            } else {
                JsonValue::Null
            },
        ),
        get(listed_entries(v, idx)[k], "model"@) == Some(
            if v[idx[k] as int].1.model.len() > 0 {
                JsonValue::Str(v[idx[k] as int].1.model)
            } else {
                JsonValue::Null
            },
        ),
        get(listed_entries(v, idx)[k], "name"@) == Some(JsonValue::Str(v[idx[k] as int].0)),
        get(listed_entries(v, idx)[k], "host"@) == Some(JsonValue::Str(v[idx[k] as int].1.host)),
{
    lemma_account_entry_fields(v[idx[k] as int].0, v[idx[k] as int].1);
}

fn text_or_null_json(s: &String) -> (r: Json)
    ensures
        r@ == text_or_null(s@),
{
    if s.as_str().unicode_len() == 0 {
        Json::Null
    } else {
        Json::text(s.as_str())
    }
}

fn entry_json(name: &String, a: &AccountConfig) -> (r: Json)
    ensures
        r@ == account_entry(name@, a@),
        get(r@, "mac"@) == Some(if a.mac@.len() > 0 { JsonValue::Str(a.mac@) } else { JsonValue::Null }),
{
    proof {
        lemma_account_entry_fields(name@, a@);
    }
    let mut m: Vec<(String, Json)> = Vec::new();
    assert(members_view(m@) =~= seq![]);
    push_member(&mut m, "name", Json::text(name.as_str()));
    push_member(&mut m, "host", Json::text(a.host.as_str()));
    push_member(&mut m, "mac", text_or_null_json(&a.mac));
    push_member(&mut m, "model", text_or_null_json(&a.model));
    push_member(&mut m, "addedAt", Json::text(a.added_at.as_str()));
    assert(members_view(m@) =~= seq![
        ("name"@, jstr(name@)),
        ("host"@, jstr(a@.host)),
        ("mac"@, text_or_null(a@.mac)),
        ("model"@, text_or_null(a@.model)),
        ("addedAt"@, jstr(a@.added_at)),
    ]);
    Json::object(m)
}

/// `accounts list`: the configured accounts by name, as `{"accounts": [...]}`.
pub fn list(config: &Config) -> (r: Json)
    ensures
        exists|idx: Seq<usize>|
            is_sorted_order(config@, idx) && r@ == JsonValue::Object(
                seq![("accounts"@, JsonValue::Array(listed_entries(config@, idx)))],
            ) && forall|k: int|
                0 <= k < idx.len() ==> get(#[trigger] listed_entries(config@, idx)[k], "mac"@) == Some(
                    if config@[idx[k] as int].1.mac.len() > 0 {
                        JsonValue::Str(config@[idx[k] as int].1.mac)
                    } else {
                        JsonValue::Null
                    },
                ),
{
    let idx = config.sorted();
    let ghost v = config@;
    let mut items: Vec<Json> = Vec::new();
    let mut i: usize = 0;
    while i < idx.len()
        invariant
            v == config@,
            is_sorted_order(v, idx@),
            i <= idx@.len(),
            items@.len() == i,
            items_view(items@) == listed_entries(v, idx@.subrange(0, i as int)),
        decreases idx@.len() - i,
    {
        let (name, acct) = config.entry(idx[i]);
        let e = entry_json(name, acct);
        let ghost before = items@;
        items.push(e);
        proof {
            let want = listed_entries(v, idx@.subrange(0, i + 1));
            let had = listed_entries(v, idx@.subrange(0, i as int));
            assert forall|k: int| 0 <= k < i + 1 implies #[trigger] items_view(items@)[k] == want[k] by {
                if k < i {
                    assert(items@[k] == before[k]);
                    assert(items_view(before)[k] == had[k]);
                } else {
                    assert(items@[k] == e);
                }
            }
            assert(items_view(items@) =~= want);
        }
        i += 1;
    }
    assert(idx@.subrange(0, idx@.len() as int) == idx@);
    assert forall|k: int| 0 <= k < idx@.len() implies get(
        #[trigger] listed_entries(v, idx@)[k],
        "mac"@,
    ) == Some(
        if v[idx@[k] as int].1.mac.len() > 0 {
            JsonValue::Str(v[idx@[k] as int].1.mac)
        } else {
            JsonValue::Null
        },
    ) by {
        lemma_listed_fields(v, idx@, k);
    }
    let mut m: Vec<(String, Json)> = Vec::new();
    assert(members_view(m@) =~= seq![]);
    push_member(&mut m, "accounts", Json::array(items));
    assert(members_view(m@) =~= seq![("accounts"@, JsonValue::Array(listed_entries(v, idx@)))]);
    Json::object(m)
}

/// An optional value, trimmed, or empty when absent.
pub open spec fn trimmed_or_empty(s: Option<Seq<char>>) -> Seq<char> {
    match s {
        Some(t) => trim(t),
        None => Seq::empty(),
    }
}

fn trimmed_or_empty_value(s: Option<&str>) -> (r: String)
    ensures
        r@ == trimmed_or_empty(opt_str_view(s)),
{
    match s {
        Some(t) => trimmed(t),
        None => String::new(),
    }
}

fn given_value(v: Option<&str>) -> (r: Option<String>)
    ensures
        opt_view(r) == given(opt_str_view(v)),
{
    match v {
        Some(s) => if is_blank(s) {
            None
        } else {
            Some(trimmed(s))
        },
        None => None,
    }
}

/// What `accounts add` leaves to be done outside: the token to keep in the keystore (when
/// one is given), and the report.
#[derive(Debug)]
pub struct Added {
    pub store_token: Option<String>,
    pub report: Json,
}

/// The account `accounts add` saves: host, MAC address and model trimmed.
pub open spec fn added_account(host: Seq<char>, mac: Option<Seq<char>>, model: Option<Seq<char>>, added_at: Seq<char>) -> AccountView {
    AccountView {
        host: trim(host),
        mac: trimmed_or_empty(mac),
        model: trimmed_or_empty(model),
        added_at,
    }
}

/// What `accounts add` reports: the host as given, and whether a token was given.
pub open spec fn added_report(name: Seq<char>, host: Seq<char>, token_given: bool) -> JsonValue {
    JsonValue::Object(
        seq![
            ("status"@, jstr("ok"@)),
            ("account"@, jstr(name)),
            ("host"@, jstr(host)),
            ("tokenConfigured"@, JsonValue::Bool(token_given)),
        ],
    )
}

/// After `accounts add`, the name finds the account added: its host and, when given, its
/// MAC address and model trimmed (empty when not given), stamped with the time given; and
/// the report names the account, repeats the host as given and says whether a token was
/// given.
pub proof fn lemma_added(
    v: Seq<(Seq<char>, AccountView)>,
    name: Seq<char>,
    host: Seq<char>,
    mac: Option<Seq<char>>,
    model: Option<Seq<char>>,
    added_at: Seq<char>,
    token_given: bool,
)
    requires
        crate::account::names_unique(v),
    ensures
        ({
            let nv = inserted(v, name, added_account(host, mac, model, added_at));
            index_of(nv, name) matches Some(i) && nv[i].1.host == trim(host) && nv[i].1.mac == (
            if mac is Some {
                trim(mac->Some_0)
            } else {
                Seq::<char>::empty()
            }) && nv[i].1.model == (if model is Some {
                trim(model->Some_0)
            } else {
                Seq::<char>::empty()
            }) && nv[i].1.added_at == added_at
        }),
        get(added_report(name, host, token_given), "account"@) == Some(JsonValue::Str(name)),
        get(added_report(name, host, token_given), "host"@) == Some(JsonValue::Str(host)),
        get(added_report(name, host, token_given), "tokenConfigured"@) == Some(
            JsonValue::Bool(token_given),
        ),
{
    crate::account::lemma_find_after_insert(v, name, added_account(host, mac, model, added_at), name);
    reveal_strlit("status");
    reveal_strlit("account");
    reveal_strlit("host");
    reveal_strlit("tokenConfigured");
    let m = added_report(name, host, token_given)->Object_0;
    assert(m[0].0 != m[1].0) by { assert(m[0].0[0] != m[1].0[0]); }
    assert(m[0].0 != m[2].0) by { assert(m[0].0[0] != m[2].0[0]); }
    assert(m[1].0 != m[2].0) by { assert(m[1].0[0] != m[2].0[0]); }
    assert(m[0].0 != m[3].0) by { assert(m[0].0[0] != m[3].0[0]); }
    assert(m[1].0 != m[3].0) by { assert(m[1].0[0] != m[3].0[0]); }
    assert(m[2].0 != m[3].0) by { assert(m[2].0[0] != m[3].0[0]); }
    lemma_field_at(m, 1);
    lemma_field_at(m, 2);
    lemma_field_at(m, 3);
}

/// After `accounts remove`, the name finds no account; the report names the account
/// removed.
pub proof fn lemma_removed(v: Seq<(Seq<char>, AccountView)>, name: Seq<char>, stored: Seq<char>)
    requires
        crate::account::names_unique(v),
    ensures
        index_of(removed(v, name), name) is None,
        get(JsonValue::Object(seq![("status"@, jstr("ok"@)), ("removed"@, jstr(stored))]), "removed"@)
            == Some(JsonValue::Str(stored)),
{
    crate::account::lemma_find_after_remove(v, name, name);
    reveal_strlit("status");
    reveal_strlit("removed");
    let m = seq![("status"@, jstr("ok"@)), ("removed"@, jstr(stored))];
    assert(m[0].0 != m[1].0) by { assert(m[0].0[0] != m[1].0[0]); }
    lemma_field_at(m, 1);
}

/// The error for adding an account whose name is taken, without `--force`.
pub open spec fn exists_error(name: Seq<char>) -> ErrorView {
    ErrorView {
        code: ErrorCode::InvalidInput,
        message: "Account '"@ + name + "' already exists. Pass --force to replace it."@,
        detail: None,
        remediation: None,
    }
}

/// `accounts add`: adds the account `name` (replacing one of that name only with
/// `force`), stamped `added_at`. The token, when given and not blank, is to be kept in the
/// keystore, trimmed.
pub fn add(
    config: &mut Config,
    name: &str,
    host: &str,
    token: Option<&str>,
    mac: Option<&str>,
    model: Option<&str>,
    force: bool,
    added_at: String,
) -> (r: Result<Added, Error>)
    ensures
        (!force && index_of(old(config)@, name@) is Some) ==> (r matches Err(e) && e@ == exists_error(
            name@,
        ) && final(config)@ == old(config)@),
        (force || index_of(old(config)@, name@) is None) ==> (r matches Ok(a) && final(config)@
            == inserted(
            old(config)@,
            name@,
            added_account(host@, opt_str_view(mac), opt_str_view(model), added_at@),
        ) && opt_view(a.store_token) == given(opt_str_view(token)) && a.report@ == added_report(
            name@,
            host@,
            token is Some,
        )),
{
    if !force && config.find(name).is_some() {
        let mut msg = owned("Account '");
        push_str(&mut msg, name);
        push_str(&mut msg, "' already exists. Pass --force to replace it.");
        return Err(Error::invalid(msg));
    }
    let store_token = given_value(token);
    let acct = AccountConfig {
        host: trimmed(host),
        mac: trimmed_or_empty_value(mac),
        model: trimmed_or_empty_value(model),
        added_at,
    };
    config.insert(owned(name), acct);
    let mut m: Vec<(String, Json)> = Vec::new();
    assert(members_view(m@) =~= seq![]);
    push_member(&mut m, "status", Json::text("ok"));
    push_member(&mut m, "account", Json::text(name));
    push_member(&mut m, "host", Json::text(host));
    push_member(&mut m, "tokenConfigured", Json::Bool(token.is_some()));
    assert(members_view(m@) =~= seq![
        ("status"@, jstr("ok"@)),
        ("account"@, jstr(name@)),
        ("host"@, jstr(host@)),
        ("tokenConfigured"@, JsonValue::Bool(token is Some)),
    ]);
    Ok(Added { store_token, report: Json::object(m) })
}

/// The error for a name that no account has.
pub open spec fn unknown_name_error(name: Seq<char>) -> ErrorView {
    ErrorView {
        code: ErrorCode::NotFound,
        message: "No TV account named '"@ + name + "'."@,
        detail: None,
        remediation: Some("samsung-artmode accounts list"@),
    }
}

fn unknown_name(name: &str) -> (e: Error)
    ensures
        e@ == unknown_name_error(name@),
{
    let mut msg = owned("No TV account named '");
    push_str(&mut msg, name);
    push_str(&mut msg, "'.");
    Error::new(ErrorCode::NotFound, msg).fix(owned("samsung-artmode accounts list"))
}

/// `accounts test`: the stored name and host of the account to connect to (the connection
/// and the report, `test_report`, follow).
pub fn test(config: &Config, name: &str) -> (r: Result<(String, String), Error>)
    ensures
        match index_of(config@, name@) {
            Some(i) => r matches Ok((n, h)) && n@ == config@[i].0 && h@ == config@[i].1.host,
            None => r matches Err(e) && e@ == unknown_name_error(name@),
        },
{
    match config.find(name) {
        Some((n, a)) => Ok((n.clone(), a.host.clone())),
        None => Err(unknown_name(name)),
    }
}

/// What `accounts test` reports, with the TV's answer to the status request.
pub fn test_report(name: &str, host: &str, tv_status: Json) -> (r: Json)
    ensures
        r@ == JsonValue::Object(
            seq![
                ("status"@, jstr("ok"@)),
                ("account"@, jstr(name@)),
                ("host"@, jstr(host@)),
                ("connected"@, JsonValue::Bool(true)),
                ("tvStatus"@, tv_status@),
            ],
        ),
{
    let ghost s = tv_status@;
    let mut m: Vec<(String, Json)> = Vec::new();
    assert(members_view(m@) =~= seq![]);
    push_member(&mut m, "status", Json::text("ok"));
    push_member(&mut m, "account", Json::text(name));
    push_member(&mut m, "host", Json::text(host));
    push_member(&mut m, "connected", Json::Bool(true));
    push_member(&mut m, "tvStatus", tv_status);
    assert(members_view(m@) =~= seq![
        ("status"@, jstr("ok"@)),
        ("account"@, jstr(name@)),
        ("host"@, jstr(host@)),
        ("connected"@, JsonValue::Bool(true)),
        ("tvStatus"@, s),
    ]);
    Json::object(m)
}

/// The question `accounts remove` prints without `--yes`. It is a notice only: the
/// removal goes on whether or not it was printed, as the command always did.
pub open spec fn removal_question(name: Seq<char>) -> Seq<char> {
    "Are you sure you want to remove TV account '"@ + name + "'? Pass --yes to confirm."@
}

/// What `accounts remove` prints before it removes: the question, unless `--yes` skips it.
pub fn removal_prompt(name: &str, yes: bool) -> (r: Option<String>)
    ensures
        yes ==> r is None,
        !yes ==> (r matches Some(q) && q@ == removal_question(name@)),
{
    if yes {
        return None;
    }
    let mut q = owned("Are you sure you want to remove TV account '");
    push_str(&mut q, name);
    push_str(&mut q, "'? Pass --yes to confirm.");
    Some(q)
}

/// `accounts remove`: removes the account `name`; its stored name (whose token is to be
/// deleted from the keystore) and the report. An unknown name is `not_found` and changes
/// nothing.
pub fn remove(config: &mut Config, name: &str) -> (r: Result<(String, Json), Error>)
    ensures
        match index_of(old(config)@, name@) {
            Some(i) => r matches Ok((n, rep)) && n@ == old(config)@[i].0 && final(config)@ == removed(
                old(config)@,
                name@,
            ) && rep@ == JsonValue::Object(seq![("status"@, jstr("ok"@)), ("removed"@, jstr(n@))]),
            None => r matches Err(e) && e@ == unknown_name_error(name@) && final(config)@ == old(config)@,
        },
{
    let stored = match config.find(name) {
        Some((n, _)) => n.clone(),
        None => return Err(unknown_name(name)),
    };
    config.shift_remove(stored.as_str());
    let mut m: Vec<(String, Json)> = Vec::new();
    assert(members_view(m@) =~= seq![]);
    push_member(&mut m, "status", Json::text("ok"));
    push_member(&mut m, "removed", Json::text(stored.as_str()));
    assert(members_view(m@) =~= seq![("status"@, jstr("ok"@)), ("removed"@, jstr(stored@))]);
    Ok((stored, Json::object(m)))
}

} // verus!
