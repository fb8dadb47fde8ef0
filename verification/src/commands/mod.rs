//! Command dispatch: what each command of the command line comes to.
pub mod accounts;
pub mod art;

use vstd::prelude::*;
use crate::cli::{Accounts, Brightness, Command, Matte};
use crate::client::{ArtRequest, ArtRequestView, jstr};
use crate::error::{Error, ErrorView, opt_view};
use crate::json::{Json, JsonValue, members_view, push_member};


verus! {

broadcast use vstd::string::group_string_axioms;

/// The global flags that name the TV a command talks to.
#[derive(Debug)]
pub struct Target {
    pub account: Option<String>,
    pub host: Option<String>,
    pub token: Option<String>,
}

/// The target flags, as given.
pub open spec fn target_is(t: Target, account: Option<String>, host: Option<String>, token: Option<String>) -> bool {
    &&& opt_view(t.account) == opt_view(account)
    &&& opt_view(t.host) == opt_view(host)
    &&& opt_view(t.token) == opt_view(token)
}

/// What a command comes to.
#[derive(Debug)]
pub enum Action {
    /// Print the operating manual.
    AgentReadme,
    /// Pair with the TV at `host` (found on the network when absent or blank).
    Pair { host: Option<String>, name: Option<String>, timeout: u64 },
    /// Send `request` to the target TV and print its answer.
    Ask { target: Target, request: ArtRequest },
    /// Send `request` to the target TV and report the artwork deleted.
    Delete { target: Target, request: ArtRequest, content_id: String },
    /// Upload the file to the target TV, with a matte, and select it if asked.
    Upload { target: Target, file: String, matte: Option<String>, select: bool },
    /// List the configured accounts.
    AccountsList,
    /// Add (or, forced, replace) a configured account.
    AccountsAdd {
        name: String,
        host: String,
        token: Option<String>,
        mac: Option<String>,
        model: Option<String>,
        force: bool,
    },
    /// Test the connection to a configured account.
    AccountsTest { name: String },
    /// Remove a configured account.
    AccountsRemove { name: String, yes: bool },
}

/// The request of the art function a TV command goes to, the function of the same name:
/// `status`, `list`, `current`, `select`, `favorite`, `brightness_get`, `brightness_set`
/// (when the value is at most 10), `matte_list`, `matte_set` and `slideshow`, given the
/// command's fields in order. Other commands send no such request.
pub open spec fn art_request_of(command: Command) -> Option<ArtRequestView> {
    match command {
        Command::Status => Some(art::status_request()),
        Command::List { category } => Some(art::list_request(opt_view(category))),
        Command::Current => Some(art::current_request()),
        Command::Select { content_id, show } => Some(art::select_request(content_id@, show)),
        Command::Favorite { content_id, remove } => Some(art::favorite_request(content_id@, remove)),
        Command::Brightness(Brightness::Get) => Some(art::brightness_get_request()),
        Command::Brightness(Brightness::Change { value }) => if value <= 10 {
            Some(art::brightness_set_request(value))
        } else {
            None
        },
        Command::Matte(Matte::List) => Some(art::matte_list_request()),
        Command::Matte(Matte::Apply { content_id, matte_id }) => Some(
            art::matte_set_request(content_id@, matte_id@),
        ),
        Command::Slideshow { off, interval, category, shuffle } => Some(
            art::slideshow_request(off, interval, category@, shuffle),
        ),
        _ => None,
    }
}

fn opt_as_str(s: &Option<String>) -> (r: Option<&str>)
    ensures
        match s {
            Some(t) => r matches Some(u) && u@ == t@,
            None => r is None,
        },
{
    match s {
        Some(t) => Some(t.as_str()),
        None => None,
    }
}

/// What a command comes to, with the global target flags `account`, `host` and `token`.
/// Each TV command asks the TV what the art function of the same name builds
/// (`art_request_of`); the one command refused here is `brightness set` with a value above
/// 10, as `brightness_set` refuses it.
pub fn run(command: Command, account: Option<String>, host: Option<String>, token: Option<String>) -> (r: Result<Action, Error>)
    ensures
        art_request_of(command) matches Some(q) ==> (r matches Ok(Action::Ask { target, request })
            && target_is(target, account, host, token) && request@ == q),
        (command matches Command::Brightness(Brightness::Change { value }) && value > 10) ==> (
        r matches Err(e) && e@ == art::brightness_range_error()),
        command is AgentReadme ==> r matches Ok(Action::AgentReadme),
        command matches Command::Pair { host: h, name, timeout } ==> (r matches Ok(
            Action::Pair { host: ph, name: n, timeout: t },
        ) && opt_view(ph) == (if h is Some { opt_view(h) } else { opt_view(host) })
            && opt_view(n) == opt_view(name) && t == timeout),
        command matches Command::Login { host: h, name, timeout } ==> (r matches Ok(
            Action::Pair { host: ph, name: n, timeout: t },
        ) && opt_view(ph) == (if h is Some { opt_view(h) } else { opt_view(host) })
            && opt_view(n) == opt_view(name) && t == timeout),
        command matches Command::Delete { content_id } ==> (r matches Ok(
            Action::Delete { target, request, content_id: c },
        ) && target_is(target, account, host, token) && c@ == content_id@ && request@
            == art::delete_request(content_id@)),
        command matches Command::Upload { file, matte, select } ==> (r matches Ok(
            Action::Upload { target, file: f, matte: m, select: s },
        ) && target_is(target, account, host, token) && f@ == file@ && opt_view(m) == opt_view(matte)
            && s == select),
        command matches Command::Accounts(Accounts::List) ==> r matches Ok(Action::AccountsList),
        command matches Command::Accounts(Accounts::Add { name, host: h, token: t, mac, model, force }) ==> (
        r matches Ok(Action::AccountsAdd { name: n2, host: h2, token: t2, mac: m2, model: o2, force: f2 })
            && n2@ == name@ && h2@ == h@ && opt_view(t2) == opt_view(t) && opt_view(m2) == opt_view(mac)
            && opt_view(o2) == opt_view(model) && f2 == force),
        command matches Command::Accounts(Accounts::Test { name }) ==> (r matches Ok(
            Action::AccountsTest { name: n2 },
        ) && n2@ == name@),
        command matches Command::Accounts(Accounts::Remove { name, yes }) ==> (r matches Ok(
            Action::AccountsRemove { name: n2, yes: y2 },
        ) && n2@ == name@ && y2 == yes),
{
    let target = Target { account, host: host.clone(), token };
    match command {
        Command::AgentReadme => Ok(Action::AgentReadme),
        Command::Pair { host: h, name, timeout } | Command::Login { host: h, name, timeout } => {
            let ph = match h {
                Some(p) => Some(p),
                None => host,
            };
            Ok(Action::Pair { host: ph, name, timeout })
        },
        Command::Status => Ok(Action::Ask { target, request: art::status() }),
        Command::List { category } => Ok(
            Action::Ask { target, request: art::list(opt_as_str(&category)) },
        ),
        Command::Current => Ok(Action::Ask { target, request: art::current() }),
        Command::Select { content_id, show } => Ok(
            Action::Ask { target, request: art::select(content_id.as_str(), show) },
        ),
        Command::Upload { file, matte, select } => Ok(Action::Upload { target, file, matte, select }),
        Command::Delete { content_id } => {
            let request = art::delete(content_id.as_str());
            Ok(Action::Delete { target, request, content_id })
        },
        Command::Favorite { content_id, remove } => Ok(
            Action::Ask { target, request: art::favorite(content_id.as_str(), remove) },
        ),
        Command::Brightness(b) => match b {
            Brightness::Get => Ok(Action::Ask { target, request: art::brightness_get() }),
            Brightness::Change { value } => {
                let request = art::brightness_set(value)?;
                Ok(Action::Ask { target, request })
            },
        },
        Command::Matte(m) => match m {
            Matte::List => Ok(Action::Ask { target, request: art::matte_list() }),
            Matte::Apply { content_id, matte_id } => Ok(
                Action::Ask {
                    target,
                    request: art::matte_set(content_id.as_str(), matte_id.as_str()),
                },
            ),
        },
        Command::Slideshow { off, interval, category, shuffle } => Ok(
            Action::Ask { target, request: art::slideshow(off, interval, category.as_str(), shuffle) },
        ),
        Command::Accounts(a) => match a {
            Accounts::List => Ok(Action::AccountsList),
            Accounts::Add { name, host: h, token: t, mac, model, force } => Ok(
                Action::AccountsAdd { name, host: h, token: t, mac, model, force },
            ),
            Accounts::Test { name } => Ok(Action::AccountsTest { name }),
            Accounts::Remove { name, yes } => Ok(Action::AccountsRemove { name, yes }),
        },
    }
}

/// The error envelope: the code's name and the message, then the detail and the
/// remediation when there are any.
pub open spec fn error_members(e: ErrorView) -> Seq<(Seq<char>, JsonValue)> {
    let base = seq![
        ("code"@, jstr(crate::error::code_name(e.code))),
        ("message"@, jstr(e.message)),
    ];
    let with_detail = match e.detail {
        Some(d) => base.push(("detail"@, jstr(d))),
        None => base,
    };
    match e.remediation {
        Some(r) => with_detail.push(("remediation"@, jstr(r))),
        None => with_detail,
    }
}

/// A failure is reported under its code's name, with its message, and with its
/// remediation when it has one.
pub proof fn lemma_error_report_fields(e: ErrorView)
    ensures
        crate::json::get(JsonValue::Object(error_members(e)), "code"@) == Some(
            JsonValue::Str(crate::error::code_name(e.code)),
        ),
        crate::json::get(JsonValue::Object(error_members(e)), "message"@) == Some(JsonValue::Str(e.message)),
        e.remediation matches Some(r) ==> crate::json::get(JsonValue::Object(error_members(e)), "remediation"@)
            == Some(JsonValue::Str(r)),
{
    reveal_strlit("code");
    reveal_strlit("message");
    reveal_strlit("detail");
    reveal_strlit("remediation");
    let m = error_members(e);
    assert(m[0].0 != m[1].0) by { assert(m[0].0[0] != m[1].0[0]); }
    crate::json::lemma_field_at(m, 0);
    crate::json::lemma_field_at(m, 1);
    if e.remediation is Some {
        let last = m.len() - 1;
        assert forall|j: int| 0 <= j < last implies #[trigger] m[j].0 != m[last].0 by {
            assert(m[j].0[0] != m[last].0[0]);
        }
        crate::json::lemma_field_at(m, last);
    }
}

/// How a failure is reported.
pub fn error_report(e: &Error) -> (r: Json)
    ensures
        r@ == JsonValue::Object(error_members(e@)),
{
    let mut m: Vec<(String, Json)> = Vec::new();
    assert(members_view(m@) =~= seq![]);
    push_member(&mut m, "code", Json::text(e.code.name()));
    push_member(&mut m, "message", Json::text(e.message.as_str()));
    match &e.detail {
        Some(d) => push_member(&mut m, "detail", Json::text(d.as_str())),
        None => {},
    }
    match &e.remediation {
        Some(f) => push_member(&mut m, "remediation", Json::text(f.as_str())),
        None => {},
    }
    assert(members_view(m@) =~= error_members(e@));
    Json::object(m)
}

} // verus!
