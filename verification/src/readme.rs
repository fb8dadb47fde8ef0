//! The manual an agent reads before its first call: Markdown, or the same rules as
//! structured data.
use vstd::prelude::*;
use crate::json::{Json, JsonValue, items_view, members_view, push_member};
use crate::client::jstr;

verus! {

/// The version of the command-line interface that agents rely on.
pub const API_VERSION: &'static str = "1.0.0";

/// The operating manual, as Markdown.
pub const README: &'static str = "# samsung-artmode - agent operating manual

A native Rust CLI for controlling Samsung The Frame TV Art Mode over the local network.
Manage artwork, upload images, set mattes, adjust brightness, control slideshows, and pair
devices securely. Results are YAML on stdout, errors are structured on stderr, and `--json`
switches both to machine-readable JSON.

## Target Device Resolution

Pass `--account <name>` (short `-a`) or `--host <ip>` on every command.
There is no implicit fallback or guessing when multiple TVs are present.

    samsung-artmode accounts list                      # what TVs are configured
    samsung-artmode status -a living-room              # check Art Mode status
    samsung-artmode status --host 192.168.1.100        # target by IP directly

If you do not know which TV to use, run `samsung-artmode accounts list` and ask the user.

### Pairing with a New TV

    samsung-artmode pair [host] [--name <name>]

1. If no host is provided, auto-discovers Samsung TVs on the local network via SSDP.
2. Prompts the TV user to press 'Allow' on the TV screen.
3. Obtains an authentication token from the TV.
4. If `--name <name>` is provided, saves the device configuration to `config.yaml` and stores the token in the OS Keystore (Keychain, DPAPI, libsecret).

## Commands Summary

    samsung-artmode pair [host] [--name <name>]
    samsung-artmode status [-a <account> | --host <ip>]
    samsung-artmode list [-a <account> | --host <ip>] [--category <category>]
    samsung-artmode current [-a <account> | --host <ip>]
    samsung-artmode select <content-id> [--show] [-a <account> | --host <ip>]
    samsung-artmode upload <file> [--matte <matte-id>] [--select] [-a <account> | --host <ip>]
    samsung-artmode delete <content-id> [-a <account> | --host <ip>]
    samsung-artmode favorite <content-id> [--remove] [-a <account> | --host <ip>]
    samsung-artmode brightness get [-a <account> | --host <ip>]
    samsung-artmode brightness set <0-10> [-a <account> | --host <ip>]
    samsung-artmode matte list [-a <account> | --host <ip>]
    samsung-artmode matte set <content-id> <matte-id> [-a <account> | --host <ip>]
    samsung-artmode slideshow [--off] [--interval <minutes>] [--category <cat>] [--shuffle]
    samsung-artmode accounts list
    samsung-artmode accounts add <name> --host <ip> [--token <token>] [--mac <mac>] [--model <model>]
    samsung-artmode accounts test <name>
    samsung-artmode accounts remove <name> [--yes]
    samsung-artmode agent-readme [--json]

## Categories

- `MY-C0002`: My Photos (uploaded user photos)
- `MY-C0004`: Favorites
- `MY-C0008`: Samsung Art Store

## Exit Codes

    0  ok
    1  error          unclassified error - report and stop
    2  network        TV unreachable or connection dropped - verify power/network
    3  auth_required  TV rejected connection or invalid token - pair device again
    4  not_found      content ID or file not found - do not retry
    5  rate_limited   back off before trying again
    6  invalid_input  fix argument values (e.g. brightness outside 0-10)
    7  no_account     specify --account <name> or --host <ip>
";

/// The rules an agent follows.
pub open spec fn rules_view() -> Seq<Seq<char>> {
    seq![
        "Specify the target TV with --account <name> or --host <ip>. There is no implicit fallback."@,
        "Run 'samsung-artmode accounts list' first if you do not know which TVs are configured."@,
        "On code auth_required, stop and surface the remediation string. Do not retry without pairing."@,
        "Image uploads require PNG or JPEG files. Pass --select to display immediately after upload."@,
        "Matte IDs can be inspected with 'samsung-artmode matte list'."@,
        "Brightness values must be between 0 and 10."@,
        "Use --json when parsing output with jq or in an agent tool loop."@,
    ]
}

/// What each exit status means to an agent.
pub open spec fn exit_codes_view() -> Seq<(Seq<char>, JsonValue)> {
    seq![
        ("0"@, jstr("ok"@)),
        ("1"@, jstr("error - unclassified, report and stop"@)),
        ("2"@, jstr("network - retry once, then stop"@)),
        ("3"@, jstr("auth_required - stop, surface the remediation to a human"@)),
        ("4"@, jstr("not_found - do not retry"@)),
        ("5"@, jstr("rate_limited - back off before retrying"@)),
        ("6"@, jstr("invalid_input - fix the call arguments"@)),
        ("7"@, jstr("no_account - pass --account or --host, or run samsung-artmode accounts list"@)),
    ]
}

/// The manual as structured data.
pub open spec fn manual_view() -> JsonValue {
    JsonValue::Object(
        seq![
            ("tool"@, jstr("samsung-artmode"@)),
            ("apiVersion"@, jstr(API_VERSION@)),
            ("rules"@, JsonValue::Array(rules_view().map_values(|r: Seq<char>| jstr(r)))),
            ("exitCodes"@, JsonValue::Object(exit_codes_view())),
        ],
    )
}

/// The rules an agent follows, in order.
pub fn rules() -> (r: Vec<&'static str>)
    ensures
        r@.map_values(|s: &'static str| s@) == rules_view(),
{
    let r = vec![
        "Specify the target TV with --account <name> or --host <ip>. There is no implicit fallback.",
        "Run 'samsung-artmode accounts list' first if you do not know which TVs are configured.",
        "On code auth_required, stop and surface the remediation string. Do not retry without pairing.",
        "Image uploads require PNG or JPEG files. Pass --select to display immediately after upload.",
        "Matte IDs can be inspected with 'samsung-artmode matte list'.",
        "Brightness values must be between 0 and 10.",
        "Use --json when parsing output with jq or in an agent tool loop.",
    ];
    assert(r@.map_values(|s: &'static str| s@) =~= rules_view());
    r
}

fn exit_codes() -> (r: Json)
    ensures
        r@ == JsonValue::Object(exit_codes_view()),
{
    let mut m: Vec<(String, Json)> = Vec::new();
    assert(members_view(m@) =~= seq![]);
    push_member(&mut m, "0", Json::text("ok"));
    push_member(&mut m, "1", Json::text("error - unclassified, report and stop"));
    push_member(&mut m, "2", Json::text("network - retry once, then stop"));
    push_member(&mut m, "3", Json::text("auth_required - stop, surface the remediation to a human"));
    push_member(&mut m, "4", Json::text("not_found - do not retry"));
    push_member(&mut m, "5", Json::text("rate_limited - back off before retrying"));
    push_member(&mut m, "6", Json::text("invalid_input - fix the call arguments"));
    push_member(
        &mut m,
        "7",
        Json::text("no_account - pass --account or --host, or run samsung-artmode accounts list"),
    );
    assert(members_view(m@) =~= exit_codes_view());
    Json::object(m)
}

/// The manual as structured data: the tool, the interface version, the rules and what the
/// exit statuses mean.
pub fn manual_json() -> (r: Json)
    ensures
        r@ == manual_view(),
{
    let rs = rules();
    let mut items: Vec<Json> = Vec::new();
    let mut i: usize = 0;
    while i < rs.len()
        invariant
            i <= rs@.len(),
            items@.len() == i,
            rs@.map_values(|s: &'static str| s@) == rules_view(),
            forall|k: int| 0 <= k < i ==> #[trigger] items@[k]@ == jstr(rs@[k]@),
        decreases rs@.len() - i,
    {
        items.push(Json::text(rs[i]));
        i += 1;
    }
    assert(items_view(items@) =~= rules_view().map_values(|r: Seq<char>| jstr(r))) by {
        assert forall|k: int| 0 <= k < items@.len() implies items_view(items@)[k]
            == rules_view().map_values(|r: Seq<char>| jstr(r))[k] by {
            assert(rs@.map_values(|s: &'static str| s@)[k] == rs@[k]@);
        }
    }
    let mut m: Vec<(String, Json)> = Vec::new();
    assert(members_view(m@) =~= seq![]);
    push_member(&mut m, "tool", Json::text("samsung-artmode"));
    push_member(&mut m, "apiVersion", Json::text(API_VERSION));
    push_member(&mut m, "rules", Json::array(items));
    push_member(&mut m, "exitCodes", exit_codes());
    assert(members_view(m@) =~= seq![
        ("tool"@, jstr("samsung-artmode"@)),
        ("apiVersion"@, jstr(API_VERSION@)),
        ("rules"@, JsonValue::Array(rules_view().map_values(|r: Seq<char>| jstr(r)))),
        ("exitCodes"@, JsonValue::Object(exit_codes_view())),
    ]);
    Json::object(m)
}

} // verus!
