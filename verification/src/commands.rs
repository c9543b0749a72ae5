//! The `gws` argument lists behind each `gwx` command.

use vstd::prelude::*;
use vstd::string::*;
use crate::text;
use crate::text::decimal_string;
use crate::draft::draft_create_json;

verus! {

/// `gwx mail list [n]`: the unread summary, `gws gmail +triage --max <n>`.
pub fn mail_list_args(n: u32) -> (args: Vec<String>)
    ensures
        text::views(args@) == seq!["gmail"@, "+triage"@, "--max"@, text::decimal(n as nat)],
{
    let mut args: Vec<String> = Vec::new();
    args.push(String::from_str("gmail"));
    args.push(String::from_str("+triage"));
    args.push(String::from_str("--max"));
    args.push(decimal_string(n));
    assert(text::views(args@) =~= seq!["gmail"@, "+triage"@, "--max"@, text::decimal(n as nat)]);
    args
}

/// `gwx mail read <id>`: `gws gmail +read --id <id>`.
pub fn mail_read_args(id: &str) -> (args: Vec<String>)
    ensures
        text::views(args@) == seq!["gmail"@, "+read"@, "--id"@, id@],
{
    let mut args: Vec<String> = Vec::new();
    args.push(String::from_str("gmail"));
    args.push(String::from_str("+read"));
    args.push(String::from_str("--id"));
    args.push(String::from_str(id));
    assert(text::views(args@) =~= seq!["gmail"@, "+read"@, "--id"@, id@]);
    args
}

/// `gwx mail draft`: `gws gmail users drafts create --json <json>` for the draft whose
/// raw form is `raw`. It creates a draft; nothing is sent.
pub fn mail_draft_args(raw: &str) -> (args: Vec<String>)
    ensures
        text::views(args@) == seq![
            "gmail"@,
            "users"@,
            "drafts"@,
            "create"@,
            "--json"@,
            "'{\"message\":{\"raw\":\""@ + raw@ + "\"}}'"@,
        ],
{
    let mut args: Vec<String> = Vec::new();
    args.push(String::from_str("gmail"));
    args.push(String::from_str("users"));
    args.push(String::from_str("drafts"));
    args.push(String::from_str("create"));
    args.push(String::from_str("--json"));
    args.push(draft_create_json(raw));
    assert(text::views(args@) =~= seq![
        "gmail"@,
        "users"@,
        "drafts"@,
        "create"@,
        "--json"@,
        "'{\"message\":{\"raw\":\""@ + raw@ + "\"}}'"@,
    ]);
    args
}

/// `gwx drive ls [query]`: `gws drive files list --params '{"q":"<query>","pageSize":20}'`.
pub fn drive_ls_args(query: &str) -> (args: Vec<String>)
    ensures
        text::views(args@) == seq![
            "drive"@,
            "files"@,
            "list"@,
            "--params"@,
            "'{\"q\":\""@ + query@ + "\",\"pageSize\":20}'"@,
        ],
{
    let mut params = String::from_str("'{\"q\":\"");
    params.append(query);
    params.append("\",\"pageSize\":20}'");
    let mut args: Vec<String> = Vec::new();
    args.push(String::from_str("drive"));
    args.push(String::from_str("files"));
    args.push(String::from_str("list"));
    args.push(String::from_str("--params"));
    args.push(params);
    assert(text::views(args@) =~= seq![
        "drive"@,
        "files"@,
        "list"@,
        "--params"@,
        "'{\"q\":\""@ + query@ + "\",\"pageSize\":20}'"@,
    ]);
    args
}

/// The arguments that export the file `file_id` as plain text.
pub open spec fn export_args_spec(file_id: Seq<char>) -> Seq<Seq<char>> {
    seq![
        "drive"@,
        "files"@,
        "export"@,
        "--params"@,
        "'{\"fileId\":\""@ + file_id + "\",\"mimeType\":\"text/plain\"}'"@,
    ]
}

/// `gwx doc get <id>` and each link of `gwx doc resolve`: the file exported as plain
/// text, `gws drive files export --params '{"fileId":"<id>","mimeType":"text/plain"}'`.
pub fn doc_export_args(file_id: &str) -> (args: Vec<String>)
    ensures
        text::views(args@) == export_args_spec(file_id@),
{
    let mut params = String::from_str("'{\"fileId\":\"");
    params.append(file_id);
    params.append("\",\"mimeType\":\"text/plain\"}'");
    let mut args: Vec<String> = Vec::new();
    args.push(String::from_str("drive"));
    args.push(String::from_str("files"));
    args.push(String::from_str("export"));
    args.push(String::from_str("--params"));
    args.push(params);
    assert(text::views(args@) =~= seq![
        "drive"@,
        "files"@,
        "export"@,
        "--params"@,
        "'{\"fileId\":\""@ + file_id@ + "\",\"mimeType\":\"text/plain\"}'"@,
    ]);
    args
}

} // verus!
