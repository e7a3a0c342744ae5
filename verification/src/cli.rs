//! The decisions of the command line around a tool call: the flags that
//! follow a tool's name, where a sync goes, and the document a tool's answer
//! points to.
use vstd::prelude::*;
use crate::error::{CodaError, CodaErrorV};
use crate::json::{Json, JsonV, str_eq};
use crate::commands::discover::{pad_to, push_padded};
use crate::text::{
    chars_of, contains, extend_str, join_path, join_path_exec, starts_with, str_contains, str_starts_with, string_of,
    slice_vec,
};

verus! {

/// A document's URI from a tool's answer: a `docUri` in `coda://` form, else
/// a `uri` that names a document and not a page, else one made from `docId`.
pub open spec fn extract_doc_uri_spec(value: JsonV) -> Option<Seq<char>> {
    let from_doc_uri = match value.get_str("docUri"@) {
        Some(u) => if starts_with(u, "coda://"@) { Some(u) } else { None },
        None => None,
    };
    let from_uri = match value.get_str("uri"@) {
        Some(u) => if starts_with(u, "coda://docs/"@) && !contains(u, "/pages/"@) { Some(u) } else { None },
        None => None,
    };
    match from_doc_uri {
        Some(u) => Some(u),
        None => match from_uri {
            Some(u) => Some(u),
            None => match value.get_str("docId"@) {
                Some(id) => Some("coda://docs/"@ + id),
                None => None,
            },
        },
    }
}

/// Extract a doc URI from a tool response.
/// Checks for `docUri`, `uri`, or constructs one from `docId`.
pub fn extract_doc_uri(value: &Json) -> (r: Option<String>)
    ensures
        match r { Some(s) => Some(s@), None => None } == extract_doc_uri_spec(value@),
{
    if let Some(uri) = value.get_str("docUri") {
        if str_starts_with(uri, "coda://") {
            return Some(uri.to_owned());
        }
    }
    if let Some(uri) = value.get_str("uri") {
        if str_starts_with(uri, "coda://docs/") && !str_contains(uri, "/pages/") {
            return Some(uri.to_owned());
        }
    }
    if let Some(doc_id) = value.get_str("docId") {
        let mut v: Vec<char> = Vec::new();
        extend_str(&mut v, "coda://docs/");
        extend_str(&mut v, doc_id);
        assert(v@ =~= "coda://docs/"@ + doc_id@);
        return Some(string_of(v.as_slice()));
    }
    None
}

/// A path with a leading `~` standing for the home directory, where there
/// is one.
pub open spec fn expand_tilde_spec(path: Seq<char>, home: Option<Seq<char>>) -> Seq<char> {
    match home {
        Some(h) => if starts_with(path, "~/"@) {
            join_path(h, path.skip(2))
        } else if path == "~"@ {
            h
        } else {
            path
        },
        None => path,
    }
}

/// Expand `~` to the user's home directory.
pub fn expand_tilde(path: &str, home: Option<&str>) -> (r: String)
    ensures
        r@ == expand_tilde_spec(path@, match home { Some(h) => Some(h@), None => None }),
{
    match home {
        Some(h) => {
            proof { reveal_strlit("~/"); }
            if str_starts_with(path, "~/") {
                let c = chars_of(path);
                let rest = string_of(slice_vec(c.as_slice(), 2, c.len()).as_slice());
                assert(rest@ =~= path@.skip(2));
                return join_path_exec(h, rest.as_str());
            }
            if str_eq(path, "~") {
                return h.to_owned();
            }
            path.to_owned()
        },
        None => path.to_owned(),
    }
}

/// The document a sync is for: `--doc-uri`, else the document that
/// `--doc-url` names; one of them is required.
pub open spec fn sync_doc_uri_spec(doc_uri: Option<Seq<char>>, doc_url: Option<Seq<char>>) -> Result<Seq<char>, CodaErrorV> {
    match doc_uri {
        Some(u) => Ok(u),
        None => match doc_url {
            Some(url) => match crate::slug::resolve_doc_input_spec(url) {
                Ok(u) => Ok(u),
                Err(m) => Err(CodaErrorV::Validation(m)),
            },
            None => Err(CodaErrorV::Validation(
                "Either --doc-uri or --doc-url is required.\nExample: shd sync --doc-url \"https://coda.io/d/My-Doc_dAbCdEf\""@)),
        },
    }
}

pub fn sync_doc_uri(doc_uri: Option<&str>, doc_url: Option<&str>) -> (r: Result<String, CodaError>)
    ensures
        match r { Ok(u) => Ok(u@), Err(e) => Err(e@) } == sync_doc_uri_spec(
            match doc_uri { Some(u) => Some(u@), None => None },
            match doc_url { Some(u) => Some(u@), None => None }),
{
    match doc_uri {
        Some(u) => Ok(u.to_owned()),
        None => match doc_url {
            Some(url) => match crate::slug::resolve_doc_input(url) {
                Ok(u) => Ok(u),
                Err(m) => Err(CodaError::Validation(m)),
            },
            None => Err(CodaError::Validation(
                "Either --doc-uri or --doc-url is required.\nExample: shd sync --doc-url \"https://coda.io/d/My-Doc_dAbCdEf\"".to_owned())),
        },
    }
}

/// The flags that may follow a tool's name, which the parser of the command
/// line leaves to the tool call.
pub struct ToolArgs {
    pub tool_name: String,
    pub dry_run: bool,
    pub sanitize: bool,
    pub trace: bool,
    pub fuzzy: bool,
    pub quiet: bool,
    pub polish: bool,
    pub sync: bool,
    /// The argument after the first `--pick`, where there is one.
    pub pick: Option<String>,
    /// After the first `--json`: its argument, or `None` where it is the last.
    pub json: Option<Option<String>>,
}

/// Whether the flag stands among the arguments.
pub open spec fn has_flag(args: Seq<Seq<char>>, flag: Seq<char>) -> bool {
    exists|i: int| 0 <= i < args.len() && args[i] == flag
}

/// Where the flag first stands among the arguments.
pub open spec fn flag_position(args: Seq<Seq<char>>, flag: Seq<char>) -> Option<int>
    decreases args.len(),
{
    if args.len() == 0 {
        None
    } else if args[0] == flag {
        Some(0)
    } else {
        match flag_position(args.drop_first(), flag) {
            Some(i) => Some(i + 1),
            None => None,
        }
    }
}

/// The argument after the first occurrence of a flag: `Some(None)` where the
/// flag is the last argument.
pub open spec fn flag_value(args: Seq<Seq<char>>, flag: Seq<char>) -> Option<Option<Seq<char>>> {
    match flag_position(args, flag) {
        Some(i) => Some(if i + 1 < args.len() { Some(args[i + 1]) } else { None }),
        None => None,
    }
}

pub proof fn lemma_flag_position(args: Seq<Seq<char>>, flag: Seq<char>)
    ensures
        match flag_position(args, flag) {
            Some(i) => 0 <= i < args.len() && args[i] == flag && forall|k: int| 0 <= k < i ==> args[k] != flag,
            None => !has_flag(args, flag),
        },
    decreases args.len(),
{
    if args.len() > 0 {
        lemma_flag_position(args.drop_first(), flag);
        if args[0] != flag {
            match flag_position(args.drop_first(), flag) {
                Some(i) => {
                    assert forall|k: int| 0 <= k < i + 1 implies args[k] != flag by {
                        if k > 0 {
                            assert(args[k] == args.drop_first()[k - 1]);
                        }
                    }
                },
                None => {
                    assert forall|k: int| 0 <= k < args.len() implies args[k] != flag by {
                        if k > 0 {
                            assert(args[k] == args.drop_first()[k - 1]);
                        }
                    }
                },
            }
        }
    }
}

fn position_of(args: &Vec<String>, flag: &str) -> (r: Option<usize>)
    ensures
        match r { Some(i) => Some(i as int), None => None } == flag_position(crate::text::string_views(args@), flag@),
{
    let ghost av = crate::text::string_views(args@);
    let mut i: usize = 0;
    assert(av.skip(0) =~= av);
    while i < args.len()
        invariant
            i <= args.len(),
            av == crate::text::string_views(args@),
            flag_position(av, flag@) == match flag_position(av.skip(i as int), flag@) {
                Some(k) => Some(k + i),
                None => None,
            },
        decreases args.len() - i,
    {
        assert(av.skip(i as int)[0] == args@[i as int]@);
        assert(av.skip(i as int).drop_first() =~= av.skip(i + 1));
        if str_eq(args[i].as_str(), flag) {
            return Some(i);
        }
        i = i + 1;
    }
    None
}

fn has_flag_exec(args: &Vec<String>, flag: &str) -> (r: bool)
    ensures
        r == has_flag(crate::text::string_views(args@), flag@),
{
    proof { lemma_flag_position(crate::text::string_views(args@), flag@); }
    position_of(args, flag).is_some()
}

fn value_after(args: &Vec<String>, flag: &str) -> (r: Option<Option<String>>)
    ensures
        match r {
            Some(Some(s)) => Some(Some(s@)),
            Some(None) => Some(None),
            None => None,
        } == flag_value(crate::text::string_views(args@), flag@),
{
    proof { lemma_flag_position(crate::text::string_views(args@), flag@); }
    match position_of(args, flag) {
        Some(i) => {
            assert(flag_position(crate::text::string_views(args@), flag@) == Some(i as int));
            assert(crate::text::string_views(args@).len() == args@.len());
            assert((i as int) < args@.len());
            if args.len() - i > 1 {
                Some(Some(args[i + 1].clone()))
            } else {
                Some(None)
            }
        },
        None => None,
    }
}

/// The message for a tool call without a tool.
pub open spec fn tool_usage_message() -> Seq<char> {
    "Usage: shd <tool_name> [--json '{...}']\nRun `shd discover` to see available tools."@
}

/// The flags after a tool's name, read from the arguments of a tool call;
/// the first argument is the tool's name.
pub fn parse_tool_args(args: &Vec<String>) -> (r: Result<ToolArgs, CodaError>)
    ensures
        ({
            let av = crate::text::string_views(args@);
            match r {
                Err(e) => av.len() == 0 && e@ == CodaErrorV::Validation(tool_usage_message()),
                Ok(t) => {
                    &&& av.len() > 0
                    &&& t.tool_name@ == av[0]
                    &&& t.dry_run == has_flag(av, "--dry-run"@)
                    &&& t.sanitize == has_flag(av, "--sanitize"@)
                    &&& t.trace == has_flag(av, "--trace"@)
                    &&& t.fuzzy == has_flag(av, "--fuzzy"@)
                    &&& t.quiet == has_flag(av, "--quiet"@)
                    &&& t.polish == has_flag(av, "--polish"@)
                    &&& t.sync == has_flag(av, "--sync"@)
                    &&& match flag_value(av, "--pick"@) {
                        Some(Some(p)) => t.pick matches Some(x) && x@ == p,
                        _ => t.pick is None,
                    }
                    &&& match t.json {
                        Some(Some(j)) => flag_value(av, "--json"@) == Some(Some(j@)),
                        Some(None) => flag_value(av, "--json"@) == Some(None::<Seq<char>>),
                        None => flag_value(av, "--json"@) is None,
                    }
                },
            }
        }),
{
    if args.len() == 0 {
        return Err(CodaError::Validation(
            "Usage: shd <tool_name> [--json '{...}']\nRun `shd discover` to see available tools.".to_owned()));
    }
    let pick = match value_after(args, "--pick") {
        Some(Some(p)) => Some(p),
        _ => None,
    };
    Ok(ToolArgs {
        tool_name: args[0].clone(),
        dry_run: has_flag_exec(args, "--dry-run"),
        sanitize: has_flag_exec(args, "--sanitize"),
        trace: has_flag_exec(args, "--trace"),
        fuzzy: has_flag_exec(args, "--fuzzy"),
        quiet: has_flag_exec(args, "--quiet"),
        polish: has_flag_exec(args, "--polish"),
        sync: has_flag_exec(args, "--sync"),
        pick,
        json: value_after(args, "--json"),
    })
}

/// The error for `--json` without a value.
pub fn json_value_missing() -> (e: CodaError)
    ensures
        e@ == CodaErrorV::Validation("--json requires a value"@),
{
    CodaError::Validation("--json requires a value".to_owned())
}

/// The notice after a fuzzy match chose another tool than the one typed.
pub open spec fn fuzzy_notice_spec(typed: Seq<char>, resolved: Seq<char>) -> Option<Seq<char>> {
    if typed == resolved {
        None
    } else {
        Some("[fuzzy] Resolved '"@ + typed + "' -> '"@ + resolved + "'\n"@)
    }
}

pub fn fuzzy_notice(typed: &str, resolved: &str) -> (r: Option<String>)
    ensures
        match r { Some(s) => Some(s@), None => None } == fuzzy_notice_spec(typed@, resolved@),
{
    if str_eq(typed, resolved) {
        return None;
    }
    let mut v: Vec<char> = Vec::new();
    extend_str(&mut v, "[fuzzy] Resolved '");
    extend_str(&mut v, typed);
    extend_str(&mut v, "' -> '");
    extend_str(&mut v, resolved);
    extend_str(&mut v, "'\n");
    assert(v@ =~= "[fuzzy] Resolved '"@ + typed@ + "' -> '"@ + resolved@ + "'\n"@);
    Some(string_of(v.as_slice()))
}

/// The notice after polishing.
pub open spec fn polish_notice_spec(count: nat) -> Option<Seq<char>> {
    if count == 0 {
        None
    } else {
        Some("[polish] Polished "@ + crate::text::decimal(count) + " text field(s).\n"@)
    }
}

pub fn polish_notice(count: u32) -> (r: Option<String>)
    ensures
        match r { Some(s) => Some(s@), None => None } == polish_notice_spec(count as nat),
{
    if count == 0 {
        return None;
    }
    let mut v: Vec<char> = Vec::new();
    extend_str(&mut v, "[polish] Polished ");
    crate::text::push_decimal(&mut v, count as u64);
    extend_str(&mut v, " text field(s).\n");
    assert(v@ =~= "[polish] Polished "@ + crate::text::decimal(count as nat) + " text field(s).\n"@);
    Some(string_of(v.as_slice()))
}

/// The notice after a background sync was started, or could not be.
pub open spec fn background_sync_notice_spec(started: Result<u32, Seq<char>>, doc_uri: Seq<char>) -> Seq<char> {
    match started {
        Ok(pid) => "\n[sync] Syncing in background (pid "@ + crate::text::decimal(pid as nat)
            + "). Files will appear in .coda/ shortly.\n"@,
        Err(e) => "\n[sync] Could not spawn background sync: "@ + e + "\nRun manually: shd sync --doc-uri \""@
            + doc_uri + "\"\n"@,
    }
}

pub fn background_sync_notice(started: Result<u32, String>, doc_uri: &str) -> (r: String)
    ensures
        r@ == background_sync_notice_spec(match started { Ok(p) => Ok(p), Err(e) => Err(e@) }, doc_uri@),
{
    let mut v: Vec<char> = Vec::new();
    match started {
        Ok(pid) => {
            extend_str(&mut v, "\n[sync] Syncing in background (pid ");
            crate::text::push_decimal(&mut v, pid as u64);
            extend_str(&mut v, "). Files will appear in .coda/ shortly.\n");
            assert(v@ =~= background_sync_notice_spec(Ok(pid), doc_uri@));
        },
        Err(e) => {
            extend_str(&mut v, "\n[sync] Could not spawn background sync: ");
            extend_str(&mut v, e.as_str());
            extend_str(&mut v, "\nRun manually: shd sync --doc-uri \"");
            extend_str(&mut v, doc_uri);
            extend_str(&mut v, "\"\n");
            assert(v@ =~= background_sync_notice_spec(Err(e@), doc_uri@));
        },
    }
    string_of(v.as_slice())
}

/// The inner width of the welcome box.
pub const WELCOME_WIDTH: usize = 45;

/// The welcome screen shown when the command line is called without
/// arguments.
pub open spec fn welcome_text_spec(version: Seq<char>) -> Seq<char> {
    let bar = Seq::new(45, |i: int| '─');
    let title = "      ●      Superhuman Docs CLI  v"@ + version;
    "╭"@ + bar + "╮\n│"@ + pad_to(Seq::empty(), 45) + "│\n│"@ + pad_to(title, 45) + "│\n│"@
        + pad_to("     ╱ ╲     agent-first interface for Coda"@, 45) + "│\n│"@ + pad_to("    ╱   ╲"@, 45)
        + "│\n│"@ + pad_to(Seq::empty(), 45) + "│\n╰"@ + bar
        + "╯\n\n  Get started:\n    shd auth login                  Authenticate with Coda\n    shd discover                    List all available tools\n    shd <tool> --json '{...}'       Call any tool\n    shd --help                      Full usage & options\n"@
}

pub fn welcome_text(version: &str) -> (r: String)
    ensures
        r@ == welcome_text_spec(version@),
{
    let mut bar: Vec<char> = Vec::new();
    let mut k: usize = 0;
    while k < WELCOME_WIDTH
        invariant
            k <= WELCOME_WIDTH,
            WELCOME_WIDTH == 45,
            bar@ == Seq::new(k as nat, |i: int| '─'),
        decreases WELCOME_WIDTH - k,
    {
        bar.push('─');
        k = k + 1;
        assert(bar@ =~= Seq::new(k as nat, |i: int| '─'));
    }
    let mut title: Vec<char> = Vec::new();
    extend_str(&mut title, "      ●      Superhuman Docs CLI  v");
    extend_str(&mut title, version);
    let title_s = string_of(title.as_slice());
    let mut v: Vec<char> = Vec::new();
    extend_str(&mut v, "╭");
    crate::text::extend_chars(&mut v, bar.as_slice());
    extend_str(&mut v, "╮\n│");
    push_padded(&mut v, "", 45);
    extend_str(&mut v, "│\n│");
    push_padded(&mut v, title_s.as_str(), 45);
    extend_str(&mut v, "│\n│");
    push_padded(&mut v, "     ╱ ╲     agent-first interface for Coda", 45);
    extend_str(&mut v, "│\n│");
    push_padded(&mut v, "    ╱   ╲", 45);
    extend_str(&mut v, "│\n│");
    push_padded(&mut v, "", 45);
    extend_str(&mut v, "│\n╰");
    crate::text::extend_chars(&mut v, bar.as_slice());
    extend_str(&mut v, "╯\n\n  Get started:\n    shd auth login                  Authenticate with Coda\n    shd discover                    List all available tools\n    shd <tool> --json '{...}'       Call any tool\n    shd --help                      Full usage & options\n");
    proof { reveal_strlit(""); }
    assert(v@ =~= welcome_text_spec(version@));
    string_of(v.as_slice())
}

} // verus!
