//! Bitwarden tools: where the master password comes from, the session
//! cache, the `bw` command lines, how `bw`'s output becomes a tool reply,
//! and the simplified item list.
use vstd::prelude::*;
use crate::text::{
    trimmed, trim, utf8_lossy, utf8_lossy_of, error_json, error_json_of, str_eq, decimal,
    decimal_string,
};
use crate::setup::{
    bitwarden_file_value, bitwarden_value_from_file, bitwarden_file_content, check_bitwarden_input,
    bitwarden_credentials_file,
};

verus! {

/// The Bitwarden tool server. It caches the vault session once unlocked.
#[derive(Debug, Clone, Default)]
pub struct BitwardenService {
    session: Option<String>,
}

/// Arguments of `bitwarden_list_items`.
#[derive(Debug, Clone)]
pub struct SearchParam {
    /// Keyword to filter vault items by name
    pub query: Option<String>,
}

/// Arguments of the item tools.
#[derive(Debug, Clone)]
pub struct GetItemParam {
    /// Exact name or ID of the vault item
    pub id_or_name: String,
}

/// Arguments of `bitwarden_generate_password`.
#[derive(Debug, Clone)]
pub struct GeneratePasswordParam {
    /// Length of the password
    pub length: Option<u32>,
    /// Include special characters
    pub special: Option<bool>,
    /// Include numbers
    pub numbers: Option<bool>,
    /// Include uppercase letters
    pub uppercase: Option<bool>,
    /// Include lowercase letters
    pub lowercase: Option<bool>,
}

/// Arguments of `bitwarden_create_login_item`.
#[derive(Debug, Clone)]
pub struct CreateLoginItemParam {
    /// Name of the new vault item
    pub name: String,
    /// Login username
    pub username: Option<String>,
    /// Login password
    pub password: Option<String>,
    /// Website URI
    pub uri: Option<String>,
    /// Free-form notes
    pub notes: Option<String>,
}

impl View for BitwardenService {
    type V = Option<Seq<char>>;

    /// The cached session, if any.
    closed spec fn view(&self) -> Option<Seq<char>> {
        self.session.deep_view()
    }
}

// ----------------------------------------------------------------------
// Master password
// ----------------------------------------------------------------------

/// An environment value counts when its trim is not empty; it is used trimmed.
pub open spec fn env_value(v: Option<Seq<char>>) -> Option<Seq<char>> {
    match v {
        Some(s) => if trimmed(s).len() > 0 {
            Some(trimmed(s))
        } else {
            None
        },
        None => None,
    }
}

/// The first candidate file (by content; `None` for a missing or unreadable
/// file) that gives a master password.
pub open spec fn first_file_password(files: Seq<Option<Seq<char>>>) -> Option<Seq<char>>
    decreases files.len(),
{
    if files.len() == 0 {
        None
    } else {
        match files[0] {
            Some(c) => match bitwarden_file_value(c) {
                Some(p) => Some(p),
                None => first_file_password(files.drop_first()),
            },
            None => first_file_password(files.drop_first()),
        }
    }
}

/// The master password: `BW_PASSWORD`, else `BITWARDEN_MASTER_PASSWORD`,
/// else the first credential file that gives one.
pub open spec fn master_password_of(
    bw_password: Option<Seq<char>>,
    master_password: Option<Seq<char>>,
    files: Seq<Option<Seq<char>>>,
) -> Option<Seq<char>> {
    match env_value(bw_password) {
        Some(p) => Some(p),
        None => match env_value(master_password) {
            Some(p) => Some(p),
            None => first_file_password(files),
        },
    }
}

/// The reply when no master password is found.
pub open spec fn password_not_found_message() -> Seq<char> {
    "Bitwarden master password not found. Please set BW_PASSWORD or BITWARDEN_MASTER_PASSWORD environment variable or create ~/.config/credentials/bitwarden_master_password."@
}

/// The plain form of an optional string argument.
pub open spec fn opt_view(v: Option<&str>) -> Option<Seq<char>> {
    match v {
        Some(s) => Some(s@),
        None => None,
    }
}

// ----------------------------------------------------------------------
// Sessions
// ----------------------------------------------------------------------

/// What obtaining a session needs next.
#[derive(Debug)]
pub enum SessionStep {
    /// A session is available.
    Ready(String),
    /// The vault must be unlocked with the master password.
    NeedUnlock,
}

/// The cache after a session request, and the session it yields (if no
/// unlock is needed): a cached session is kept; otherwise a non-empty
/// `BW_SESSION` is adopted (trimmed).
pub open spec fn session_request(cached: Option<Seq<char>>, env_session: Option<Seq<char>>) -> (
    Option<Seq<char>>,
    Option<Seq<char>>,
) {
    match cached {
        Some(s) => (Some(s), Some(s)),
        None => match env_value(env_session) {
            Some(s) => (Some(s), Some(s)),
            None => (None, None),
        },
    }
}

/// The cache and result after `bw unlock --raw` ran: on success the
/// trimmed output is the session; on failure the error reports `bw`'s
/// standard error and the cache is unchanged.
pub open spec fn unlock_result(
    cached: Option<Seq<char>>,
    success: bool,
    stdout: Seq<u8>,
    stderr: Seq<u8>,
) -> (Option<Seq<char>>, Result<Seq<char>, Seq<char>>) {
    if success {
        (Some(trimmed(utf8_lossy_of(stdout))), Ok(trimmed(utf8_lossy_of(stdout))))
    } else {
        (cached, Err("bw unlock failed: "@ + utf8_lossy_of(stderr)))
    }
}

/// The outcome of a `bw` command: its standard output on success, else an
/// error reporting its standard error.
pub open spec fn command_result(success: bool, stdout: Seq<u8>, stderr: Seq<u8>) -> Result<
    Seq<char>,
    Seq<char>,
> {
    if success {
        Ok(utf8_lossy_of(stdout))
    } else {
        Err("bw error: "@ + utf8_lossy_of(stderr))
    }
}

/// The reply of the tools that pass `bw`'s output through.
pub open spec fn passthrough_reply(r: Result<Seq<char>, Seq<char>>) -> Seq<char> {
    match r {
        Ok(out) => out,
        Err(e) => error_json_of(e),
    }
}

/// The reply of the tools that return one trimmed value.
pub open spec fn value_reply(r: Result<Seq<char>, Seq<char>>) -> Seq<char> {
    match r {
        Ok(out) => trimmed(out),
        Err(e) => "Error: "@ + e,
    }
}

/// The plain form of a result of strings.
pub open spec fn result_view(r: Result<String, String>) -> Result<Seq<char>, Seq<char>> {
    match r {
        Ok(s) => Ok(s@),
        Err(e) => Err(e@),
    }
}

impl BitwardenService {
    /// A service with no cached session.
    pub fn new() -> (res: Self)
        ensures
            res@ is None,
    {
        BitwardenService { session: None }
    }

    /// Finds the master password in `BW_PASSWORD`, `BITWARDEN_MASTER_PASSWORD`
    /// (each `None` when unset) and the candidate credential files' contents
    /// (`None` for a file that is missing or unreadable), in that order.
    pub fn resolve_master_password(
        bw_password: Option<&str>,
        master_password: Option<&str>,
        files: &Vec<Option<String>>,
    ) -> (res: Result<String, String>)
        ensures
            match res {
                Ok(p) => master_password_of(opt_view(bw_password), opt_view(master_password), files.deep_view())
                    == Some(p@),
                Err(e) => master_password_of(opt_view(bw_password), opt_view(master_password), files.deep_view())
                    is None && e@ == password_not_found_message(),
            },
    {
        match bw_password {
            Some(v) => {
                let t = trim(v);
                if t.unicode_len() > 0 {
                    return Ok(t);
                }
            },
            None => {},
        }
        match master_password {
            Some(v) => {
                let t = trim(v);
                if t.unicode_len() > 0 {
                    return Ok(t);
                }
            },
            None => {},
        }
        let ghost dv = files.deep_view();
        let n = files.len();
        let mut i: usize = 0;
        assert(dv.skip(0) =~= dv);
        while i < n
            invariant
                n == files.len(),
                i <= n,
                dv == files.deep_view(),
                env_value(opt_view(bw_password)) is None,
                env_value(opt_view(master_password)) is None,
                first_file_password(dv) == first_file_password(dv.skip(i as int)),
            decreases n - i,
        {
            let ghost rest = dv.skip(i as int);
            assert(rest.len() > 0);
            assert(rest[0] == dv[i as int]);
            assert(rest.drop_first() =~= dv.skip(i + 1));
            match &files[i] {
                Some(content) => match bitwarden_value_from_file(content.as_str()) {
                    Some(p) => {
                        assert(first_file_password(rest) == Some(p@));
                        return Ok(p);
                    },
                    None => {},
                },
                None => {},
            }
            i += 1;
        }
        Err(String::from_str(
            "Bitwarden master password not found. Please set BW_PASSWORD or BITWARDEN_MASTER_PASSWORD environment variable or create ~/.config/credentials/bitwarden_master_password.",
        ))
    }

    /// Asks for a session: the cached one, else a non-empty `BW_SESSION`
    /// (which is then cached), else an unlock is needed.
    pub fn begin_session(&mut self, env_session: Option<&str>) -> (res: SessionStep)
        ensures
            final(self)@ == session_request(old(self)@, opt_view(env_session)).0,
            match res {
                SessionStep::Ready(s) => session_request(old(self)@, opt_view(env_session)).1 == Some(s@),
                SessionStep::NeedUnlock => session_request(old(self)@, opt_view(env_session)).1 is None,
            },
    {
        match &self.session {
            Some(s) => {
                return SessionStep::Ready(s.clone());
            },
            None => {},
        }
        match env_session {
            Some(v) => {
                let t = trim(v);
                if t.unicode_len() > 0 {
                    self.session = Some(t.clone());
                    return SessionStep::Ready(t);
                }
            },
            None => {},
        }
        SessionStep::NeedUnlock
    }

    /// Takes the outcome of `bw unlock --raw`: on success the trimmed output
    /// becomes the cached session.
    pub fn finish_unlock(&mut self, success: bool, stdout: &[u8], stderr: &[u8]) -> (res: Result<
        String,
        String,
    >)
        ensures
            final(self)@ == unlock_result(old(self)@, success, stdout@, stderr@).0,
            result_view(res) == unlock_result(old(self)@, success, stdout@, stderr@).1,
    {
        if !success {
            let err = utf8_lossy(stderr);
            let mut m = String::from_str("bw unlock failed: ");
            m.append(err.as_str());
            return Err(m);
        }
        let out = utf8_lossy(stdout);
        let session = trim(out.as_str());
        self.session = Some(session.clone());
        Ok(session)
    }

    /// The error when `bw unlock` cannot be started.
    pub fn unlock_spawn_error(error: &str) -> (res: String)
        ensures
            res@ == "Failed to execute bw unlock: "@ + error@,
    {
        let mut m = String::from_str("Failed to execute bw unlock: ");
        m.append(error);
        m
    }

    /// The arguments of a `bw` command run with the session.
    pub fn command_args(args: &Vec<String>, session: &str) -> (res: Vec<String>)
        ensures
            res.deep_view() == args.deep_view() + seq!["--session"@, session@],
    {
        let mut out: Vec<String> = Vec::new();
        let n = args.len();
        let mut i: usize = 0;
        while i < n
            invariant
                n == args.len(),
                i <= n,
                out.deep_view() =~= args.deep_view().take(i as int),
            decreases n - i,
        {
            let ghost before = out.deep_view();
            out.push(args[i].clone());
            assert(out.deep_view() =~= before.push(args[i as int]@));
            assert(args.deep_view().take(i + 1) =~= args.deep_view().take(i as int).push(args[i as int]@));
            i += 1;
        }
        out.push(String::from_str("--session"));
        out.push(String::from_str(session));
        assert(args.deep_view().take(n as int) =~= args.deep_view());
        assert(out.deep_view() =~= args.deep_view() + seq!["--session"@, session@]);
        out
    }

    /// The outcome of a `bw` command from its exit status and output.
    pub fn command_outcome(success: bool, stdout: &[u8], stderr: &[u8]) -> (res: Result<
        String,
        String,
    >)
        ensures
            result_view(res) == command_result(success, stdout@, stderr@),
    {
        if success {
            Ok(utf8_lossy(stdout))
        } else {
            let err = utf8_lossy(stderr);
            let mut m = String::from_str("bw error: ");
            m.append(err.as_str());
            Err(m)
        }
    }

    /// The error when `bw` cannot be started.
    pub fn run_spawn_error(error: &str) -> (res: String)
        ensures
            res@ == "Failed to run bw: "@ + error@,
    {
        let mut m = String::from_str("Failed to run bw: ");
        m.append(error);
        m
    }

    /// The `bw` arguments of `bitwarden_status`.
    pub fn status_args() -> (res: Vec<String>)
        ensures
            res.deep_view() == seq!["status"@],
    {
        let mut v = Vec::new();
        v.push(String::from_str("status"));
        assert(v.deep_view() =~= seq!["status"@]);
        v
    }

    /// The `bw` arguments of `bitwarden_sync`.
    pub fn sync_args() -> (res: Vec<String>)
        ensures
            res.deep_view() == seq!["sync"@],
    {
        let mut v = Vec::new();
        v.push(String::from_str("sync"));
        assert(v.deep_view() =~= seq!["sync"@]);
        v
    }

    /// The `bw` arguments of `bitwarden_list_items`: the search keyword is
    /// passed only when it is not empty.
    pub fn list_items_args(param: &SearchParam) -> (res: Vec<String>)
        ensures
            res.deep_view() == (match param.query {
                Some(q) => if q@.len() > 0 {
                    seq!["list"@, "items"@, "--search"@, q@]
                } else {
                    seq!["list"@, "items"@]
                },
                None => seq!["list"@, "items"@],
            }),
    {
        let mut v = Vec::new();
        v.push(String::from_str("list"));
        v.push(String::from_str("items"));
        match &param.query {
            Some(q) => {
                if q.unicode_len() > 0 {
                    v.push(String::from_str("--search"));
                    v.push(q.clone());
                    assert(v.deep_view() =~= seq!["list"@, "items"@, "--search"@, q@]);
                    return v;
                }
            },
            None => {},
        }
        assert(v.deep_view() =~= seq!["list"@, "items"@]);
        v
    }

    /// The `bw` arguments of the item tools: `get <kind> <id or name>`.
    pub fn get_args(kind: &str, param: &GetItemParam) -> (res: Vec<String>)
        ensures
            res.deep_view() == seq!["get"@, kind@, param.id_or_name@],
    {
        let mut v = Vec::new();
        v.push(String::from_str("get"));
        v.push(String::from_str(kind));
        v.push(param.id_or_name.clone());
        assert(v.deep_view() =~= seq!["get"@, kind@, param.id_or_name@]);
        v
    }

    /// The reply of `bitwarden_status` and `bitwarden_get_item`: the output
    /// as it is, or `{"error": ...}`.
    pub fn passthrough(r: Result<String, String>) -> (res: String)
        ensures
            res@ == passthrough_reply(result_view(r)),
    {
        match r {
            Ok(out) => out,
            Err(e) => error_json(e.as_str()),
        }
    }

    /// The reply of `bitwarden_sync`.
    pub fn sync_reply(r: Result<String, String>) -> (res: String)
        ensures
            res@ == match r {
                Ok(_) => "{\"status\": \"synced\"}"@,
                Err(e) => error_json_of(e@),
            },
    {
        match r {
            Ok(_) => String::from_str("{\"status\": \"synced\"}"),
            Err(e) => error_json(e.as_str()),
        }
    }

    /// The reply of `bitwarden_get_password` and `bitwarden_get_totp`: the
    /// trimmed output, or `Error: ...`.
    pub fn value_reply(r: Result<String, String>) -> (res: String)
        ensures
            res@ == value_reply(result_view(r)),
    {
        match r {
            Ok(out) => trim(out.as_str()),
            Err(e) => {
                let mut m = String::from_str("Error: ");
                m.append(e.as_str());
                m
            },
        }
    }
}

// ----------------------------------------------------------------------
// The simplified item list
// ----------------------------------------------------------------------

/// A JSON value as `bw` prints it. Numbers are kept as `serde_json` read
/// them; object members keep their order.
#[derive(Debug)]
pub enum Json {
    Null,
    Bool(bool),
    Number(serde_json::Number),
    Str(String),
    Array(Vec<Json>),
    Object(Vec<(String, Json)>),
}

// ----------------------------------------------------------------------
// Reading and printing JSON text (serde_json)
// ----------------------------------------------------------------------

#[verifier::external_type_specification]
#[verifier::external_body]
pub struct ExJsonValue(serde_json::Value);

#[verifier::external_type_specification]
#[verifier::external_body]
pub struct ExJsonNumber(serde_json::Number);

/// Name for the JSON number `serde_json::Number::from` makes of an integer.
pub uninterp spec fn number_of(n: u64) -> serde_json::Number;

/// Makes a JSON number of an integer with `serde_json::Number::from`.
#[verifier::external_body]
fn json_number(n: u64) -> (res: serde_json::Number)
    ensures
        res == number_of(n),
{
    serde_json::Number::from(n)
}

/// Converts a `serde_json::Value` to the library's JSON value, member for
/// member and item for item.
#[verifier::external_body]
fn json_from_value(v: serde_json::Value) -> Json {
    match v {
        serde_json::Value::Null => Json::Null,
        serde_json::Value::Bool(b) => Json::Bool(b),
        serde_json::Value::Number(n) => Json::Number(n),
        serde_json::Value::String(t) => Json::Str(t),
        serde_json::Value::Array(items) => Json::Array(items.into_iter().map(json_from_value).collect()),
        serde_json::Value::Object(m) => Json::Object(m.into_iter().map(|(k, x)| (k, json_from_value(x))).collect()),
    }
}

/// Converts the library's JSON value back to a `serde_json::Value`, member
/// for member and item for item.
#[verifier::external_body]
fn value_of_json(j: Json) -> serde_json::Value {
    match j {
        Json::Null => serde_json::Value::Null,
        Json::Bool(b) => serde_json::Value::Bool(b),
        Json::Number(n) => serde_json::Value::Number(n),
        Json::Str(t) => serde_json::Value::String(t),
        Json::Array(items) => serde_json::Value::Array(items.into_iter().map(value_of_json).collect()),
        Json::Object(m) => serde_json::Value::Object(m.into_iter().map(|(k, x)| (k, value_of_json(x))).collect()),
    }
}

/// Name for what `serde_json::from_str::<serde_json::Value>` reads from a
/// text, as a library JSON value; `None` when the text is not JSON.
pub uninterp spec fn json_of(raw: Seq<char>) -> Option<Json>;

/// Parses a text with `serde_json::from_str` into a JSON value.
#[verifier::external_body]
pub(crate) fn parse_json(raw: &str) -> (res: Option<Json>)
    ensures
        res == json_of(raw@),
{
    serde_json::from_str::<serde_json::Value>(raw).ok().map(json_from_value)
}

/// Name for the text `serde_json::to_string_pretty` prints for a JSON
/// value, given by its plain value.
pub uninterp spec fn pretty_json_of(j: JsonModel) -> Seq<char>;

/// Prints a JSON value with `serde_json::to_string_pretty`. Printing a
/// `serde_json::Value` does not fail: its `Serialize` reports no error of
/// its own, its object keys are strings, and the output goes to memory.
/// The text depends only on the value's plain form.
#[verifier::external_body]
pub(crate) fn pretty_json(j: Json) -> (res: Option<String>)
    ensures
        res.deep_view() == Some(pretty_json_of(json_view(j))),
{
    serde_json::to_string_pretty(&value_of_json(j)).ok()
}

/// Name for the compact text `serde_json::Value`'s `Display` prints for a
/// JSON value, given by its plain value.
pub uninterp spec fn json_text_of(j: JsonModel) -> Seq<char>;

/// Prints a JSON value compactly (`serde_json::Value::to_string`).
#[verifier::external_body]
pub(crate) fn json_text(j: Json) -> (res: String)
    ensures
        res@ == json_text_of(json_view(j)),
{
    value_of_json(j).to_string()
}

/// The value of the first member named `key`, if any.
pub open spec fn member_of(members: Seq<(String, Json)>, key: Seq<char>) -> Option<Json>
    decreases members.len(),
{
    if members.len() == 0 {
        None
    } else if members[0].0@ == key {
        Some(members[0].1)
    } else {
        member_of(members.drop_first(), key)
    }
}

/// `value.get(key)`: the member of an object, nothing for other values.
pub open spec fn json_get(value: Json, key: Seq<char>) -> Option<Json> {
    match value {
        Json::Object(members) => member_of(members@, key),
        _ => None,
    }
}

/// What an absent member is written as: `null`.
pub open spec fn or_null(v: Option<Json>) -> Json {
    match v {
        Some(j) => j,
        None => Json::Null,
    }
}

/// The login username of an item (`login.username`), if present.
pub open spec fn username_of(item: Json) -> Option<Json> {
    match json_get(item, "login"@) {
        Some(login) => json_get(login, "username"@),
        None => None,
    }
}

/// `out` is the simplified form of `item`: an object with the members
/// `id`, `name`, `type` and `username`, in that order, taken from the item
/// (`null` where absent).
pub open spec fn simplifies(item: Json, out: Json) -> bool {
    match out {
        Json::Object(m) => {
            &&& m@.len() == 4
            &&& m@[0].0@ == "id"@ && m@[0].1 == or_null(json_get(item, "id"@))
            &&& m@[1].0@ == "name"@ && m@[1].1 == or_null(json_get(item, "name"@))
            &&& m@[2].0@ == "type"@ && m@[2].1 == or_null(json_get(item, "type"@))
            &&& m@[3].0@ == "username"@ && m@[3].1 == or_null(username_of(item))
        },
        _ => false,
    }
}

/// Takes the value of the first member named `key` out of a JSON value.
fn take_member(value: Json, key: &str) -> (res: Option<Json>)
    ensures
        res == json_get(value, key@),
{
    match value {
        Json::Object(members) => {
            let ghost all = members@;
            let mut rest = members;
            let mut found: Option<Json> = None;
            let ghost mut j: int = 0;
            assert(all.skip(0) =~= all);
            while rest.len() > 0
                invariant
                    0 <= j <= all.len(),
                    rest@ == all.skip(j),
                    member_of(all, key@) == match found {
                        Some(v) => Some(v),
                        None => member_of(all.skip(j), key@),
                    },
                decreases rest.len(),
            {
                assert(all.skip(j)[0] == all[j]);
                assert(all.skip(j).drop_first() =~= all.skip(j + 1));
                let (k, v) = rest.remove(0);
                assert(rest@ =~= all.skip(j + 1));
                if found.is_none() && str_eq(k.as_str(), key) {
                    found = Some(v);
                }
                proof {
                    j = j + 1;
                }
            }
            found
        },
        _ => None,
    }
}

/// The members `id`, `name`, `type` and `login` of a JSON value.
fn take_item_members(item: Json) -> (res: (Option<Json>, Option<Json>, Option<Json>, Option<Json>))
    ensures
        res.0 == json_get(item, "id"@),
        res.1 == json_get(item, "name"@),
        res.2 == json_get(item, "type"@),
        res.3 == json_get(item, "login"@),
{
    proof {
        reveal_strlit("id");
        reveal_strlit("name");
        reveal_strlit("type");
        reveal_strlit("login");
        assert("id"@.len() == 2 && "name"@.len() == 4 && "type"@.len() == 4 && "login"@.len() == 5);
        assert("name"@[0] != "type"@[0]);
        assert("name"@ != "type"@);
        assert("id"@ != "name"@ && "id"@ != "type"@ && "id"@ != "login"@);
        assert("name"@ != "login"@ && "type"@ != "login"@);
    }
    match item {
        Json::Object(members) => {
            let ghost all = members@;
            let mut rest = members;
            let mut id: Option<Json> = None;
            let mut name: Option<Json> = None;
            let mut kind: Option<Json> = None;
            let mut login: Option<Json> = None;
            let ghost mut j: int = 0;
            assert(all.skip(0) =~= all);
            while rest.len() > 0
                invariant
                    0 <= j <= all.len(),
                    rest@ == all.skip(j),
                    "id"@ != "name"@ && "id"@ != "type"@ && "id"@ != "login"@,
                    "name"@ != "type"@ && "name"@ != "login"@ && "type"@ != "login"@,
                    member_of(all, "id"@) == match id {
                        Some(v) => Some(v),
                        None => member_of(all.skip(j), "id"@),
                    },
                    member_of(all, "name"@) == match name {
                        Some(v) => Some(v),
                        None => member_of(all.skip(j), "name"@),
                    },
                    member_of(all, "type"@) == match kind {
                        Some(v) => Some(v),
                        None => member_of(all.skip(j), "type"@),
                    },
                    member_of(all, "login"@) == match login {
                        Some(v) => Some(v),
                        None => member_of(all.skip(j), "login"@),
                    },
                decreases rest.len(),
            {
                assert(all.skip(j)[0] == all[j]);
                assert(all.skip(j).drop_first() =~= all.skip(j + 1));
                let (k, v) = rest.remove(0);
                assert(rest@ =~= all.skip(j + 1));
                if str_eq(k.as_str(), "id") {
                    if id.is_none() {
                        id = Some(v);
                    }
                } else if str_eq(k.as_str(), "name") {
                    if name.is_none() {
                        name = Some(v);
                    }
                } else if str_eq(k.as_str(), "type") {
                    if kind.is_none() {
                        kind = Some(v);
                    }
                } else if str_eq(k.as_str(), "login") {
                    if login.is_none() {
                        login = Some(v);
                    }
                }
                proof {
                    j = j + 1;
                }
            }
            (id, name, kind, login)
        },
        _ => (None, None, None, None),
    }
}

/// `null` for an absent value.
fn null_if_none(v: Option<Json>) -> (res: Json)
    ensures
        res == or_null(v),
{
    match v {
        Some(j) => j,
        None => Json::Null,
    }
}

/// The item's simplified form.
pub fn simplify_item(item: Json) -> (res: Json)
    ensures
        simplifies(item, res),
{
    let (id, name, kind, login) = take_item_members(item);
    let username = match login {
        Some(l) => take_member(l, "username"),
        None => None,
    };
    let mut members: Vec<(String, Json)> = Vec::new();
    members.push((String::from_str("id"), null_if_none(id)));
    members.push((String::from_str("name"), null_if_none(name)));
    members.push((String::from_str("type"), null_if_none(kind)));
    members.push((String::from_str("username"), null_if_none(username)));
    Json::Object(members)
}

/// The simplified item list of `bitwarden_list_items`: for an array, each
/// item's simplified form; nothing for any other value.
pub fn simplify_items(listing: Json) -> (res: Option<Json>)
    ensures
        match listing {
            Json::Array(items) => res matches Some(Json::Array(out)) && out@.len() == items@.len()
                && forall|i: int| 0 <= i < items@.len() ==> simplifies(items@[i], #[trigger] out@[i]),
            _ => res is None,
        },
{
    match listing {
        Json::Array(items) => {
            let ghost all = items@;
            let mut rest = items;
            let mut out: Vec<Json> = Vec::new();
            assert(all.skip(0) =~= all);
            while rest.len() > 0
                invariant
                    out@.len() <= all.len(),
                    rest@ == all.skip(out@.len() as int),
                    forall|k: int| 0 <= k < out@.len() ==> simplifies(all[k], #[trigger] out@[k]),
                decreases rest.len(),
            {
                let ghost j = out@.len() as int;
                assert(all.skip(j)[0] == all[j]);
                let item = rest.remove(0);
                assert(rest@ =~= all.skip(j + 1));
                out.push(simplify_item(item));
            }
            Some(Json::Array(out))
        },
        _ => None,
    }
}

/// The plain value of a JSON value: texts as character sequences.
pub enum JsonModel {
    Null,
    Bool(bool),
    Number(serde_json::Number),
    Str(Seq<char>),
    Array(Seq<JsonModel>),
    Object(Seq<(Seq<char>, JsonModel)>),
}

/// The plain value of a JSON value.
pub open spec fn json_view(j: Json) -> JsonModel
    decreases j,
{
    match j {
        Json::Null => JsonModel::Null,
        Json::Bool(b) => JsonModel::Bool(b),
        Json::Number(n) => JsonModel::Number(n),
        Json::Str(t) => JsonModel::Str(t@),
        Json::Array(items) => {
            proof {
                vstd::std_specs::vec::axiom_vec_decreases_to_view(items);
            }
            JsonModel::Array(items_view(items@))
        },
        Json::Object(members) => {
            proof {
                vstd::std_specs::vec::axiom_vec_decreases_to_view(members);
            }
            JsonModel::Object(members_view(members@))
        },
    }
}

/// The plain values of a sequence of JSON values.
pub open spec fn items_view(items: Seq<Json>) -> Seq<JsonModel>
    decreases items,
{
    if items.len() == 0 {
        Seq::empty()
    } else {
        proof {
            vstd::seq::axiom_seq_subrange_decreases(items, 0, items.len() - 1);
            vstd::seq::axiom_seq_index_decreases(items, items.len() - 1);
        }
        items_view(items.drop_last()).push(json_view(items.last()))
    }
}

/// The plain values of an object's members.
pub open spec fn members_view(members: Seq<(String, Json)>) -> Seq<(Seq<char>, JsonModel)>
    decreases members,
{
    if members.len() == 0 {
        Seq::empty()
    } else {
        proof {
            vstd::seq::axiom_seq_subrange_decreases(members, 0, members.len() - 1);
            vstd::seq::axiom_seq_index_decreases(members, members.len() - 1);
        }
        members_view(members.drop_last()).push((members.last().0@, json_view(members.last().1)))
    }
}

/// The fields of an item that its simplified form shows: the values of
/// `id`, `name`, `type` and `login.username` (`null` where absent).
pub open spec fn safe_fields(item: Json) -> (JsonModel, JsonModel, JsonModel, JsonModel) {
    (
        json_view(or_null(json_get(item, "id"@))),
        json_view(or_null(json_get(item, "name"@))),
        json_view(or_null(json_get(item, "type"@))),
        json_view(or_null(username_of(item))),
    )
}

/// `out` is the simplified list of `items`: an array with each item's
/// simplified form, in order.
pub open spec fn simplifies_all(items: Seq<Json>, out: Json) -> bool {
    match out {
        Json::Array(o) => o@.len() == items.len() && forall|i: int|
            0 <= i < items.len() ==> simplifies(items[i], #[trigger] o@[i]),
        _ => false,
    }
}

/// `res` is the reply of `bitwarden_list_items` for `bw list items`'s
/// outcome: when the output is a JSON array, the pretty-printed simplified
/// list; for any other output, the output as it is; for a failure, the
/// error reply.
pub open spec fn listing_reply(run: Result<Seq<char>, Seq<char>>, res: Seq<char>) -> bool {
    match run {
        Ok(raw) => match json_of(raw) {
            Some(Json::Array(items)) => exists|out: Json| #[trigger] simplifies_all(items@, out) && res
                == pretty_json_of(json_view(out)),
            _ => res == raw,
        },
        Err(e) => res == error_json_of(e),
    }
}

/// The reply of `bitwarden_list_items` for `bw list items`'s outcome.
pub fn list_items_output(run: Result<String, String>) -> (res: String)
    ensures
        listing_reply(result_view(run), res@),
{
    match run {
        Ok(raw) => {
            let parsed = parse_json(raw.as_str());
            let listing = match parsed {
                Some(j) => j,
                None => {
                    return raw;
                },
            };
            let ghost whole = listing;
            match simplify_items(listing) {
                Some(out) => {
                    assert(simplifies_all(whole->Array_0@, out));
                    let ghost o = out;
                    match pretty_json(out) {
                        Some(t) => {
                            assert(Some(t@) == Some(pretty_json_of(json_view(o))));
                            t
                        },
                        None => raw,
                    }
                },
                None => raw,
            }
        },
        Err(e) => error_json(e.as_str()),
    }
}

// ----------------------------------------------------------------------
// Generating passwords, creating items, saving the master password
// ----------------------------------------------------------------------

/// Whether an optional switch is on.
pub open spec fn is_on(flag: Option<bool>) -> bool {
    flag == Some(true)
}

/// `flag` when the switch is on, nothing otherwise.
pub open spec fn switch_arg(on: bool, flag: Seq<char>) -> Seq<Seq<char>> {
    if on {
        seq![flag]
    } else {
        Seq::empty()
    }
}

/// The `bw generate` arguments: a switch for each character set asked for
/// (`-u`, `-l`, `-n`, `-s`) and `--length <n>` when a length is given.
pub open spec fn generate_args_of(p: GeneratePasswordParam) -> Seq<Seq<char>> {
    seq!["generate"@] + switch_arg(is_on(p.uppercase), "-u"@) + switch_arg(is_on(p.lowercase), "-l"@)
        + switch_arg(is_on(p.numbers), "-n"@) + switch_arg(is_on(p.special), "-s"@) + match p.length {
        Some(n) => seq!["--length"@, decimal(n)],
        None => Seq::empty(),
    }
}

/// `bitwarden_get_password` and `bitwarden_get_totp` answer with `bw`'s
/// output cut down to a piece of it with no white space left at either end,
/// and a failure as `Error: ` followed by the error.
pub proof fn lemma_values_come_trimmed(out: Seq<char>, e: Seq<char>)
    ensures
        trimmed(value_reply(Ok(out))) == value_reply(Ok(out)),
        exists|a: int, b: int| 0 <= a <= b <= out.len() && value_reply(Ok(out)) == out.subrange(a, b),
        value_reply(Err(e)) == "Error: "@ + e,
{
    crate::setup::lemma_trimmed_shape(out);
}

/// A decimal representation starts with a digit.
proof fn lemma_decimal_starts_with_digit(n: u32)
    ensures
        decimal(n).len() >= 1,
        48 <= decimal(n)[0] as u32 <= 57,
    decreases n,
{
    if n >= 10 {
        lemma_decimal_starts_with_digit(n / 10);
        assert(decimal(n)[0] == decimal(n / 10)[0]);
    } else {
        let d = n;
        assert(((d + 48) as u8) as u32 == d + 48);
        assert((((d + 48) as u8) as char) as u32 == d + 48);
    }
}

/// An item of a concatenation is an item of one of its parts.
proof fn lemma_concat_contains(a: Seq<Seq<char>>, b: Seq<Seq<char>>, x: Seq<char>)
    ensures
        (a + b).contains(x) <==> (a.contains(x) || b.contains(x)),
{
    if (a + b).contains(x) {
        let i = choose|i: int| 0 <= i < (a + b).len() && (a + b)[i] == x;
        if i >= a.len() {
            assert(b[i - a.len()] == x);
        }
    }
    if a.contains(x) {
        let i = choose|i: int| 0 <= i < a.len() && a[i] == x;
        assert((a + b)[i] == x);
    }
    if b.contains(x) {
        let i = choose|i: int| 0 <= i < b.len() && b[i] == x;
        assert((a + b)[a.len() + i] == x);
    }
}

/// What `bw generate`'s argument list holds.
proof fn lemma_generate_args_contain(p: GeneratePasswordParam, x: Seq<char>)
    ensures
        generate_args_of(p).contains(x) <==> {
            ||| x == "generate"@
            ||| is_on(p.uppercase) && x == "-u"@
            ||| is_on(p.lowercase) && x == "-l"@
            ||| is_on(p.numbers) && x == "-n"@
            ||| is_on(p.special) && x == "-s"@
            ||| p.length matches Some(n) && (x == "--length"@ || x == decimal(n))
        },
{
    let g = seq!["generate"@];
    let su = switch_arg(is_on(p.uppercase), "-u"@);
    let sl = switch_arg(is_on(p.lowercase), "-l"@);
    let sn = switch_arg(is_on(p.numbers), "-n"@);
    let ss = switch_arg(is_on(p.special), "-s"@);
    let tail: Seq<Seq<char>> = match p.length {
        Some(n) => seq!["--length"@, decimal(n)],
        None => Seq::empty(),
    };
    lemma_concat_contains(g + su + sl + sn + ss, tail, x);
    lemma_concat_contains(g + su + sl + sn, ss, x);
    lemma_concat_contains(g + su + sl, sn, x);
    lemma_concat_contains(g + su, sl, x);
    lemma_concat_contains(g, su, x);
    assert(g.contains(x) <==> x == "generate"@) by {
        if g.contains(x) {
            let i = choose|i: int| 0 <= i < g.len() && g[i] == x;
        }
        if x == "generate"@ {
            assert(g[0] == x);
        }
    }
    assert(su.contains(x) <==> is_on(p.uppercase) && x == "-u"@) by {
        if is_on(p.uppercase) && x == "-u"@ {
            assert(su[0] == x);
        }
    }
    assert(sl.contains(x) <==> is_on(p.lowercase) && x == "-l"@) by {
        if is_on(p.lowercase) && x == "-l"@ {
            assert(sl[0] == x);
        }
    }
    assert(sn.contains(x) <==> is_on(p.numbers) && x == "-n"@) by {
        if is_on(p.numbers) && x == "-n"@ {
            assert(sn[0] == x);
        }
    }
    assert(ss.contains(x) <==> is_on(p.special) && x == "-s"@) by {
        if is_on(p.special) && x == "-s"@ {
            assert(ss[0] == x);
        }
    }
    match p.length {
        Some(n) => {
            assert(tail.contains(x) <==> (x == "--length"@ || x == decimal(n))) by {
                if x == "--length"@ {
                    assert(tail[0] == x);
                }
                if x == decimal(n) {
                    assert(tail[1] == x);
                }
            }
        },
        None => {
            assert(!tail.contains(x));
        },
    }
    assert(generate_args_of(p) == g + su + sl + sn + ss + tail);
}

/// Each character-set switch of `bitwarden_generate_password` passes its
/// own `bw generate` flag, and only when it is on: uppercase `-u`,
/// lowercase `-l`, numbers `-n`, special characters `-s`; a length is
/// passed as `--length` followed by its decimal value.
pub proof fn lemma_generate_switches_pass_their_flags(p: GeneratePasswordParam)
    ensures
        generate_args_of(p)[0] == "generate"@,
        generate_args_of(p).contains("-u"@) <==> p.uppercase == Some(true),
        generate_args_of(p).contains("-l"@) <==> p.lowercase == Some(true),
        generate_args_of(p).contains("-n"@) <==> p.numbers == Some(true),
        generate_args_of(p).contains("-s"@) <==> p.special == Some(true),
        generate_args_of(p).contains("--length"@) <==> p.length is Some,
        p.length matches Some(n) ==> generate_args_of(p).last() == decimal(n) && generate_args_of(p)[
            generate_args_of(p).len() - 2] == "--length"@,
{
    reveal_strlit("generate");
    reveal_strlit("-u");
    reveal_strlit("-l");
    reveal_strlit("-n");
    reveal_strlit("-s");
    reveal_strlit("--length");
    let g = seq!["generate"@];
    let su = switch_arg(is_on(p.uppercase), "-u"@);
    let sl = switch_arg(is_on(p.lowercase), "-l"@);
    let sn = switch_arg(is_on(p.numbers), "-n"@);
    let ss = switch_arg(is_on(p.special), "-s"@);
    let tail: Seq<Seq<char>> = match p.length {
        Some(n) => seq!["--length"@, decimal(n)],
        None => Seq::empty(),
    };
    let flags = seq!["-u"@, "-l"@, "-n"@, "-s"@, "--length"@];
    assert("generate"@.len() == 8 && "--length"@.len() == 8);
    assert("generate"@[0] != "--length"@[0]);
    assert("-u"@.len() == 2 && "-l"@.len() == 2 && "-n"@.len() == 2 && "-s"@.len() == 2);
    assert("-u"@[1] != "-l"@[1] && "-u"@[1] != "-n"@[1] && "-u"@[1] != "-s"@[1]);
    assert("-l"@[1] != "-n"@[1] && "-l"@[1] != "-s"@[1] && "-n"@[1] != "-s"@[1]);
    assert forall|k: int| 0 <= k < flags.len() implies #[trigger] flags[k] != "generate"@ by {
        if k == 4 {
            assert(flags[k][0] != "generate"@[0]);
        } else {
            assert(flags[k].len() != "generate"@.len());
        }
    }
    match p.length {
        Some(n) => {
            lemma_decimal_starts_with_digit(n);
            assert forall|k: int| 0 <= k < flags.len() implies #[trigger] flags[k] != decimal(n) by {
                assert(flags[k][0] == '-');
                assert(flags[k][0] != decimal(n)[0]);
            }
        },
        None => {},
    }
    assert(flags[0] == "-u"@ && flags[1] == "-l"@ && flags[2] == "-n"@ && flags[3] == "-s"@ && flags[4]
        == "--length"@);
    assert forall|k: int| 0 <= k < 4 implies #[trigger] flags[k] != "--length"@ by {
        assert(flags[k].len() != "--length"@.len());
    }
    lemma_generate_args_contain(p, flags[0]);
    lemma_generate_args_contain(p, flags[1]);
    lemma_generate_args_contain(p, flags[2]);
    lemma_generate_args_contain(p, flags[3]);
    lemma_generate_args_contain(p, flags[4]);
    assert(generate_args_of(p) == g + su + sl + sn + ss + tail);
    assert((g + su + sl + sn + ss + tail)[0] == "generate"@);
}

/// `j` is the JSON string `t`.
pub open spec fn is_text(j: Json, t: Seq<char>) -> bool {
    match j {
        Json::Str(x) => x@ == t,
        _ => false,
    }
}


/// The JSON form of an optional text: the string, or `null`.
pub open spec fn text_or_null(v: Option<String>, j: Json) -> bool {
    match v {
        Some(t) => is_text(j, t@),
        None => j is Null,
    }
}

/// `item` is the vault item `bw create item` is given for a login: type 1,
/// the name, the notes, and a login with the username, the password and
/// the URI (none when no URI is given).
pub open spec fn is_login_item(p: CreateLoginItemParam, item: Json) -> bool {
    match item {
        Json::Object(m) => {
            &&& m@.len() == 4
            &&& m@[0].0@ == "type"@ && m@[0].1 == Json::Number(number_of(1))
            &&& m@[1].0@ == "name"@ && is_text(m@[1].1, p.name@)
            &&& m@[2].0@ == "notes"@ && text_or_null(p.notes, m@[2].1)
            &&& m@[3].0@ == "login"@ && match m@[3].1 {
                Json::Object(l) => {
                    &&& l@.len() == 3
                    &&& l@[0].0@ == "username"@ && text_or_null(p.username, l@[0].1)
                    &&& l@[1].0@ == "password"@ && text_or_null(p.password, l@[1].1)
                    &&& l@[2].0@ == "uris"@ && match l@[2].1 {
                        Json::Array(u) => match p.uri {
                            Some(uri) => u@.len() == 1 && match u@[0] {
                                Json::Object(e) => e@.len() == 1 && e@[0].0@ == "uri"@ && is_text(e@[0].1, uri@),
                                _ => false,
                            },
                            None => u@.len() == 0,
                        },
                        _ => false,
                    }
                },
                _ => false,
            }
        },
        _ => false,
    }
}

/// How saving a master password through `bitwarden_set_password` ended.
#[derive(Debug, Clone)]
pub enum PasswordSaveOutcome {
    /// The password is empty once trimmed.
    Empty,
    /// Unlocking the vault with it failed.
    VerificationFailed(String),
    /// The credentials directory could not be created.
    CreateDirFailed(String),
    /// The credential file could not be written.
    WriteFailed(String),
    /// The password was verified and saved at `path`.
    Saved { path: String },
}

/// The message of a master password update's outcome.
pub open spec fn save_message(o: PasswordSaveOutcome) -> Seq<char> {
    match o {
        PasswordSaveOutcome::Empty => "Master password cannot be empty."@,
        PasswordSaveOutcome::VerificationFailed(e) => "Verification failed: "@ + e@,
        PasswordSaveOutcome::CreateDirFailed(e) => "Failed to create credentials directory: "@ + e@,
        PasswordSaveOutcome::WriteFailed(e) => "Failed to write credentials file: "@ + e@,
        PasswordSaveOutcome::Saved { .. } => "Bitwarden master password successfully verified and saved!"@,
    }
}

/// The JSON text value of an optional string.
fn text_json(v: &Option<String>) -> (res: Json)
    ensures
        text_or_null(*v, res),
{
    match v {
        Some(t) => Json::Str(t.clone()),
        None => Json::Null,
    }
}

impl BitwardenService {
    /// The `bw` arguments of `bitwarden_generate_password`.
    pub fn generate_args(param: &GeneratePasswordParam) -> (res: Vec<String>)
        ensures
            res.deep_view() == generate_args_of(*param),
    {
        let mut v: Vec<String> = Vec::new();
        v.push(String::from_str("generate"));
        let ghost mut expected = seq!["generate"@];
        assert(v.deep_view() =~= expected);
        if param.uppercase == Some(true) {
            v.push(String::from_str("-u"));
        }
        proof {
            expected = expected + switch_arg(is_on(param.uppercase), "-u"@);
        }
        assert(v.deep_view() =~= expected);
        if param.lowercase == Some(true) {
            v.push(String::from_str("-l"));
        }
        proof {
            expected = expected + switch_arg(is_on(param.lowercase), "-l"@);
        }
        assert(v.deep_view() =~= expected);
        if param.numbers == Some(true) {
            v.push(String::from_str("-n"));
        }
        proof {
            expected = expected + switch_arg(is_on(param.numbers), "-n"@);
        }
        assert(v.deep_view() =~= expected);
        if param.special == Some(true) {
            v.push(String::from_str("-s"));
        }
        proof {
            expected = expected + switch_arg(is_on(param.special), "-s"@);
        }
        assert(v.deep_view() =~= expected);
        match param.length {
            Some(n) => {
                v.push(String::from_str("--length"));
                v.push(decimal_string(n));
            },
            None => {},
        }
        assert(v.deep_view() =~= generate_args_of(*param));
        v
    }

    /// The vault item `bitwarden_create_login_item` creates.
    pub fn login_item(param: &CreateLoginItemParam) -> (res: Json)
        ensures
            is_login_item(*param, res),
    {
        let mut uris: Vec<Json> = Vec::new();
        match &param.uri {
            Some(u) => {
                let mut entry: Vec<(String, Json)> = Vec::new();
                entry.push((String::from_str("uri"), Json::Str(u.clone())));
                uris.push(Json::Object(entry));
            },
            None => {},
        }
        let mut login: Vec<(String, Json)> = Vec::new();
        login.push((String::from_str("username"), text_json(&param.username)));
        login.push((String::from_str("password"), text_json(&param.password)));
        login.push((String::from_str("uris"), Json::Array(uris)));
        let mut item: Vec<(String, Json)> = Vec::new();
        item.push((String::from_str("type"), Json::Number(json_number(1))));
        item.push((String::from_str("name"), Json::Str(param.name.clone())));
        item.push((String::from_str("notes"), text_json(&param.notes)));
        item.push((String::from_str("login"), Json::Object(login)));
        Json::Object(item)
    }

    /// The JSON text of the vault item `bitwarden_create_login_item`
    /// creates, as `bw encode` reads it.
    pub fn login_item_text(param: &CreateLoginItemParam) -> (res: String)
        ensures
            exists|j: Json| #[trigger] is_login_item(*param, j) && res@ == json_text_of(json_view(j)),
    {
        let item = Self::login_item(param);
        let ghost j = item;
        let t = json_text(item);
        assert(is_login_item(*param, j));
        t
    }

    /// The `bw` arguments that create an item from its encoded JSON.
    pub fn create_item_args(encoded: &str) -> (res: Vec<String>)
        ensures
            res.deep_view() == seq!["create"@, "item"@, trimmed(encoded@)],
    {
        let mut v = Vec::new();
        v.push(String::from_str("create"));
        v.push(String::from_str("item"));
        v.push(trim(encoded));
        assert(v.deep_view() =~= seq!["create"@, "item"@, trimmed(encoded@)]);
        v
    }
}

impl PasswordSaveOutcome {
    /// `success` for a saved password, `error` otherwise.
    pub fn status(&self) -> (res: &'static str)
        ensures
            res@ == (if *self is Saved {
                "success"@
            } else {
                "error"@
            }),
    {
        match self {
            PasswordSaveOutcome::Saved { .. } => "success",
            _ => "error",
        }
    }

    /// The message reported for this outcome.
    pub fn message(&self) -> (res: String)
        ensures
            res@ == save_message(*self),
    {
        match self {
            PasswordSaveOutcome::Empty => String::from_str("Master password cannot be empty."),
            PasswordSaveOutcome::VerificationFailed(e) => {
                let mut m = String::from_str("Verification failed: ");
                m.append(e.as_str());
                m
            },
            PasswordSaveOutcome::CreateDirFailed(e) => {
                let mut m = String::from_str("Failed to create credentials directory: ");
                m.append(e.as_str());
                m
            },
            PasswordSaveOutcome::WriteFailed(e) => {
                let mut m = String::from_str("Failed to write credentials file: ");
                m.append(e.as_str());
                m
            },
            PasswordSaveOutcome::Saved { .. } => String::from_str(
                "Bitwarden master password successfully verified and saved!",
            ),
        }
    }
}

// ----------------------------------------------------------------------
// bitwarden_set_password: test the unlock, then save
// ----------------------------------------------------------------------

/// Saving a master password given to `bitwarden_set_password`: the trimmed
/// password, and whether an unlock with it has succeeded. The file is
/// asked for only once the unlock has passed.
#[derive(Debug)]
pub struct SavePasswordFlow {
    password: String,
    verified: bool,
}

impl SavePasswordFlow {
    /// The accepted (trimmed) password.
    pub closed spec fn password(&self) -> Seq<char> {
        self.password@
    }

    /// An unlock with the password has succeeded.
    pub closed spec fn verified(&self) -> bool {
        self.verified
    }

    /// Checks the input: an empty password ends the save; another one is
    /// returned to be tested with an unlock.
    pub fn start(master_password: &str) -> (res: Result<(Self, String), PasswordSaveOutcome>)
        ensures
            match res {
                Ok((flow, p)) => {
                    &&& trimmed(master_password@).len() > 0
                    &&& !flow.verified()
                    &&& flow.password() == trimmed(master_password@)
                    &&& p@ == trimmed(master_password@)
                },
                Err(o) => trimmed(master_password@).len() == 0 && o is Empty,
            },
    {
        match check_bitwarden_input(master_password) {
            Some(p) => Ok((SavePasswordFlow { password: p.clone(), verified: false }, p)),
            None => Err(PasswordSaveOutcome::Empty),
        }
    }

    /// After the unlock (its session, or its error): `None` to go on to the
    /// directory, or the unlock's error.
    pub fn on_unlock(&mut self, r: Result<String, String>) -> (res: Option<PasswordSaveOutcome>)
        ensures
            final(self).password() == old(self).password(),
            match result_view(r) {
                Ok(_) => final(self).verified() && res is None,
                Err(e) => {
                    &&& final(self).verified() == old(self).verified()
                    &&& res matches Some(PasswordSaveOutcome::VerificationFailed(x)) && x@ == e
                },
            },
    {
        match r {
            Ok(_) => {
                self.verified = true;
                None
            },
            Err(e) => Some(PasswordSaveOutcome::VerificationFailed(e)),
        }
    }

    /// After creating the directory: the content of the credential file to
    /// write (only for a verified password), or the error.
    pub fn on_create_dir(&self, r: Result<(), String>) -> (res: Result<String, PasswordSaveOutcome>)
        requires
            self.verified(),
        ensures
            match r {
                Ok(()) => res matches Ok(c) && c@ == bitwarden_file_content(self.password()),
                Err(e) => res matches Err(PasswordSaveOutcome::CreateDirFailed(x)) && x@ == e@,
            },
    {
        match r {
            Ok(()) => Ok(bitwarden_credentials_file(self.password.as_str())),
            Err(e) => Err(PasswordSaveOutcome::CreateDirFailed(e)),
        }
    }

    /// After writing the file at `path`: saved, or the error.
    pub fn on_write(&self, path: String, r: Result<(), String>) -> (res: PasswordSaveOutcome)
        ensures
            match r {
                Ok(()) => res matches PasswordSaveOutcome::Saved { path: p } && p@ == path@,
                Err(e) => res matches PasswordSaveOutcome::WriteFailed(x) && x@ == e@,
            },
    {
        match r {
            Ok(()) => PasswordSaveOutcome::Saved { path },
            Err(e) => PasswordSaveOutcome::WriteFailed(e),
        }
    }
}

// ----------------------------------------------------------------------
// Laws
// ----------------------------------------------------------------------

proof fn lemma_items_view_index(items: Seq<Json>)
    ensures
        items_view(items).len() == items.len(),
        forall|i: int| 0 <= i < items.len() ==> #[trigger] items_view(items)[i] == json_view(items[i]),
    decreases items.len(),
{
    if items.len() > 0 {
        lemma_items_view_index(items.drop_last());
    }
}

proof fn lemma_members_view_index(members: Seq<(String, Json)>)
    ensures
        members_view(members).len() == members.len(),
        forall|i: int| 0 <= i < members.len() ==> #[trigger] members_view(members)[i] == (
            members[i].0@,
            json_view(members[i].1),
        ),
    decreases members.len(),
{
    if members.len() > 0 {
        lemma_members_view_index(members.drop_last());
    }
}

/// Two simplified items are the same value when the items agree on the
/// fields the simplified form shows.
proof fn lemma_simplified_item_depends_on_safe_fields(a: Json, b: Json, oa: Json, ob: Json)
    requires
        safe_fields(a) == safe_fields(b),
        simplifies(a, oa),
        simplifies(b, ob),
    ensures
        json_view(oa) == json_view(ob),
{
    let ma = oa->Object_0@;
    let mb = ob->Object_0@;
    lemma_members_view_index(ma);
    lemma_members_view_index(mb);
    assert(members_view(ma) =~= members_view(mb));
}

/// The simplified item list shows only the `id`, `name`, `type` and login
/// username of each item: two listings that agree item by item on these
/// give the same list, so no other field (password, TOTP secret, notes,
/// ...) reaches it.
pub proof fn lemma_listing_shows_only_safe_fields(a: Seq<Json>, b: Seq<Json>, out_a: Json, out_b: Json)
    requires
        a.len() == b.len(),
        forall|i: int| 0 <= i < a.len() ==> #[trigger] safe_fields(a[i]) == safe_fields(b[i]),
        simplifies_all(a, out_a),
        simplifies_all(b, out_b),
    ensures
        json_view(out_a) == json_view(out_b),
{
    let oa = out_a->Array_0@;
    let ob = out_b->Array_0@;
    lemma_items_view_index(oa);
    lemma_items_view_index(ob);
    assert forall|i: int| 0 <= i < oa.len() implies items_view(oa)[i] == items_view(ob)[i] by {
        assert(safe_fields(a[i]) == safe_fields(b[i]));
        assert(simplifies(a[i], oa[i]));
        assert(simplifies(b[i], ob[i]));
        lemma_simplified_item_depends_on_safe_fields(a[i], b[i], oa[i], ob[i]);
    }
    assert(items_view(oa) =~= items_view(ob));
}

/// The reply of `bitwarden_list_items` shows only the `id`, `name`, `type`
/// and login username of each vault item: when `bw` lists two vaults as
/// arrays that agree item by item on these, the two replies are the same
/// text, so no password, TOTP secret, note or other field reaches it.
pub proof fn lemma_listing_reply_shows_only_safe_fields(
    raw_a: Seq<char>,
    raw_b: Seq<char>,
    reply_a: Seq<char>,
    reply_b: Seq<char>,
)
    requires
        json_of(raw_a) matches Some(Json::Array(a)) && json_of(raw_b) matches Some(Json::Array(b)) && a@.len()
            == b@.len() && forall|i: int| 0 <= i < a@.len() ==> #[trigger] safe_fields(a@[i]) == safe_fields(b@[i]),
        listing_reply(Ok(raw_a), reply_a),
        listing_reply(Ok(raw_b), reply_b),
    ensures
        reply_a == reply_b,
{
    let a = json_of(raw_a)->Some_0->Array_0@;
    let b = json_of(raw_b)->Some_0->Array_0@;
    let oa = choose|out: Json| #[trigger] simplifies_all(a, out) && reply_a == pretty_json_of(json_view(out));
    let ob = choose|out: Json| #[trigger] simplifies_all(b, out) && reply_b == pretty_json_of(json_view(out));
    assert forall|i: int| 0 <= i < a.len() implies #[trigger] safe_fields(a[i]) == safe_fields(b[i]) by {
        assert(safe_fields(json_of(raw_a)->Some_0->Array_0@[i]) == safe_fields(json_of(raw_b)->Some_0->Array_0@[i]));
    }
    lemma_listing_shows_only_safe_fields(a, b, oa, ob);
}

/// Once a session is cached it is the one every later request gets, and the
/// cache no longer changes, whatever `BW_SESSION` says.
pub proof fn lemma_cached_session_is_reused(cached: Seq<char>, env_session: Option<Seq<char>>)
    ensures
        session_request(Some(cached), env_session) == (Some(cached), Some(cached)),
{
}

/// After a successful unlock, the next request yields the unlocked session
/// without another unlock.
pub proof fn lemma_unlock_then_request(
    cached: Option<Seq<char>>,
    stdout: Seq<u8>,
    stderr: Seq<u8>,
    env_session: Option<Seq<char>>,
)
    ensures
        ({
            let (after, r) = unlock_result(cached, true, stdout, stderr);
            session_request(after, env_session).1 == Some(r->Ok_0)
        }),
{
}

/// A failed unlock leaves the cache as it was.
pub proof fn lemma_failed_unlock_keeps_cache(cached: Option<Seq<char>>, stdout: Seq<u8>, stderr: Seq<u8>)
    ensures
        unlock_result(cached, false, stdout, stderr).0 == cached,
        unlock_result(cached, false, stdout, stderr).1 is Err,
{
}

/// A master password set in `BW_PASSWORD` is the one used, whatever else is set.
pub proof fn lemma_bw_password_wins(
    bw_password: Seq<char>,
    master_password: Option<Seq<char>>,
    files: Seq<Option<Seq<char>>>,
)
    requires
        trimmed(bw_password).len() > 0,
    ensures
        master_password_of(Some(bw_password), master_password, files) == Some(trimmed(bw_password)),
{
}

/// The password saved by `smcp setup bitwarden` is found when no
/// environment variable is set and the saved file is the first readable
/// candidate.
pub proof fn lemma_saved_master_password_found(raw: Seq<char>, later: Seq<Option<Seq<char>>>)
    requires
        trimmed(raw).len() > 0,
        !trimmed(raw).contains('\n'),
    ensures
        master_password_of(
            None,
            None,
            seq![Some(crate::setup::bitwarden_file_content(trimmed(raw)))] + later,
        ) == Some(trimmed(raw)),
{
    crate::setup::lemma_accepted_master_password_is_trimmed(raw);
    crate::setup::lemma_bitwarden_file_read_back(trimmed(raw));
    let files = seq![Some(crate::setup::bitwarden_file_content(trimmed(raw)))] + later;
    assert(files[0] == Some(crate::setup::bitwarden_file_content(trimmed(raw))));
}

} // verus!
