//! Gmail tools: mailbox names, search queries, newest-first UID selection,
//! UID sequence sets, mailbox management commands and credential lookup.
use vstd::prelude::*;
use crate::text::{
    error_json, error_json_of, trimmed, trim_start, trim_end, decimal, lowercase_of, lowercase, str_eq, trim, push_char,
    push_decimal, remove_char, newline_segments,
};
use crate::setup::{
    gmail_file_value, gmail_value_from_file, clean_app_password, checked_gmail_input,
    gmail_file_content, lemma_gmail_file_read_back, lemma_accepted_password_is_clean,
};

verus! {

/// The Gmail tool server. It holds no state: every call connects anew.
#[derive(Debug, Clone, Copy, Default)]
pub struct GmailService;

/// Arguments of `gmail_set_credentials`.
#[derive(Debug, Clone)]
pub struct SetCredentialsParam {
    /// User Gmail address (e.g. user@gmail.com)
    pub email: String,
    /// 16-character Google App Password
    pub app_password: String,
}

/// Arguments of `gmail_check_emails`.
#[derive(Debug, Clone)]
pub struct CheckEmailsParam {
    /// Maximum number of recent emails to retrieve (default: 10, max: 30)
    pub limit: Option<u32>,
    /// Filter type: 'unread', 'all', 'read', 'starred' (default: 'unread')
    pub filter: Option<String>,
    /// Mailbox/folder (default: 'inbox')
    pub folder: Option<String>,
    /// Optional search query to filter by sender, subject, or keyword
    pub query: Option<String>,
}

/// Arguments of `gmail_read_email`.
#[derive(Debug, Clone)]
pub struct ReadEmailParam {
    /// The permanent UID of the email from check_emails
    pub uid: u32,
    /// Mailbox/folder the email is in (default: 'inbox')
    pub folder: Option<String>,
}

/// Arguments of `gmail_reply_email`.
#[derive(Debug, Clone)]
pub struct ReplyEmailParam {
    /// The permanent UID of the email to reply to
    pub uid: u32,
    /// Mailbox/folder where original email resides (default: 'inbox')
    pub folder: Option<String>,
    /// Reply body text
    pub body: String,
    /// Optional custom sender display name
    pub from_name: Option<String>,
}

/// Arguments of `gmail_manage_email`.
#[derive(Debug, Clone)]
pub struct ManageEmailParam {
    /// The permanent UID of the email
    pub uid: u32,
    /// Action to execute: 'mark_read', 'mark_unread', 'star', 'unstar', 'trash'
    pub action: String,
    /// Mailbox/folder the email is currently in (default: 'inbox')
    pub folder: Option<String>,
}

/// Arguments of `gmail_send_email`.
#[derive(Debug, Clone)]
pub struct SendEmailParam {
    /// Recipient email address
    pub to: String,
    /// Email subject
    pub subject: String,
    /// Email body text (plain text or HTML)
    pub body: String,
    /// True if body is formatted HTML (default: false)
    pub is_html: Option<bool>,
    /// Optional custom sender display name
    pub from_name: Option<String>,
    /// Optional local file paths to attach
    pub attachments: Option<Vec<String>>,
}

// ----------------------------------------------------------------------
// Mailboxes
// ----------------------------------------------------------------------

/// The IMAP mailbox that a lowercased folder key names.
pub open spec fn mailbox_for(key: Seq<char>) -> Seq<char> {
    if key == "spam"@ || key == "junk"@ {
        "[Gmail]/Spam"@
    } else if key == "trash"@ || key == "bin"@ {
        "[Gmail]/Trash"@
    } else if key == "sent"@ || key == "sentmail"@ || key == "sent_mail"@ {
        "[Gmail]/Sent Mail"@
    } else if key == "drafts"@ || key == "draft"@ {
        "[Gmail]/Drafts"@
    } else if key == "all"@ || key == "allmail"@ || key == "all_mail"@ {
        "[Gmail]/All Mail"@
    } else if key == "starred"@ {
        "[Gmail]/Starred"@
    } else if key == "important"@ {
        "[Gmail]/Important"@
    } else {
        "INBOX"@
    }
}

/// The folder key a tool uses: the given folder, or `inbox`.
pub open spec fn folder_key(folder: Option<Seq<char>>) -> Seq<char> {
    match folder {
        Some(f) => f,
        None => "inbox"@,
    }
}

/// The eight mailboxes the tools can select.
pub open spec fn is_known_mailbox(m: Seq<char>) -> bool {
    ||| m == "[Gmail]/Spam"@
    ||| m == "[Gmail]/Trash"@
    ||| m == "[Gmail]/Sent Mail"@
    ||| m == "[Gmail]/Drafts"@
    ||| m == "[Gmail]/All Mail"@
    ||| m == "[Gmail]/Starred"@
    ||| m == "[Gmail]/Important"@
    ||| m == "INBOX"@
}

/// Every folder key names one of the eight known mailboxes.
pub proof fn lemma_mailbox_is_known(key: Seq<char>)
    ensures
        is_known_mailbox(mailbox_for(key)),
{
}

/// Each documented folder name selects its own Gmail mailbox: spam/junk,
/// trash/bin, sent/sentmail/sent_mail, drafts/draft, all/allmail/all_mail,
/// starred, important, and inbox.
pub proof fn lemma_folders_select_their_mailboxes()
    ensures
        mailbox_for("spam"@) == "[Gmail]/Spam"@,
        mailbox_for("junk"@) == "[Gmail]/Spam"@,
        mailbox_for("trash"@) == "[Gmail]/Trash"@,
        mailbox_for("bin"@) == "[Gmail]/Trash"@,
        mailbox_for("sent"@) == "[Gmail]/Sent Mail"@,
        mailbox_for("sentmail"@) == "[Gmail]/Sent Mail"@,
        mailbox_for("sent_mail"@) == "[Gmail]/Sent Mail"@,
        mailbox_for("drafts"@) == "[Gmail]/Drafts"@,
        mailbox_for("draft"@) == "[Gmail]/Drafts"@,
        mailbox_for("all"@) == "[Gmail]/All Mail"@,
        mailbox_for("allmail"@) == "[Gmail]/All Mail"@,
        mailbox_for("all_mail"@) == "[Gmail]/All Mail"@,
        mailbox_for("starred"@) == "[Gmail]/Starred"@,
        mailbox_for("important"@) == "[Gmail]/Important"@,
        mailbox_for("inbox"@) == "INBOX"@,
{
    reveal_strlit("spam");
    reveal_strlit("junk");
    reveal_strlit("trash");
    reveal_strlit("bin");
    reveal_strlit("sent");
    reveal_strlit("sentmail");
    reveal_strlit("sent_mail");
    reveal_strlit("drafts");
    reveal_strlit("draft");
    reveal_strlit("all");
    reveal_strlit("allmail");
    reveal_strlit("all_mail");
    reveal_strlit("starred");
    reveal_strlit("important");
    reveal_strlit("inbox");
    assert("spam"@.len() == 4);
    assert("junk"@.len() == 4);
    assert("trash"@.len() == 5);
    assert("bin"@.len() == 3);
    assert("sent"@.len() == 4);
    assert("sentmail"@.len() == 8);
    assert("sent_mail"@.len() == 9);
    assert("drafts"@.len() == 6);
    assert("draft"@.len() == 5);
    assert("all"@.len() == 3);
    assert("allmail"@.len() == 7);
    assert("all_mail"@.len() == 8);
    assert("starred"@.len() == 7);
    assert("important"@.len() == 9);
    assert("inbox"@.len() == 5);
    assert("junk"@[0] != "spam"@[0]);
    assert("sent"@[1] != "spam"@[1]);
    assert("sent"@[0] != "junk"@[0]);
    assert("draft"@[0] != "trash"@[0]);
    assert("all"@[0] != "bin"@[0]);
    assert("all_mail"@[0] != "sentmail"@[0]);
    assert("starred"@[0] != "allmail"@[0]);
    assert("important"@[0] != "sent_mail"@[0]);
    assert("inbox"@[0] != "trash"@[0]);
    assert("inbox"@[0] != "draft"@[0]);
}

/// The search criterion that a lowercased filter key selects.
pub open spec fn criterion_for(key: Seq<char>) -> Seq<char> {
    if key == "all"@ {
        "ALL"@
    } else if key == "read"@ || key == "seen"@ {
        "SEEN"@
    } else if key == "starred"@ || key == "flagged"@ {
        "FLAGGED"@
    } else {
        "UNSEEN"@
    }
}

/// The filter key a search uses: the given filter, or `unread`.
pub open spec fn filter_key(filter: Option<Seq<char>>) -> Seq<char> {
    match filter {
        Some(f) => f,
        None => "unread"@,
    }
}

/// The IMAP search query: the criterion, followed by a `TEXT` term when the
/// trimmed query is not empty.
pub open spec fn search_query_of(criterion: Seq<char>, query: Option<Seq<char>>) -> Seq<char> {
    match query {
        Some(q) => if trimmed(q).len() > 0 {
            criterion + " TEXT \""@ + trimmed(q) + "\""@
        } else {
            criterion
        },
        None => criterion,
    }
}

/// How many UIDs a check returns at most: the limit (default 10) clamped to 1..=30.
pub open spec fn clamped_limit(limit: Option<u32>) -> int {
    let l = match limit {
        Some(l) => l as int,
        None => 10,
    };
    if l < 1 {
        1
    } else if l > 30 {
        30
    } else {
        l
    }
}

/// A check returns at most 10 messages by default, and never more than 30
/// (nor fewer than 1) whatever limit is asked for.
pub proof fn lemma_limit_bounds(limit: Option<u32>)
    ensures
        1 <= clamped_limit(limit) <= 30,
        limit is None ==> clamped_limit(limit) == 10,
        limit matches Some(l) ==> (1 <= l <= 30 ==> clamped_limit(limit) == l),
{
}

/// Each documented filter selects its own messages: `all` every message,
/// `read`/`seen` the read ones, `starred`/`flagged` the starred ones, and
/// `unread` (as any other key) the unread ones.
pub proof fn lemma_filters_select_their_messages(key: Seq<char>)
    ensures
        criterion_for("all"@) == "ALL"@,
        criterion_for("read"@) == "SEEN"@,
        criterion_for("seen"@) == "SEEN"@,
        criterion_for("starred"@) == "FLAGGED"@,
        criterion_for("flagged"@) == "FLAGGED"@,
        criterion_for("unread"@) == "UNSEEN"@,
        (criterion_for(key) == "SEEN"@) <==> (key == "read"@ || key == "seen"@),
        (criterion_for(key) == "FLAGGED"@) <==> (key == "starred"@ || key == "flagged"@),
        (criterion_for(key) == "ALL"@) <==> key == "all"@,
{
    reveal_strlit("all");
    reveal_strlit("read");
    reveal_strlit("seen");
    reveal_strlit("starred");
    reveal_strlit("flagged");
    reveal_strlit("unread");
    reveal_strlit("ALL");
    reveal_strlit("SEEN");
    reveal_strlit("FLAGGED");
    reveal_strlit("UNSEEN");
    assert("all"@.len() == 3 && "read"@.len() == 4 && "seen"@.len() == 4);
    assert("read"@ != "all"@ && "seen"@ != "all"@);
    assert("starred"@.len() == 7 && "flagged"@.len() == 7 && "unread"@.len() == 6);
    assert("starred"@ != "all"@ && "starred"@ != "read"@ && "starred"@ != "seen"@);
    assert("flagged"@ != "all"@ && "flagged"@ != "read"@ && "flagged"@ != "seen"@);
    assert("unread"@ != "all"@ && "unread"@ != "read"@ && "unread"@ != "seen"@);
    assert("unread"@ != "starred"@ && "unread"@ != "flagged"@);
    assert("SEEN"@.len() == 4 && "ALL"@.len() == 3 && "FLAGGED"@.len() == 7 && "UNSEEN"@.len() == 6);
    assert("SEEN"@ != "ALL"@ && "SEEN"@ != "FLAGGED"@ && "SEEN"@ != "UNSEEN"@);
    assert("FLAGGED"@ != "ALL"@ && "FLAGGED"@ != "UNSEEN"@ && "ALL"@ != "UNSEEN"@);
}

/// The UIDs joined by commas, in decimal: an IMAP sequence set.
pub open spec fn sequence_set_of(uids: Seq<u32>) -> Seq<char>
    decreases uids.len(),
{
    if uids.len() == 0 {
        Seq::<char>::empty()
    } else if uids.len() == 1 {
        decimal(uids[0])
    } else {
        sequence_set_of(uids.drop_last()).push(',') + decimal(uids.last())
    }
}

/// A sequence set names each UID in decimal, separated by commas: one UID
/// is written alone, and each further UID adds a comma and its decimal.
pub proof fn lemma_sequence_sets_join_with_commas(uids: Seq<u32>, next: u32)
    ensures
        sequence_set_of(seq![next]) == decimal(next),
        uids.len() > 0 ==> sequence_set_of(uids.push(next)) == sequence_set_of(uids) + ","@ + decimal(next),
{
    reveal_strlit(",");
    assert(seq![next][0] == next);
    if uids.len() > 0 {
        assert(uids.push(next).drop_last() =~= uids);
        assert(sequence_set_of(uids).push(',') =~= sequence_set_of(uids) + ","@);
    }
}

/// The mailbox actions `gmail_manage_email` knows.
#[derive(Debug, Clone, Copy, PartialEq, Eq, Structural)]
pub enum ManageAction {
    MarkRead,
    MarkUnread,
    Star,
    Unstar,
    Trash,
}

/// The action a lowercased action key names, if any.
pub open spec fn action_for(key: Seq<char>) -> Option<ManageAction> {
    if key == "mark_read"@ || key == "read"@ {
        Some(ManageAction::MarkRead)
    } else if key == "mark_unread"@ || key == "unread"@ {
        Some(ManageAction::MarkUnread)
    } else if key == "star"@ {
        Some(ManageAction::Star)
    } else if key == "unstar"@ {
        Some(ManageAction::Unstar)
    } else if key == "trash"@ || key == "delete"@ {
        Some(ManageAction::Trash)
    } else {
        None
    }
}

/// The `UID STORE` flag change of an action.
pub open spec fn store_flags_of(a: ManageAction) -> Seq<char> {
    match a {
        ManageAction::MarkRead => "+FLAGS (\\Seen)"@,
        ManageAction::MarkUnread => "-FLAGS (\\Seen)"@,
        ManageAction::Star => "+FLAGS (\\Flagged)"@,
        ManageAction::Unstar => "-FLAGS (\\Flagged)"@,
        ManageAction::Trash => "+FLAGS (\\Deleted)"@,
    }
}

/// What a manage request resolves to: the lowercased action, and the action
/// it names if it is a known one.
#[derive(Debug)]
pub struct ManagePlan {
    pub normalized: String,
    pub action: Option<ManageAction>,
}

/// Each documented action name changes its own flags: `mark_read`/`read`
/// sets `\\Seen`, `mark_unread`/`unread` clears it, `star` sets
/// `\\Flagged`, `unstar` clears it, and `trash`/`delete` sets `\\Deleted`;
/// any other name is no action.
pub proof fn lemma_actions_change_their_flags(key: Seq<char>)
    ensures
        action_for("mark_read"@) matches Some(a) && store_flags_of(a) == "+FLAGS (\\Seen)"@,
        action_for("read"@) matches Some(a) && store_flags_of(a) == "+FLAGS (\\Seen)"@,
        action_for("mark_unread"@) matches Some(a) && store_flags_of(a) == "-FLAGS (\\Seen)"@,
        action_for("unread"@) matches Some(a) && store_flags_of(a) == "-FLAGS (\\Seen)"@,
        action_for("star"@) matches Some(a) && store_flags_of(a) == "+FLAGS (\\Flagged)"@,
        action_for("unstar"@) matches Some(a) && store_flags_of(a) == "-FLAGS (\\Flagged)"@,
        action_for("trash"@) == Some(ManageAction::Trash) && store_flags_of(ManageAction::Trash)
            == "+FLAGS (\\Deleted)"@,
        action_for("delete"@) == Some(ManageAction::Trash),
        action_for(key) is Some <==> (key == "mark_read"@ || key == "read"@ || key == "mark_unread"@ || key
            == "unread"@ || key == "star"@ || key == "unstar"@ || key == "trash"@ || key == "delete"@),
        action_for(key) == Some(ManageAction::Trash) <==> (key == "trash"@ || key == "delete"@),
{
    reveal_strlit("mark_read");
    reveal_strlit("read");
    reveal_strlit("mark_unread");
    reveal_strlit("unread");
    reveal_strlit("star");
    reveal_strlit("unstar");
    reveal_strlit("trash");
    reveal_strlit("delete");
    reveal_strlit("+FLAGS (\\Seen)");
    reveal_strlit("-FLAGS (\\Seen)");
    reveal_strlit("+FLAGS (\\Flagged)");
    reveal_strlit("-FLAGS (\\Flagged)");
    reveal_strlit("+FLAGS (\\Deleted)");
    assert("mark_read"@.len() == 9 && "read"@.len() == 4 && "mark_unread"@.len() == 11);
    assert("unread"@.len() == 6 && "star"@.len() == 4 && "unstar"@.len() == 6);
    assert("trash"@.len() == 5 && "delete"@.len() == 6);
    assert("mark_unread"@ != "mark_read"@ && "mark_unread"@ != "read"@);
    assert("unread"@ != "mark_read"@ && "unread"@ != "read"@ && "unread"@ != "mark_unread"@);
    assert("star"@[0] != "read"@[0]);
    assert("star"@ != "read"@);
    assert("unstar"@[2] != "unread"@[2]);
    assert("unstar"@ != "unread"@ && "unstar"@ != "mark_read"@ && "unstar"@ != "mark_unread"@);
    assert("unstar"@ != "read"@ && "unstar"@ != "star"@);
    assert("trash"@ != "mark_read"@ && "trash"@ != "read"@ && "trash"@ != "mark_unread"@);
    assert("trash"@ != "unread"@ && "trash"@ != "star"@ && "trash"@ != "unstar"@);
    assert("delete"@ != "mark_read"@ && "delete"@ != "read"@ && "delete"@ != "mark_unread"@);
    assert("delete"@[0] != "unread"@[0] && "delete"@[0] != "unstar"@[0]);
    assert("delete"@ != "unread"@ && "delete"@ != "star"@ && "delete"@ != "unstar"@);
    assert("delete"@ != "trash"@);
}

impl ManageAction {
    /// The flag change that `UID STORE` applies for this action.
    pub fn store_flags(&self) -> (res: &'static str)
        ensures
            res@ == store_flags_of(*self),
    {
        match self {
            ManageAction::MarkRead => "+FLAGS (\\Seen)",
            ManageAction::MarkUnread => "-FLAGS (\\Seen)",
            ManageAction::Star => "+FLAGS (\\Flagged)",
            ManageAction::Unstar => "-FLAGS (\\Flagged)",
            ManageAction::Trash => "+FLAGS (\\Deleted)",
        }
    }

    /// The mailbox the message is first copied to, if any: `[Gmail]/Trash`
    /// for a trash action.
    pub fn copy_target(&self) -> (res: Option<&'static str>)
        ensures
            match res {
                Some(m) => *self == ManageAction::Trash && m@ == "[Gmail]/Trash"@,
                None => *self != ManageAction::Trash,
            },
    {
        match self {
            ManageAction::Trash => Some("[Gmail]/Trash"),
            _ => None,
        }
    }
}

impl GmailService {
    /// The mailbox a lowercased folder key names.
    pub fn mailbox_for_key(key: &str) -> (res: &'static str)
        ensures
            res@ == mailbox_for(key@),
    {
        if str_eq(key, "spam") || str_eq(key, "junk") {
            "[Gmail]/Spam"
        } else if str_eq(key, "trash") || str_eq(key, "bin") {
            "[Gmail]/Trash"
        } else if str_eq(key, "sent") || str_eq(key, "sentmail") || str_eq(key, "sent_mail") {
            "[Gmail]/Sent Mail"
        } else if str_eq(key, "drafts") || str_eq(key, "draft") {
            "[Gmail]/Drafts"
        } else if str_eq(key, "all") || str_eq(key, "allmail") || str_eq(key, "all_mail") {
            "[Gmail]/All Mail"
        } else if str_eq(key, "starred") {
            "[Gmail]/Starred"
        } else if str_eq(key, "important") {
            "[Gmail]/Important"
        } else {
            "INBOX"
        }
    }

    /// The IMAP mailbox for a folder name (default `inbox`), matched
    /// case-insensitively; unknown names select `INBOX`.
    pub fn resolve_mailbox_name(folder: Option<&str>) -> (res: &'static str)
        ensures
            res@ == mailbox_for(lowercase_of(folder_key(
                match folder {
                    Some(f) => Some(f@),
                    None => None,
                },
            ))),
            is_known_mailbox(res@),
    {
        let key = match folder {
            Some(f) => lowercase(f),
            None => lowercase("inbox"),
        };
        Self::mailbox_for_key(key.as_str())
    }

    /// The search criterion a lowercased filter key selects.
    pub fn criterion_for_key(key: &str) -> (res: &'static str)
        ensures
            res@ == criterion_for(key@),
    {
        if str_eq(key, "all") {
            "ALL"
        } else if str_eq(key, "read") || str_eq(key, "seen") {
            "SEEN"
        } else if str_eq(key, "starred") || str_eq(key, "flagged") {
            "FLAGGED"
        } else {
            "UNSEEN"
        }
    }

    /// The search query for a criterion and an optional free-text query.
    pub fn search_query_with(criterion: &str, query: Option<&str>) -> (res: String)
        ensures
            res@ == search_query_of(
                criterion@,
                match query {
                    Some(q) => Some(q@),
                    None => None,
                },
            ),
    {
        match query {
            Some(q) => {
                let t = trim(q);
                if t.unicode_len() > 0 {
                    let mut r = String::from_str(criterion);
                    r.append(" TEXT \"");
                    r.append(t.as_str());
                    r.append("\"");
                    r
                } else {
                    String::from_str(criterion)
                }
            },
            None => String::from_str(criterion),
        }
    }

    /// The IMAP search query of a check: the filter (default `unread`,
    /// matched case-insensitively) and the optional free-text query.
    pub fn imap_search_query(param: &CheckEmailsParam) -> (res: String)
        ensures
            res@ == search_query_of(
                criterion_for(lowercase_of(filter_key(param.filter.deep_view()))),
                param.query.deep_view(),
            ),
    {
        let key = match &param.filter {
            Some(f) => lowercase(f.as_str()),
            None => lowercase("unread"),
        };
        let criterion = Self::criterion_for_key(key.as_str());
        match &param.query {
            Some(q) => Self::search_query_with(criterion, Some(q.as_str())),
            None => Self::search_query_with(criterion, None),
        }
    }

    /// The newest UIDs of a search result: the `clamped_limit(limit)`
    /// largest distinct UIDs, largest first.
    pub fn select_newest_uids(uids: &Vec<u32>, limit: Option<u32>) -> (res: Vec<u32>)
        ensures
            res.len() <= clamped_limit(limit),
            forall|i: int, j: int| 0 <= i < j < res.len() ==> res[i] > res[j],
            forall|i: int| 0 <= i < res.len() ==> uids@.contains(#[trigger] res[i]),
            forall|x: u32| uids@.contains(x) && !res@.contains(x) ==> forall|i: int|
                0 <= i < res.len() ==> x < #[trigger] res[i],
            res.len() < clamped_limit(limit) ==> forall|x: u32|
                uids@.contains(x) ==> res@.contains(x),
    {
        let l: u32 = match limit {
            Some(l) => l,
            None => 10,
        };
        let k: usize = if l < 1 {
            1
        } else if l > 30 {
            30
        } else {
            l as usize
        };
        let mut res: Vec<u32> = Vec::new();
        let n = uids.len();
        while res.len() < k
            invariant
                k == clamped_limit(limit),
                n == uids.len(),
                res.len() <= k,
                forall|i: int, j: int| 0 <= i < j < res.len() ==> res[i] > res[j],
                forall|i: int| 0 <= i < res.len() ==> uids@.contains(#[trigger] res[i]),
                forall|x: u32| uids@.contains(x) && !res@.contains(x) ==> forall|i: int|
                    0 <= i < res.len() ==> x < #[trigger] res[i],
            decreases k - res.len(),
        {
            // The largest UID below the last one taken.
            let mut best: Option<u32> = None;
            let mut j: usize = 0;
            while j < n
                invariant
                    n == uids.len(),
                    j <= n,
                    forall|i: int, m: int| 0 <= i < m < res.len() ==> res[i] > res[m],
                    best matches Some(b) ==> uids@.contains(b) && (res.len() == 0 || b
                        < res[res.len() - 1]),
                    forall|m: int|
                        0 <= m < j && (res.len() == 0 || uids[m] < res[res.len() - 1]) ==> (
                        best matches Some(b) && uids[m] <= b),
                decreases n - j,
            {
                let x = uids[j];
                let below = res.len() == 0 || x < res[res.len() - 1];
                if below {
                    match best {
                        Some(b) => {
                            if x > b {
                                best = Some(x);
                            }
                        },
                        None => {
                            best = Some(x);
                        },
                    }
                }
                j += 1;
            }
            match best {
                Some(b) => {
                    let ghost old_res = res@;
                    res.push(b);
                    assert forall|x: u32| uids@.contains(x) && !res@.contains(x) implies forall|
                        i: int,
                    | 0 <= i < res.len() ==> x < #[trigger] res[i] by {
                        assert(!old_res.contains(x)) by {
                            if old_res.contains(x) {
                                let t = choose|t: int| 0 <= t < old_res.len() && old_res[t] == x;
                                assert(res@[t] == x);
                            }
                        }
                        let m = choose|m: int| 0 <= m < uids.len() && uids[m] == x;
                        assert(x != b) by {
                            assert(res@[res.len() - 1] == b);
                        }
                    }
                    assert forall|i: int| 0 <= i < res.len() implies uids@.contains(
                        #[trigger] res[i],
                    ) by {
                        if i < old_res.len() {
                            assert(res[i] == old_res[i]);
                        }
                    }
                },
                None => {
                    assert forall|x: u32| uids@.contains(x) implies res@.contains(x) by {
                        if !res@.contains(x) {
                            let m = choose|m: int| 0 <= m < uids.len() && uids[m] == x;
                            if res.len() > 0 {
                                assert(x < res[res.len() - 1]);
                            }
                        }
                    }
                    return res;
                },
            }
        }
        res
    }

    /// The IMAP sequence set naming the given UIDs.
    pub fn uid_sequence_set(uids: &Vec<u32>) -> (res: String)
        ensures
            res@ == sequence_set_of(uids@),
    {
        let mut r = String::new();
        let n = uids.len();
        let mut i: usize = 0;
        while i < n
            invariant
                n == uids.len(),
                i <= n,
                r@ == sequence_set_of(uids@.take(i as int)),
            decreases n - i,
        {
            assert(uids@.take(i + 1).drop_last() =~= uids@.take(i as int));
            assert(uids@.take(i + 1).last() == uids[i as int]);
            if i > 0 {
                push_char(&mut r, ',');
            }
            push_decimal(&mut r, uids[i]);
            i += 1;
        }
        assert(uids@.take(n as int) =~= uids@);
        r
    }

    /// The action a lowercased action key names.
    pub fn action_for_key(key: &str) -> (res: Option<ManageAction>)
        ensures
            res == action_for(key@),
    {
        if str_eq(key, "mark_read") || str_eq(key, "read") {
            Some(ManageAction::MarkRead)
        } else if str_eq(key, "mark_unread") || str_eq(key, "unread") {
            Some(ManageAction::MarkUnread)
        } else if str_eq(key, "star") {
            Some(ManageAction::Star)
        } else if str_eq(key, "unstar") {
            Some(ManageAction::Unstar)
        } else if str_eq(key, "trash") || str_eq(key, "delete") {
            Some(ManageAction::Trash)
        } else {
            None
        }
    }

    /// Resolves a manage request's action, matched case-insensitively.
    pub fn manage_plan(action: &str) -> (res: ManagePlan)
        ensures
            res.normalized@ == lowercase_of(action@),
            res.action == action_for(lowercase_of(action@)),
    {
        let normalized = lowercase(action);
        let a = Self::action_for_key(normalized.as_str());
        ManagePlan { normalized, action: a }
    }

    /// The reply to an unknown manage action.
    pub fn unknown_action_message(action: &str) -> (res: String)
        ensures
            res@ == "Unknown action '"@ + action@
                + "'. Valid: mark_read, mark_unread, star, unstar, trash"@,
    {
        let mut r = String::from_str("Unknown action '");
        r.append(action);
        r.append("'. Valid: mark_read, mark_unread, star, unstar, trash");
        r
    }
}

// ----------------------------------------------------------------------
// Credentials
// ----------------------------------------------------------------------

/// The reply when no Gmail address is configured.
pub open spec fn missing_email_message() -> Seq<char> {
    "Gmail email address not configured. Please use tool `gmail_set_credentials` or run `smcp setup gmail`."@
}

/// The reply when no Gmail app password is configured.
pub open spec fn missing_password_message() -> Seq<char> {
    "Gmail app password not configured. Please use tool `gmail_set_credentials` or run `smcp setup gmail`."@
}

/// The Gmail credentials the servers use: `GMAIL_EMAIL` and
/// `GMAIL_APP_PASSWORD` from the environment (trimmed), each filled, while
/// empty, from the credential file when there is one; the password then
/// loses its spaces and is trimmed.
pub open spec fn credentials_from(
    env_email: Seq<char>,
    env_password: Seq<char>,
    file: Option<Seq<char>>,
) -> Result<(Seq<char>, Seq<char>), Seq<char>> {
    let e0 = trimmed(env_email);
    let p0 = trimmed(env_password);
    let e = match file {
        Some(c) => gmail_file_value(e0, newline_segments(c), "GMAIL_EMAIL="@),
        None => e0,
    };
    let p = match file {
        Some(c) => gmail_file_value(p0, newline_segments(c), "GMAIL_APP_PASSWORD="@),
        None => p0,
    };
    let clean = clean_app_password(p);
    if e.len() == 0 {
        Err(missing_email_message())
    } else if clean.len() == 0 {
        Err(missing_password_message())
    } else {
        Ok((e, clean))
    }
}

impl GmailService {
    /// Resolves the Gmail credentials from the environment values (empty
    /// when unset) and the credential file's content (`None` when there is
    /// no readable file).
    pub fn resolve_credentials(env_email: &str, env_password: &str, file: Option<&str>) -> (res:
        Result<(String, String), String>)
        ensures
            match res {
                Ok((e, p)) => credentials_from(
                    env_email@,
                    env_password@,
                    match file {
                        Some(c) => Some(c@),
                        None => None,
                    },
                ) == Ok::<(Seq<char>, Seq<char>), Seq<char>>((e@, p@)),
                Err(m) => credentials_from(
                    env_email@,
                    env_password@,
                    match file {
                        Some(c) => Some(c@),
                        None => None,
                    },
                ) == Err::<(Seq<char>, Seq<char>), Seq<char>>(m@),
            },
    {
        let mut email = trim(env_email);
        let mut app_password = trim(env_password);
        match file {
            Some(content) => {
                email = gmail_value_from_file(email, content, "GMAIL_EMAIL=");
                app_password = gmail_value_from_file(app_password, content, "GMAIL_APP_PASSWORD=");
            },
            None => {},
        }
        let no_spaces = remove_char(app_password.as_str(), ' ');
        let clean = trim(no_spaces.as_str());
        if email.unicode_len() == 0 {
            return Err(String::from_str(
                "Gmail email address not configured. Please use tool `gmail_set_credentials` or run `smcp setup gmail`.",
            ));
        }
        if clean.unicode_len() == 0 {
            return Err(String::from_str(
                "Gmail app password not configured. Please use tool `gmail_set_credentials` or run `smcp setup gmail`.",
            ));
        }
        Ok((email, clean))
    }
}

/// A value that is not empty is never replaced by the credential file.
proof fn lemma_file_keeps_set_value(init: Seq<char>, lines: Seq<Seq<char>>, prefix: Seq<char>)
    requires
        init.len() > 0,
    ensures
        gmail_file_value(init, lines, prefix) == init,
    decreases lines.len(),
{
    if lines.len() > 0 {
        lemma_file_keeps_set_value(init, lines.drop_last(), prefix);
    }
}

/// The empty string is its own trim.
proof fn lemma_trimmed_empty()
    ensures
        trimmed(Seq::<char>::empty()) == Seq::<char>::empty(),
{
    assert(trim_start(Seq::<char>::empty()) == Seq::<char>::empty());
    assert(trim_end(Seq::<char>::empty()) == Seq::<char>::empty());
}

/// Credentials saved by `gmail_set_credentials` or `smcp setup gmail` are
/// the ones the tools then use: when the environment sets neither value,
/// the file written for an accepted email and app password resolves to
/// that email and that password (for inputs whose accepted forms hold no
/// line feed).
pub proof fn lemma_saved_credentials_resolve(raw_email: Seq<char>, raw_password: Seq<char>)
    requires
        checked_gmail_input(raw_email, raw_password) is Ok,
        !checked_gmail_input(raw_email, raw_password)->Ok_0.0.contains('\n'),
        !checked_gmail_input(raw_email, raw_password)->Ok_0.1.contains('\n'),
    ensures
        ({
            let (e, p) = checked_gmail_input(raw_email, raw_password)->Ok_0;
            credentials_from(""@, ""@, Some(gmail_file_content(e, p))) == Ok::<
                (Seq<char>, Seq<char>),
                Seq<char>,
            >((e, p))
        }),
{
    let (e, p) = checked_gmail_input(raw_email, raw_password)->Ok_0;
    reveal_strlit("");
    assert(""@ =~= Seq::<char>::empty());
    lemma_trimmed_empty();
    crate::setup::lemma_trimmed_shape(raw_email);
    lemma_accepted_password_is_clean(raw_password);
    lemma_gmail_file_read_back(e, p);
}

/// A `GMAIL_EMAIL` set in the environment is the email used, whatever the
/// credential file says.
pub proof fn lemma_environment_email_wins(env_email: Seq<char>, env_password: Seq<char>, file: Option<Seq<char>>)
    requires
        trimmed(env_email).len() > 0,
    ensures
        credentials_from(env_email, env_password, file) matches Err(m) ==> m == missing_password_message(),
        credentials_from(env_email, env_password, file) matches Ok((e, _)) ==> e == trimmed(env_email),
{
    match file {
        Some(c) => {
            lemma_file_keeps_set_value(trimmed(env_email), newline_segments(c), "GMAIL_EMAIL="@);
        },
        None => {},
    }
}

// ----------------------------------------------------------------------
// Failure replies
// ----------------------------------------------------------------------

/// The ways a Gmail tool can fail, with the details each reports.
#[derive(Debug, Clone)]
pub enum GmailFailure {
    /// Credentials are missing (the message is reported as it is).
    Credentials(String),
    TlsBuild(String),
    ImapConnect(String),
    ImapLogin(String),
    SelectMailbox { mailbox: String, error: String },
    Search { query: String, error: String },
    FetchHeaders(String),
    FetchMessage { uid: u32, mailbox: String, error: String },
    ExecuteAction(String),
    /// Copying the message to `[Gmail]/Trash` failed.
    MoveToTrash(String),
    /// Selecting the mailbox of the message replied to failed.
    ReplySelect(String),
    /// Fetching the message replied to failed.
    ReplyFetch(String),
    /// The message replied to could not be read (the inner message).
    OriginalFetch(String),
    BuildReply(String),
    SendReply(String),
    BuildEmail(String),
    SendEmail(String),
    AttachmentType { path: String, error: String },
    TaskJoin(String),
}

/// The message a failure reports.
pub open spec fn failure_message(f: GmailFailure) -> Seq<char> {
    match f {
        GmailFailure::Credentials(m) => m@,
        GmailFailure::TlsBuild(e) => "TLS build failed: "@ + e@,
        GmailFailure::ImapConnect(e) => "IMAP connect failed: "@ + e@,
        GmailFailure::ImapLogin(e) => "IMAP login failed: "@ + e@,
        GmailFailure::SelectMailbox { mailbox, error } => "Failed to select mailbox '"@ + mailbox@ + "': "@ + error@,
        GmailFailure::Search { query, error } => "Failed to search emails with query '"@ + query@ + "': "@ + error@,
        GmailFailure::FetchHeaders(e) => "Failed to fetch headers: "@ + e@,
        GmailFailure::FetchMessage { uid, mailbox, error } => "Failed to fetch message UID "@ + decimal(uid) + " from '"@ + mailbox@ + "': "@ + error@,
        GmailFailure::ExecuteAction(e) => "Failed to execute action: "@ + e@,
        GmailFailure::MoveToTrash(e) => "Failed to move message to trash: "@ + e@,
        GmailFailure::ReplySelect(e) => "Failed to select mailbox: "@ + e@,
        GmailFailure::ReplyFetch(e) => "Fetch failed: "@ + e@,
        GmailFailure::OriginalFetch(m) => "Could not fetch original email: "@ + m@,
        GmailFailure::BuildReply(e) => "Failed to build reply email: "@ + e@,
        GmailFailure::SendReply(e) => "Failed to send reply email: "@ + e@,
        GmailFailure::BuildEmail(e) => "Failed to build email: "@ + e@,
        GmailFailure::SendEmail(e) => "Failed to send email: "@ + e@,
        GmailFailure::AttachmentType { path, error } => "Invalid attachment MIME type for '"@ + path@ + "': "@ + error@,
        GmailFailure::TaskJoin(e) => "Task join error: "@ + e@,
    }
}

/// `prefix` followed by `rest`.
fn joined(prefix: &str, rest: &str) -> (res: String)
    ensures
        res@ == prefix@ + rest@,
{
    let mut m = String::from_str(prefix);
    m.append(rest);
    m
}

impl GmailFailure {
    /// The message this failure reports.
    pub fn message(&self) -> (res: String)
        ensures
            res@ == failure_message(*self),
    {
        match self {
            GmailFailure::Credentials(m) => m.clone(),
            GmailFailure::TlsBuild(e) => joined("TLS build failed: ", e.as_str()),
            GmailFailure::ImapConnect(e) => joined("IMAP connect failed: ", e.as_str()),
            GmailFailure::ImapLogin(e) => joined("IMAP login failed: ", e.as_str()),
            GmailFailure::SelectMailbox { mailbox, error } => {
                let mut m = joined("Failed to select mailbox '", mailbox.as_str());
                m.append("': ");
                m.append(error.as_str());
                m
            },
            GmailFailure::Search { query, error } => {
                let mut m = joined("Failed to search emails with query '", query.as_str());
                m.append("': ");
                m.append(error.as_str());
                m
            },
            GmailFailure::FetchHeaders(e) => joined("Failed to fetch headers: ", e.as_str()),
            GmailFailure::FetchMessage { uid, mailbox, error } => {
                let mut m = String::from_str("Failed to fetch message UID ");
                push_decimal(&mut m, *uid);
                m.append(" from '");
                m.append(mailbox.as_str());
                m.append("': ");
                m.append(error.as_str());
                m
            },
            GmailFailure::ExecuteAction(e) => joined("Failed to execute action: ", e.as_str()),
            GmailFailure::MoveToTrash(e) => joined("Failed to move message to trash: ", e.as_str()),
            GmailFailure::ReplySelect(e) => joined("Failed to select mailbox: ", e.as_str()),
            GmailFailure::ReplyFetch(e) => joined("Fetch failed: ", e.as_str()),
            GmailFailure::OriginalFetch(m) => joined("Could not fetch original email: ", m.as_str()),
            GmailFailure::BuildReply(e) => joined("Failed to build reply email: ", e.as_str()),
            GmailFailure::SendReply(e) => joined("Failed to send reply email: ", e.as_str()),
            GmailFailure::BuildEmail(e) => joined("Failed to build email: ", e.as_str()),
            GmailFailure::SendEmail(e) => joined("Failed to send email: ", e.as_str()),
            GmailFailure::AttachmentType { path, error } => {
                let mut m = joined("Invalid attachment MIME type for '", path.as_str());
                m.append("': ");
                m.append(error.as_str());
                m
            },
            GmailFailure::TaskJoin(e) => joined("Task join error: ", e.as_str()),
        }
    }

    /// The tool reply for this failure: `{"error": "<message>"}`.
    pub fn reply(&self) -> (res: String)
        ensures
            res@ == error_json_of(failure_message(*self)),
    {
        let m = self.message();
        error_json(m.as_str())
    }
}

impl GmailService {
    /// The message of a check that found nothing.
    pub fn no_emails_message(query: &str) -> (res: String)
        ensures
            res@ == "No emails found matching query: "@ + query@,
    {
        joined("No emails found matching query: ", query)
    }
}

// ----------------------------------------------------------------------
// gmail_set_credentials
// ----------------------------------------------------------------------

/// How a credential update ended.
#[derive(Debug, Clone)]
pub enum CredentialsOutcome {
    /// The input was refused.
    Invalid(crate::setup::CredentialInputError),
    /// The IMAP login test failed.
    VerificationFailed(String),
    /// The credentials directory could not be created.
    CreateDirFailed(String),
    /// The credential file could not be written.
    WriteFailed(String),
    /// The credentials were verified and saved at `path`.
    Saved { email: String, path: String },
}

/// The message of a credential update's outcome.
pub open spec fn outcome_message(o: CredentialsOutcome) -> Seq<char> {
    match o {
        CredentialsOutcome::Invalid(crate::setup::CredentialInputError::InvalidEmail) => "Invalid email address."@,
        CredentialsOutcome::Invalid(crate::setup::CredentialInputError::EmptyPassword) => "App Password cannot be empty."@,
        CredentialsOutcome::VerificationFailed(e) => "Verification failed: "@ + e@,
        CredentialsOutcome::CreateDirFailed(e) => "Failed to create credentials directory: "@ + e@,
        CredentialsOutcome::WriteFailed(e) => "Failed to write credentials file: "@ + e@,
        CredentialsOutcome::Saved { email, path } => "Gmail credentials successfully verified and saved for "@ + email@ + "!"@,
    }
}

impl CredentialsOutcome {
    /// `success` for saved credentials, `error` otherwise.
    pub fn status(&self) -> (res: &'static str)
        ensures
            res@ == (if *self is Saved {
                "success"@
            } else {
                "error"@
            }),
    {
        match self {
            CredentialsOutcome::Saved { .. } => "success",
            _ => "error",
        }
    }

    /// The message reported for this outcome.
    pub fn message(&self) -> (res: String)
        ensures
            res@ == outcome_message(*self),
    {
        match self {
            CredentialsOutcome::Invalid(err) => String::from_str(err.message()),
            CredentialsOutcome::VerificationFailed(e) => joined("Verification failed: ", e.as_str()),
            CredentialsOutcome::CreateDirFailed(e) => joined("Failed to create credentials directory: ", e.as_str()),
            CredentialsOutcome::WriteFailed(e) => joined("Failed to write credentials file: ", e.as_str()),
            CredentialsOutcome::Saved { email, .. } => {
                let mut m = joined("Gmail credentials successfully verified and saved for ", email.as_str());
                m.append("!");
                m
            },
        }
    }

    /// The IMAP login test's error as reported in a verification failure.
    pub fn login_test_error(error: &str) -> (res: String)
        ensures
            res@ == "IMAP authentication failed: "@ + error@ + ". Check your App Password."@,
    {
        let mut m = joined("IMAP authentication failed: ", error);
        m.append(". Check your App Password.");
        m
    }
}

} // verus!

pub use super::outgoing::mime_type_for_path;
