//! The mailbox tools as sequences of IMAP steps: each step's outcome (an
//! event) decides the next step or the tool's reply, and whether the
//! session is logged out before replying.
use vstd::prelude::*;
use crate::text::{lowercase_of, decimal, decimal_string, has_prefix};
use crate::setup::{
    check_gmail_input, checked_gmail_input, gmail_credentials_file,
    gmail_file_content,
};
use super::gmail::{
    GmailService, GmailFailure, SetCredentialsParam, CredentialsOutcome, CheckEmailsParam, ReadEmailParam, ManageEmailParam, ManageAction,
    mailbox_for, folder_key, criterion_for, filter_key, search_query_of, clamped_limit,
    sequence_set_of, action_for,
};
use super::message::{
    EmailSummary, ReadEmailReport, ReplyMetadata, summarize_message, read_message, reply_metadata,
    header_value, fields_of_block, report_holds, parsed_message_of, sender_name_in,
    sender_name_in_header, sender_search_query, newest,
};

verus! {

/// What to do after an IMAP step: go on with the next one, or reply (after
/// logging out when `logout` is set).
#[derive(Debug)]
pub enum Step<T, R> {
    Continue(T),
    Finish { logout: bool, reply: R },
}

/// The plain form of an error result.
pub open spec fn err_view<T>(r: Result<T, String>) -> Option<Seq<char>> {
    match r {
        Ok(_) => None,
        Err(e) => Some(e@),
    }
}

/// A message as fetched: its UID and its raw header or body bytes.
#[derive(Debug, Clone)]
pub struct Fetched {
    pub uid: Option<u32>,
    pub bytes: Option<Vec<u8>>,
}

/// The plain form of fetched bytes.
pub open spec fn bytes_view(b: Option<Vec<u8>>) -> Option<Seq<u8>> {
    match b {
        Some(v) => Some(v@),
        None => None,
    }
}

/// `s` summarizes fetched message `f` of `mailbox`.
pub open spec fn summarizes(f: Fetched, mailbox: Seq<char>, s: EmailSummary) -> bool {
    let fields = fields_of_block(bytes_view(f.bytes));
    &&& s.uid == (match f.uid {
        Some(u) => u,
        None => 0,
    })
    &&& s.mailbox@ == mailbox
    &&& s.from@ == header_value(fields, "from"@)
    &&& s.subject@ == header_value(fields, "subject"@)
    &&& s.date@ == header_value(fields, "date"@)
}

/// The mailbox a tool works in, for its optional folder.
pub open spec fn tool_mailbox(folder: Option<String>) -> Seq<char> {
    mailbox_for(lowercase_of(folder_key(folder.deep_view())))
}

// ----------------------------------------------------------------------
// gmail_check_emails
// ----------------------------------------------------------------------

/// The replies of `gmail_check_emails`.
#[derive(Debug)]
pub enum CheckReply {
    Failed(GmailFailure),
    /// The search found nothing.
    NoEmails { mailbox: String, message: String },
    /// One summary per fetched message, in the order fetched.
    Emails(Vec<EmailSummary>),
}

/// A check of recent emails: the mailbox, the search query and the limit.
#[derive(Debug)]
pub struct CheckEmailsFlow {
    pub mailbox: &'static str,
    pub query: String,
    pub limit: Option<u32>,
}

impl CheckEmailsFlow {
    /// Plans a check; its first step selects `mailbox`.
    pub fn plan(param: &CheckEmailsParam) -> (res: Self)
        ensures
            res.mailbox@ == tool_mailbox(param.folder),
            res.query@ == search_query_of(
                criterion_for(lowercase_of(filter_key(param.filter.deep_view()))),
                param.query.deep_view(),
            ),
            res.limit == param.limit,
    {
        let mailbox = match &param.folder {
            Some(f) => GmailService::resolve_mailbox_name(Some(f.as_str())),
            None => GmailService::resolve_mailbox_name(None),
        };
        CheckEmailsFlow { mailbox, query: GmailService::imap_search_query(param), limit: param.limit }
    }

    /// After selecting: search with the query, or report the failure.
    pub fn on_select(&self, r: Result<(), String>) -> (res: Step<String, CheckReply>)
        ensures
            match err_view(r) {
                None => res matches Step::Continue(q) && q@ == self.query@,
                Some(e) => res matches Step::Finish { logout, reply: CheckReply::Failed(
                    GmailFailure::SelectMailbox { mailbox, error },
                ) } && !logout && mailbox@ == self.mailbox@ && error@ == e,
            },
    {
        match r {
            Ok(()) => Step::Continue(self.query.clone()),
            Err(e) => Step::Finish {
                logout: false,
                reply: CheckReply::Failed(
                    GmailFailure::SelectMailbox { mailbox: String::from_str(self.mailbox), error: e },
                ),
            },
        }
    }

    /// After searching: fetch the From, Subject and Date headers (without
    /// marking the messages read), the flags and the UID of the newest UIDs
    /// found; or report that nothing was found, or the failure.
    pub fn on_search(&self, r: Result<Vec<u32>, String>) -> (res: Step<(String, &'static str), CheckReply>)
        ensures
            match r {
                Ok(uids) => if uids@.len() == 0 {
                    res matches Step::Finish { logout, reply: CheckReply::NoEmails { mailbox, message } }
                        && logout && mailbox@ == self.mailbox@ && message@
                        == "No emails found matching query: "@ + self.query@
                } else {
                    res matches Step::Continue((set, items)) && items@ == header_fetch_items() && exists|sel: Seq<u32>|
                        #[trigger] sequence_set_of(sel) == set@ && newest_of(uids@, self.limit, sel)
                },
                Err(e) => res matches Step::Finish { logout, reply: CheckReply::Failed(
                    GmailFailure::Search { query, error },
                ) } && !logout && query@ == self.query@ && error@ == e@,
            },
    {
        match r {
            Ok(uids) => {
                if uids.len() == 0 {
                    Step::Finish {
                        logout: true,
                        reply: CheckReply::NoEmails {
                            mailbox: String::from_str(self.mailbox),
                            message: GmailService::no_emails_message(self.query.as_str()),
                        },
                    }
                } else {
                    let selected = GmailService::select_newest_uids(&uids, self.limit);
                    let set = GmailService::uid_sequence_set(&selected);
                    assert(sequence_set_of(selected@) == set@);
                    Step::Continue((set, "(BODY.PEEK[HEADER.FIELDS (FROM SUBJECT DATE)] FLAGS UID)"))
                }
            },
            Err(e) => Step::Finish {
                logout: false,
                reply: CheckReply::Failed(GmailFailure::Search { query: self.query.clone(), error: e }),
            },
        }
    }

    /// After fetching headers: the summaries, or the failure.
    pub fn on_fetch(&self, r: Result<Vec<Fetched>, String>) -> (res: CheckReply)
        ensures
            match r {
                Ok(msgs) => res matches CheckReply::Emails(list) && list@.len() == msgs@.len()
                    && forall|i: int| 0 <= i < msgs@.len() ==> summarizes(msgs@[i], self.mailbox@, #[trigger] list@[i]),
                Err(e) => res matches CheckReply::Failed(GmailFailure::FetchHeaders(x)) && x@ == e@,
            },
    {
        match r {
            Ok(msgs) => {
                let mut list: Vec<EmailSummary> = Vec::new();
                let n = msgs.len();
                let mut i: usize = 0;
                while i < n
                    invariant
                        n == msgs.len(),
                        i <= n,
                        list@.len() == i,
                        forall|k: int| 0 <= k < i ==> summarizes(msgs@[k], self.mailbox@, #[trigger] list@[k]),
                    decreases n - i,
                {
                    let m = &msgs[i];
                    let s = match &m.bytes {
                        Some(b) => summarize_message(m.uid, Some(b.as_slice()), self.mailbox),
                        None => summarize_message(m.uid, None, self.mailbox),
                    };
                    list.push(s);
                    i += 1;
                }
                CheckReply::Emails(list)
            },
            Err(e) => CheckReply::Failed(GmailFailure::FetchHeaders(e)),
        }
    }
}

/// What a check fetches of each message: the From, Subject and Date
/// headers without marking it read, its flags and its UID.
pub open spec fn header_fetch_items() -> Seq<char> {
    "(BODY.PEEK[HEADER.FIELDS (FROM SUBJECT DATE)] FLAGS UID)"@
}

/// A check peeks at the headers: it fetches `BODY.PEEK[...]`, which leaves
/// the messages unread, for the From, Subject and Date fields, with the
/// flags and the UID.
pub proof fn lemma_checks_leave_messages_unread()
    ensures
        has_prefix(header_fetch_items(), "(BODY.PEEK[HEADER.FIELDS (FROM SUBJECT DATE)]"@),
        header_fetch_items() == "(BODY.PEEK[HEADER.FIELDS (FROM SUBJECT DATE)]"@ + " FLAGS UID)"@,
{
    reveal_strlit("(BODY.PEEK[HEADER.FIELDS (FROM SUBJECT DATE)] FLAGS UID)");
    reveal_strlit("(BODY.PEEK[HEADER.FIELDS (FROM SUBJECT DATE)]");
    reveal_strlit(" FLAGS UID)");
    let whole = "(BODY.PEEK[HEADER.FIELDS (FROM SUBJECT DATE)] FLAGS UID)"@;
    let head = "(BODY.PEEK[HEADER.FIELDS (FROM SUBJECT DATE)]"@;
    assert(whole =~= head + " FLAGS UID)"@);
    assert(whole.subrange(0, head.len() as int) =~= head);
}

/// `sel` is what the check fetches of the search result `uids`: the
/// `clamped_limit(limit)` largest distinct UIDs, largest first.
pub open spec fn newest_of(uids: Seq<u32>, limit: Option<u32>, sel: Seq<u32>) -> bool {
    &&& sel.len() <= clamped_limit(limit)
    &&& forall|i: int, j: int| 0 <= i < j < sel.len() ==> sel[i] > sel[j]
    &&& forall|i: int| 0 <= i < sel.len() ==> uids.contains(#[trigger] sel[i])
    &&& forall|x: u32| uids.contains(x) && !sel.contains(x) ==> forall|i: int|
        0 <= i < sel.len() ==> x < #[trigger] sel[i]
    &&& sel.len() < clamped_limit(limit) ==> forall|x: u32| uids.contains(x) ==> sel.contains(x)
}

// ----------------------------------------------------------------------
// gmail_read_email
// ----------------------------------------------------------------------

/// The replies of `gmail_read_email`.
#[derive(Debug)]
pub enum ReadReply {
    Failed(GmailFailure),
    Report { uid: u32, mailbox: String, report: ReadEmailReport },
}

/// A read of one message: its UID and mailbox.
#[derive(Debug)]
pub struct ReadEmailFlow {
    pub uid: u32,
    pub mailbox: &'static str,
}

impl ReadEmailFlow {
    /// Plans a read; its first step selects `mailbox`.
    pub fn plan(param: &ReadEmailParam) -> (res: Self)
        ensures
            res.uid == param.uid,
            res.mailbox@ == tool_mailbox(param.folder),
    {
        let mailbox = match &param.folder {
            Some(f) => GmailService::resolve_mailbox_name(Some(f.as_str())),
            None => GmailService::resolve_mailbox_name(None),
        };
        ReadEmailFlow { uid: param.uid, mailbox }
    }

    /// After selecting: fetch the whole message (`BODY[]`) by UID, or report
    /// the failure.
    pub fn on_select(&self, r: Result<(), String>) -> (res: Step<(String, &'static str), ReadReply>)
        ensures
            match err_view(r) {
                None => res matches Step::Continue((set, items)) && set@ == decimal(self.uid) && items@
                    == "BODY[]"@,
                Some(e) => res matches Step::Finish { logout, reply: ReadReply::Failed(
                    GmailFailure::SelectMailbox { mailbox, error },
                ) } && !logout && mailbox@ == self.mailbox@ && error@ == e,
            },
    {
        match r {
            Ok(()) => Step::Continue((decimal_string(self.uid), "BODY[]")),
            Err(e) => Step::Finish {
                logout: false,
                reply: ReadReply::Failed(
                    GmailFailure::SelectMailbox { mailbox: String::from_str(self.mailbox), error: e },
                ),
            },
        }
    }

    /// After fetching: the report of the first message's body (an empty
    /// report when nothing came back), or the failure.
    pub fn on_fetch(&self, r: Result<Option<Vec<u8>>, String>) -> (res: Step<(), ReadReply>)
        ensures
            match r {
                Ok(body) => res matches Step::Finish { logout, reply: ReadReply::Report { uid, mailbox, report } }
                    && logout && uid == self.uid && mailbox@ == self.mailbox@ && report_holds(
                    report,
                    match body {
                        Some(b) => parsed_message_of(b@),
                        None => None,
                    },
                ),
                Err(e) => res matches Step::Finish { logout, reply: ReadReply::Failed(
                    GmailFailure::FetchMessage { uid, mailbox, error },
                ) } && !logout && uid == self.uid && mailbox@ == self.mailbox@ && error@ == e@,
            },
    {
        match r {
            Ok(body) => {
                let report = match &body {
                    Some(b) => read_message(Some(b.as_slice())),
                    None => read_message(None),
                };
                Step::Finish {
                    logout: true,
                    reply: ReadReply::Report { uid: self.uid, mailbox: String::from_str(self.mailbox), report },
                }
            },
            Err(e) => Step::Finish {
                logout: false,
                reply: ReadReply::Failed(
                    GmailFailure::FetchMessage { uid: self.uid, mailbox: String::from_str(self.mailbox), error: e },
                ),
            },
        }
    }
}

// ----------------------------------------------------------------------
// gmail_manage_email
// ----------------------------------------------------------------------

/// The replies of `gmail_manage_email`.
#[derive(Debug)]
pub enum ManageReply {
    Failed(GmailFailure),
    /// The action is not one of the known ones.
    UnknownAction(String),
    /// The action was applied.
    Done { action: String, uid: u32, mailbox: String },
}

/// The IMAP commands of a known action: an optional `UID COPY` to a
/// mailbox, then (once the copy succeeded) a `UID STORE` of flags, on the
/// message's UID.
#[derive(Debug)]
pub struct ManageCommands {
    pub uid_set: String,
    pub copy_to: Option<&'static str>,
    pub store_flags: &'static str,
}

/// A mailbox action on one message.
#[derive(Debug)]
pub struct ManageEmailFlow {
    pub uid: u32,
    pub mailbox: &'static str,
    /// The action as given.
    pub action: String,
}

impl ManageEmailFlow {
    /// Plans an action; its first step selects `mailbox`.
    pub fn plan(param: &ManageEmailParam) -> (res: Self)
        ensures
            res.uid == param.uid,
            res.mailbox@ == tool_mailbox(param.folder),
            res.action@ == param.action@,
    {
        let mailbox = match &param.folder {
            Some(f) => GmailService::resolve_mailbox_name(Some(f.as_str())),
            None => GmailService::resolve_mailbox_name(None),
        };
        ManageEmailFlow { uid: param.uid, mailbox, action: param.action.clone() }
    }

    /// After selecting: the commands of a known action (matched
    /// case-insensitively), the refusal of an unknown one, or the failure.
    pub fn on_select(&self, r: Result<(), String>) -> (res: Step<ManageCommands, ManageReply>)
        ensures
            match err_view(r) {
                None => match action_for(lowercase_of(self.action@)) {
                    Some(a) => res matches Step::Continue(c) && c.uid_set@ == decimal(self.uid)
                        && c.store_flags@ == super::gmail::store_flags_of(a)
                        && (c.copy_to matches Some(t) ==> a == ManageAction::Trash && t@ == "[Gmail]/Trash"@)
                        && (c.copy_to is None ==> a != ManageAction::Trash),
                    None => res matches Step::Finish { logout, reply: ManageReply::UnknownAction(m) } && !logout
                        && m@ == "Unknown action '"@ + self.action@ + "'. Valid: mark_read, mark_unread, star, unstar, trash"@,
                },
                Some(e) => res matches Step::Finish { logout, reply: ManageReply::Failed(
                    GmailFailure::SelectMailbox { mailbox, error },
                ) } && !logout && mailbox@ == self.mailbox@ && error@ == e,
            },
    {
        match r {
            Ok(()) => {
                let plan = GmailService::manage_plan(self.action.as_str());
                match plan.action {
                    Some(a) => Step::Continue(ManageCommands {
                        uid_set: decimal_string(self.uid),
                        copy_to: a.copy_target(),
                        store_flags: a.store_flags(),
                    }),
                    None => Step::Finish {
                        logout: false,
                        reply: ManageReply::UnknownAction(GmailService::unknown_action_message(self.action.as_str())),
                    },
                }
            },
            Err(e) => Step::Finish {
                logout: false,
                reply: ManageReply::Failed(
                    GmailFailure::SelectMailbox { mailbox: String::from_str(self.mailbox), error: e },
                ),
            },
        }
    }

    /// After copying the message to the trash mailbox: go on to store the
    /// flags, or end (logging out) with the failure, leaving the message
    /// unflagged.
    pub fn on_copy(&self, r: Result<(), String>) -> (res: Step<(), ManageReply>)
        ensures
            match err_view(r) {
                None => res is Continue,
                Some(e) => res matches Step::Finish { logout, reply: ManageReply::Failed(
                    GmailFailure::MoveToTrash(x),
                ) } && logout && x@ == e,
            },
    {
        match r {
            Ok(()) => Step::Continue(()),
            Err(e) => Step::Finish { logout: true, reply: ManageReply::Failed(GmailFailure::MoveToTrash(e)) },
        }
    }

    /// After storing the flags: the confirmation (with the action
    /// lowercased), or the failure; the session is logged out either way.
    pub fn on_store(&self, r: Result<(), String>) -> (res: ManageReply)
        ensures
            match err_view(r) {
                None => res matches ManageReply::Done { action, uid, mailbox } && action@ == lowercase_of(self.action@)
                    && uid == self.uid && mailbox@ == self.mailbox@,
                Some(e) => res matches ManageReply::Failed(GmailFailure::ExecuteAction(x)) && x@ == e,
            },
    {
        match r {
            Ok(()) => {
                let plan = GmailService::manage_plan(self.action.as_str());
                ManageReply::Done { action: plan.normalized, uid: self.uid, mailbox: String::from_str(self.mailbox) }
            },
            Err(e) => ManageReply::Failed(GmailFailure::ExecuteAction(e)),
        }
    }
}

// ----------------------------------------------------------------------
// gmail_reply_email: reading the message replied to
// ----------------------------------------------------------------------

/// Reading the message a reply answers: its UID and mailbox.
#[derive(Debug)]
pub struct ReplyLookupFlow {
    pub uid: u32,
    pub mailbox: &'static str,
}

impl ReplyLookupFlow {
    /// Plans the lookup; its first step selects `mailbox`.
    pub fn plan(uid: u32, folder: Option<&str>) -> (res: Self)
        ensures
            res.uid == uid,
            res.mailbox@ == mailbox_for(lowercase_of(folder_key(
                match folder {
                    Some(f) => Some(f@),
                    None => None,
                },
            ))),
    {
        ReplyLookupFlow { uid, mailbox: GmailService::resolve_mailbox_name(folder) }
    }

    /// After selecting: fetch the From, Subject, Message-ID and References
    /// headers by UID (without marking the message read), or the lookup's
    /// error.
    pub fn on_select(&self, r: Result<(), String>) -> (res: Result<(String, &'static str), String>)
        ensures
            match err_view(r) {
                None => res matches Ok((set, items)) && set@ == decimal(self.uid) && items@
                    == "(BODY.PEEK[HEADER.FIELDS (FROM SUBJECT MESSAGE-ID REFERENCES)])"@,
                Some(e) => res matches Err(m) && m@ == "Failed to select mailbox: "@ + e,
            },
    {
        match r {
            Ok(()) => Ok((decimal_string(self.uid), "(BODY.PEEK[HEADER.FIELDS (FROM SUBJECT MESSAGE-ID REFERENCES)])")),
            Err(e) => Err(GmailFailure::ReplySelect(e).message()),
        }
    }

    /// After fetching: the metadata from the first message's header block,
    /// or the lookup's error.
    pub fn on_fetch(&self, r: Result<Option<Vec<u8>>, String>) -> (res: Result<ReplyMetadata, String>)
        ensures
            match r {
                Ok(h) => res matches Ok(m) && {
                    let fields = fields_of_block(bytes_view(h));
                    &&& m.from@ == header_value(fields, "from"@)
                    &&& m.subject@ == header_value(fields, "subject"@)
                    &&& m.message_id@ == header_value(fields, "message-id"@)
                    &&& m.references@ == header_value(fields, "references"@)
                },
                Err(e) => res matches Err(m) && m@ == "Fetch failed: "@ + e@,
            },
    {
        match r {
            Ok(h) => match &h {
                Some(b) => Ok(reply_metadata(Some(b.as_slice()))),
                None => Ok(reply_metadata(None)),
            },
            Err(e) => Err(GmailFailure::ReplyFetch(e).message()),
        }
    }

    /// Once the lookup is over: the metadata to reply to, or the reply's
    /// error when the lookup failed or the message has no sender.
    pub fn on_lookup(&self, r: Result<ReplyMetadata, String>) -> (res: Result<ReplyMetadata, String>)
        ensures
            match r {
                Ok(m) => if m.from@.len() == 0 {
                    res matches Err(x) && x@ == crate::text::error_json_of(
                        "Original sender address not found for UID "@ + decimal(self.uid),
                    )
                } else {
                    res matches Ok(x) && x == m
                },
                Err(e) => res matches Err(x) && x@ == crate::text::error_json_of("Could not fetch original email: "@ + e@),
            },
    {
        match r {
            Ok(m) => {
                if m.from.unicode_len() == 0 {
                    Err(super::outgoing::missing_sender_error(self.uid))
                } else {
                    Ok(m)
                }
            },
            Err(e) => Err(GmailFailure::OriginalFetch(e).reply()),
        }
    }
}

// ----------------------------------------------------------------------
// The display name the account sends under
// ----------------------------------------------------------------------

/// The folders searched for the account's own messages, in order.
pub open spec fn sender_folder(i: int) -> Option<Seq<char>> {
    if i == 0 {
        Some("[Gmail]/Sent Mail"@)
    } else if i == 1 {
        Some("INBOX"@)
    } else {
        None
    }
}

/// The first display name found in a list of fetched header blocks.
pub open spec fn first_sender_name(headers: Seq<Option<Vec<u8>>>) -> Option<Seq<char>>
    decreases headers.len(),
{
    if headers.len() == 0 {
        None
    } else {
        match sender_name_in(fields_of_block(bytes_view(headers[0]))) {
            Some(n) => Some(n),
            None => first_sender_name(headers.drop_first()),
        }
    }
}

/// What the search for the sender name asks for next.
#[derive(Debug)]
pub enum SenderStep {
    /// Select this folder.
    Select(&'static str),
    /// Search the selected folder with this query.
    Search(String),
    /// Fetch these items of this message number.
    Fetch(String, &'static str),
    /// The search is over, with the name found, if any.
    Done(Option<String>),
}

/// The search for the name the account sends under: in each folder in
/// turn, the newest message from the account and the display name of its
/// `From` field. A step that fails moves on to the next folder.
#[derive(Debug)]
pub struct SenderNameFlow {
    pub email: String,
    /// The index of the folder being searched.
    pub folder: usize,
}

/// The first display name among fetched header blocks.
fn first_name(headers: &Vec<Option<Vec<u8>>>) -> (res: Option<String>)
    ensures
        res.deep_view() == first_sender_name(headers@),
{
    let n = headers.len();
    let mut i: usize = 0;
    assert(headers@.skip(0) =~= headers@);
    while i < n
        invariant
            n == headers.len(),
            i <= n,
            first_sender_name(headers@) == first_sender_name(headers@.skip(i as int)),
        decreases n - i,
    {
        let ghost rest = headers@.skip(i as int);
        assert(rest[0] == headers@[i as int]);
        assert(rest.drop_first() =~= headers@.skip(i + 1));
        let found = match &headers[i] {
            Some(b) => sender_name_in_header(Some(b.as_slice())),
            None => sender_name_in_header(None),
        };
        match found {
            Some(name) => {
                assert(first_sender_name(rest) == Some(name@));
                return Some(name);
            },
            None => {},
        }
        i += 1;
    }
    assert(headers@.skip(n as int).len() == 0);
    None
}

impl SenderNameFlow {
    /// `res` is the step that starts work on the current folder: select it,
    /// or end without a name once all folders were tried.
    pub open spec fn starts(&self, res: SenderStep) -> bool {
        match sender_folder(self.folder as int) {
            Some(f) => res matches SenderStep::Select(s) && s@ == f,
            None => res matches SenderStep::Done(None),
        }
    }

    /// `self` is `prev` moved on to the next folder.
    pub open spec fn moved_on(&self, prev: Self) -> bool {
        &&& self.email == prev.email
        &&& self.folder == if prev.folder < 2 { prev.folder + 1 } else { prev.folder as int }
    }

    /// A search for `email`'s display name, at the first folder.
    pub fn new(email: &str) -> (res: Self)
        ensures
            res.email@ == email@,
            res.folder == 0,
    {
        SenderNameFlow { email: String::from_str(email), folder: 0 }
    }

    /// The step that starts work on the current folder.
    pub fn start(&self) -> (res: SenderStep)
        ensures
            self.starts(res),
    {
        if self.folder == 0 {
            SenderStep::Select("[Gmail]/Sent Mail")
        } else if self.folder == 1 {
            SenderStep::Select("INBOX")
        } else {
            SenderStep::Done(None)
        }
    }

    fn move_on(&mut self) -> (res: SenderStep)
        ensures
            final(self).moved_on(*old(self)),
            final(self).starts(res),
    {
        if self.folder < 2 {
            self.folder = self.folder + 1;
        }
        self.start()
    }

    /// After selecting: search for the account's messages, or move on.
    pub fn on_select(&mut self, r: Result<(), String>) -> (res: SenderStep)
        ensures
            match err_view(r) {
                None => {
                    &&& *final(self) == *old(self)
                    &&& res matches SenderStep::Search(q) && q@ == "FROM \""@ + old(self).email@ + "\""@
                },
                Some(_) => final(self).moved_on(*old(self)) && final(self).starts(res),
            },
    {
        match r {
            Ok(()) => SenderStep::Search(sender_search_query(self.email.as_str())),
            Err(_) => self.move_on(),
        }
    }

    /// After searching: fetch the newest message found, or move on when
    /// the search failed or found nothing.
    pub fn on_search(&mut self, r: Result<Vec<u32>, String>) -> (res: SenderStep)
        ensures
            match r {
                Ok(ids) => if ids@.len() > 0 {
                    &&& *final(self) == *old(self)
                    &&& res matches SenderStep::Fetch(set, items) && items@ == "(BODY.PEEK[HEADER.FIELDS (FROM)])"@
                        && exists|m: u32| #![trigger decimal(m)]
                        ids@.contains(m) && (forall|i: int| 0 <= i < ids@.len() ==> ids@[i] <= m)
                        && set@ == decimal(m)
                } else {
                    final(self).moved_on(*old(self)) && final(self).starts(res)
                },
                Err(_) => final(self).moved_on(*old(self)) && final(self).starts(res),
            },
    {
        match r {
            Ok(ids) => match newest(&ids) {
                Some(m) => {
                    let set = decimal_string(m);
                    assert(set@ == decimal(m));
                    SenderStep::Fetch(set, "(BODY.PEEK[HEADER.FIELDS (FROM)])")
                },
                None => self.move_on(),
            },
            Err(_) => self.move_on(),
        }
    }

    /// After fetching: the first display name among the header blocks
    /// fetched, or move on when there is none or the fetch failed.
    pub fn on_fetch(&mut self, r: Result<Vec<Option<Vec<u8>>>, String>) -> (res: SenderStep)
        ensures
            match r {
                Ok(headers) => if first_sender_name(headers@) is Some {
                    &&& *final(self) == *old(self)
                    &&& res matches SenderStep::Done(Some(name)) && Some(name@) == first_sender_name(headers@)
                } else {
                    final(self).moved_on(*old(self)) && final(self).starts(res)
                },
                Err(_) => final(self).moved_on(*old(self)) && final(self).starts(res),
            },
    {
        match r {
            Ok(headers) => match first_name(&headers) {
                Some(name) => SenderStep::Done(Some(name)),
                None => self.move_on(),
            },
            Err(_) => self.move_on(),
        }
    }
}

// ----------------------------------------------------------------------
// gmail_set_credentials: test the login, then save
// ----------------------------------------------------------------------

/// Saving credentials given to `gmail_set_credentials`: the accepted email
/// and app password, and whether a login with them has succeeded. The
/// file is asked for only once the login test has passed.
#[derive(Debug)]
pub struct SaveCredentialsFlow {
    email: String,
    password: String,
    verified: bool,
}

impl SaveCredentialsFlow {
    /// The accepted email.
    pub closed spec fn email(&self) -> Seq<char> {
        self.email@
    }

    /// The accepted app password.
    pub closed spec fn password(&self) -> Seq<char> {
        self.password@
    }

    /// A login with the credentials has succeeded.
    pub closed spec fn verified(&self) -> bool {
        self.verified
    }

    /// Checks the input: a refused input ends with its error; the accepted
    /// email and app password are returned to be tested with a login.
    pub fn start(param: &SetCredentialsParam) -> (res: Result<(Self, String, String), CredentialsOutcome>)
        ensures
            match checked_gmail_input(param.email@, param.app_password@) {
                Ok((e, p)) => res matches Ok((flow, email, password)) && {
                    &&& !flow.verified()
                    &&& flow.email() == e && flow.password() == p
                    &&& email@ == e && password@ == p
                },
                Err(err) => res matches Err(CredentialsOutcome::Invalid(x)) && x == err,
            },
    {
        match check_gmail_input(param.email.as_str(), param.app_password.as_str()) {
            Ok((e, p)) => {
                let flow = SaveCredentialsFlow { email: e.clone(), password: p.clone(), verified: false };
                Ok((flow, e, p))
            },
            Err(err) => Err(CredentialsOutcome::Invalid(err)),
        }
    }

    /// After the login test: `None` to go on to the directory, or the
    /// test's error.
    pub fn on_login_test(&mut self, r: Result<(), String>) -> (res: Option<CredentialsOutcome>)
        ensures
            final(self).email() == old(self).email(),
            final(self).password() == old(self).password(),
            match err_view(r) {
                None => final(self).verified() && res is None,
                Some(e) => {
                    &&& final(self).verified() == old(self).verified()
                    &&& res matches Some(CredentialsOutcome::VerificationFailed(x)) && x@ == e
                },
            },
    {
        match r {
            Ok(()) => {
                self.verified = true;
                None
            },
            Err(e) => Some(CredentialsOutcome::VerificationFailed(e)),
        }
    }

    /// After creating the directory: the content of the credential file to
    /// write (only for verified credentials), or the error.
    pub fn on_create_dir(&self, r: Result<(), String>) -> (res: Result<String, CredentialsOutcome>)
        requires
            self.verified(),
        ensures
            match err_view(r) {
                None => res matches Ok(c) && c@ == gmail_file_content(self.email(), self.password()),
                Some(e) => res matches Err(CredentialsOutcome::CreateDirFailed(x)) && x@ == e,
            },
    {
        match r {
            Ok(()) => Ok(gmail_credentials_file(self.email.as_str(), self.password.as_str())),
            Err(e) => Err(CredentialsOutcome::CreateDirFailed(e)),
        }
    }

    /// After writing the file at `path`: saved, or the error.
    pub fn on_write(&self, path: String, r: Result<(), String>) -> (res: CredentialsOutcome)
        ensures
            match err_view(r) {
                None => res matches CredentialsOutcome::Saved { email, path: p } && email@ == self.email()
                    && p@ == path@,
                Some(e) => res matches CredentialsOutcome::WriteFailed(x) && x@ == e,
            },
    {
        match r {
            Ok(()) => CredentialsOutcome::Saved { email: self.email.clone(), path },
            Err(e) => CredentialsOutcome::WriteFailed(e),
        }
    }
}

} // verus!
