//! Reading fetched messages: header fields of a header block, the summary
//! line of `gmail_check_emails`, the report of `gmail_read_email`, what a
//! reply needs of the message it answers, and the sender display name found in a
//! sent message.
//!
//! Parsing MIME is left to `mailparse` (behind named results); what is done
//! with the parsed headers and parts is verified here.
use vstd::prelude::*;
use crate::text::{
    trimmed, lowercase_of, lowercase, str_eq, trim, push_char, contains_str, contains_seq,
    ascii_lowercase_of, ascii_lowercase, first_index_of, find_char, trim_start_char,
    trim_end_char, trim_matches_char,
};

verus! {

// ----------------------------------------------------------------------
// Trusted mailparse calls
// ----------------------------------------------------------------------

/// Name for the header fields that `mailparse::parse_headers` finds in a
/// header block, each as the pair of `MailHeader::get_key` and
/// `MailHeader::get_value`, in order; `None` when it reports an error.
pub uninterp spec fn header_fields_of(raw: Seq<u8>) -> Option<Seq<(Seq<char>, Seq<char>)>>;

/// Calls `mailparse::parse_headers` and takes each header's key and value.
#[verifier::external_body]
fn parse_header_fields(raw: &[u8]) -> (res: Option<Vec<(String, String)>>)
    ensures
        res.deep_view() == header_fields_of(raw@),
{
    mailparse::parse_headers(raw).ok().map(
        |(headers, _)| headers.iter().map(|h| (h.get_key(), h.get_value())).collect(),
    )
}

/// One part below the top of a parsed message, as `mailparse` describes
/// it. A message's parts come in the depth-first order of
/// `ParsedMail::parts`, each with the number of its own direct subparts.
#[derive(Debug)]
pub struct MimePart {
    /// `ctype.mimetype`
    pub mimetype: String,
    /// The Content-Disposition type is `attachment`.
    pub attachment_disposition: bool,
    /// The Content-Disposition parameters, in key order.
    pub disposition_params: Vec<(String, String)>,
    /// `get_body()`, when it succeeds.
    pub body: Option<String>,
    /// The length of `get_body_raw()`, when it succeeds.
    pub raw_len: Option<usize>,
    /// How many direct subparts the part has (`subparts.len()`).
    pub subpart_count: usize,
}

/// A message as `mailparse::parse_mail` reads it: its headers, its own
/// decoded body, and every part below it, depth-first.
#[derive(Debug)]
pub struct ParsedMessage {
    pub headers: Vec<(String, String)>,
    pub body: Option<String>,
    pub parts: Vec<MimePart>,
}

/// The plain-value form of a subpart.
pub type MimePartModel = (
    Seq<char>,
    bool,
    Seq<(Seq<char>, Seq<char>)>,
    Option<Seq<char>>,
    Option<usize>,
    usize,
);

/// The plain-value form of a parsed message.
pub type ParsedMessageModel = (Seq<(Seq<char>, Seq<char>)>, Option<Seq<char>>, Seq<MimePartModel>);

impl View for MimePart {
    type V = MimePartModel;

    open spec fn view(&self) -> MimePartModel {
        (
            self.mimetype@,
            self.attachment_disposition,
            self.disposition_params.deep_view(),
            self.body.deep_view(),
            self.raw_len,
            self.subpart_count,
        )
    }
}

impl View for ParsedMessage {
    type V = ParsedMessageModel;

    open spec fn view(&self) -> ParsedMessageModel {
        (
            self.headers.deep_view(),
            self.body.deep_view(),
            self.parts@.map_values(|p: MimePart| p@),
        )
    }
}

/// Name for what `mailparse::parse_mail` makes of a raw message, in plain
/// values; `None` when it reports an error.
pub uninterp spec fn parsed_message_of(raw: Seq<u8>) -> Option<ParsedMessageModel>;

/// Calls `mailparse::parse_mail` and takes the headers, the body and, for
/// each part below the top in the depth-first order of `ParsedMail::parts`,
/// its MIME type, Content-Disposition, body, raw body length and number of
/// direct subparts.
#[verifier::external_body]
fn parse_message(raw: &[u8]) -> (res: Option<ParsedMessage>)
    ensures
        res matches Some(m) ==> parsed_message_of(raw@) == Some(m@),
        res is None ==> parsed_message_of(raw@) is None,
{
    let m = mailparse::parse_mail(raw).ok()?;
    let parts = m.parts().skip(1).map(|s| {
        let d = s.get_content_disposition();
        MimePart {
            mimetype: s.ctype.mimetype.clone(),
            attachment_disposition: matches!(d.disposition, mailparse::DispositionType::Attachment),
            disposition_params: d.params.into_iter().collect(),
            body: s.get_body().ok(),
            raw_len: s.get_body_raw().ok().map(|b| b.len()),
            subpart_count: s.subparts.len(),
        }
    }).collect();
    let headers = m.headers.iter().map(|h| (h.get_key(), h.get_value())).collect();
    Some(ParsedMessage { headers, body: m.get_body().ok(), parts })
}

// ----------------------------------------------------------------------
// Header fields
// ----------------------------------------------------------------------

/// The value of the last field whose key, lowercased, is `name`; empty
/// when there is none.
pub open spec fn header_value(fields: Seq<(Seq<char>, Seq<char>)>, name: Seq<char>) -> Seq<char>
    decreases fields.len(),
{
    if fields.len() == 0 {
        Seq::<char>::empty()
    } else if lowercase_of(fields.last().0) == name {
        fields.last().1
    } else {
        header_value(fields.drop_last(), name)
    }
}

/// Of several fields with one name, the last one gives the value: a field
/// added at the end whose key lowercases to `name` sets the value, and a
/// field with another name leaves it as it was.
pub proof fn lemma_last_field_gives_the_value(
    fields: Seq<(Seq<char>, Seq<char>)>,
    key: Seq<char>,
    value: Seq<char>,
    name: Seq<char>,
)
    ensures
        lowercase_of(key) == name ==> header_value(fields.push((key, value)), name) == value,
        lowercase_of(key) != name ==> header_value(fields.push((key, value)), name) == header_value(fields, name),
        header_value(Seq::empty(), name).len() == 0,
{
    assert(fields.push((key, value)).drop_last() =~= fields);
}

/// The header fields of an optional header block; none when it is absent
/// or does not parse.
pub open spec fn fields_of_block(block: Option<Seq<u8>>) -> Seq<(Seq<char>, Seq<char>)> {
    match block {
        Some(b) => match header_fields_of(b) {
            Some(f) => f,
            None => Seq::empty(),
        },
        None => Seq::empty(),
    }
}

/// The plain form of an optional byte slice.
pub open spec fn block_view(block: Option<&[u8]>) -> Option<Seq<u8>> {
    match block {
        Some(b) => Some(b@),
        None => None,
    }
}

/// The value of the last field named `name` (compared lowercased).
pub fn header_value_in(fields: &Vec<(String, String)>, name: &str) -> (res: String)
    ensures
        res@ == header_value(fields.deep_view(), name@),
{
    let mut v = String::new();
    let n = fields.len();
    let mut i: usize = 0;
    while i < n
        invariant
            n == fields.len(),
            i <= n,
            v@ == header_value(fields.deep_view().take(i as int), name@),
        decreases n - i,
    {
        let ghost dv = fields.deep_view();
        assert(dv.take(i + 1).drop_last() =~= dv.take(i as int));
        assert(dv.take(i + 1).last() == dv[i as int]);
        let key = lowercase(fields[i].0.as_str());
        if str_eq(key.as_str(), name) {
            v = fields[i].1.clone();
        }
        i += 1;
    }
    assert(fields.deep_view().take(n as int) =~= fields.deep_view());
    v
}

/// The header fields of an optional header block.
pub fn fields_in_block(block: Option<&[u8]>) -> (res: Vec<(String, String)>)
    ensures
        res.deep_view() == fields_of_block(block_view(block)),
{
    match block {
        Some(b) => match parse_header_fields(b) {
            Some(f) => f,
            None => Vec::new(),
        },
        None => Vec::new(),
    }
}

// ----------------------------------------------------------------------
// gmail_check_emails: one line per message
// ----------------------------------------------------------------------

/// One message of a check: its UID, mailbox, sender, subject and date.
#[derive(Debug, Clone)]
pub struct EmailSummary {
    pub uid: u32,
    pub mailbox: String,
    pub from: String,
    pub subject: String,
    pub date: String,
}

/// Summarizes one fetched message: its UID (0 when the server sent none)
/// and the last From, Subject and Date fields of its header block.
pub fn summarize_message(uid: Option<u32>, header: Option<&[u8]>, mailbox: &str) -> (res:
    EmailSummary)
    ensures
        res.uid == (match uid {
            Some(u) => u,
            None => 0,
        }),
        res.mailbox@ == mailbox@,
        res.from@ == header_value(fields_of_block(block_view(header)), "from"@),
        res.subject@ == header_value(fields_of_block(block_view(header)), "subject"@),
        res.date@ == header_value(fields_of_block(block_view(header)), "date"@),
{
    let fields = fields_in_block(header);
    EmailSummary {
        uid: match uid {
            Some(u) => u,
            None => 0,
        },
        mailbox: String::from_str(mailbox),
        from: header_value_in(&fields, "from"),
        subject: header_value_in(&fields, "subject"),
        date: header_value_in(&fields, "date"),
    }
}

// ----------------------------------------------------------------------
// gmail_read_email: the full report
// ----------------------------------------------------------------------

/// An attachment of a read message.
#[derive(Debug, Clone)]
pub struct AttachmentInfo {
    pub filename: String,
    pub content_type: String,
    pub size_approx: usize,
}

/// What `gmail_read_email` reports of a message.
#[derive(Debug)]
pub struct ReadEmailReport {
    pub from: String,
    pub to: String,
    pub subject: String,
    pub date: String,
    pub message_id: String,
    pub attachments: Vec<AttachmentInfo>,
    pub body: String,
}

/// The value of the first parameter named `key`, if any.
pub open spec fn param_value(params: Seq<(Seq<char>, Seq<char>)>, key: Seq<char>) -> Option<
    Seq<char>,
>
    decreases params.len(),
{
    if params.len() == 0 {
        None
    } else if params[0].0 == key {
        Some(params[0].1)
    } else {
        param_value(params.drop_first(), key)
    }
}

/// A subpart is an attachment when its disposition says so or when it names
/// a file.
pub open spec fn is_attachment_part(p: MimePartModel) -> bool {
    p.1 || param_value(p.2, "filename"@) is Some
}

/// A part adds to the body when it is not an attachment, has no subparts,
/// its type (lowercased) mentions text/plain or text/html, and its decoded
/// body is not blank.
pub open spec fn adds_text(p: MimePartModel) -> bool {
    &&& !is_attachment_part(p)
    &&& p.5 == 0
    &&& (contains_seq(lowercase_of(p.0), "text/plain"@) || contains_seq(lowercase_of(p.0), "text/html"@))
    &&& p.3 is Some
    &&& trimmed(p.3->0).len() > 0
}

/// How an attachment is listed: its file name (or `attachment`), its
/// lowercased type, and its raw size (0 when unknown).
pub open spec fn attachment_entry(p: MimePartModel) -> (Seq<char>, Seq<char>, usize) {
    (
        match param_value(p.2, "filename"@) {
            Some(f) => f,
            None => "attachment"@,
        },
        lowercase_of(p.0),
        match p.4 {
            Some(n) => n,
            None => 0,
        },
    )
}

/// Walks the parts of a message depth-first: the number of parts still
/// to pass over because they lie inside an attachment, the text gathered
/// (each text part's body followed by a line feed) and the attachments
/// found, in order. A part inside an attachment is passed over; an
/// attachment is listed and its subparts passed over; a part with
/// subparts is entered; a text part adds its body.
pub open spec fn walk_parts(parts: Seq<MimePartModel>) -> (int, Seq<char>, Seq<(Seq<char>, Seq<char>, usize)>)
    decreases parts.len(),
{
    if parts.len() == 0 {
        (0, Seq::<char>::empty(), Seq::empty())
    } else {
        let prev = walk_parts(parts.drop_last());
        let p = parts.last();
        if prev.0 > 0 {
            (prev.0 - 1 + p.5, prev.1, prev.2)
        } else if is_attachment_part(p) {
            (p.5 as int, prev.1, prev.2.push(attachment_entry(p)))
        } else if adds_text(p) {
            (0, (prev.1 + p.3->0).push('\n'), prev.2)
        } else {
            (0, prev.1, prev.2)
        }
    }
}

/// A part that is attached (its disposition is `attachment`, or it names a
/// file), whatever its MIME type, adds nothing to the body; unless it lies
/// inside another attachment, it is listed under its file name (or
/// `attachment`) with its lowercased type and raw size, and the parts
/// inside it are passed over.
pub proof fn lemma_attached_parts_are_listed_not_read(ps: Seq<MimePartModel>, p: MimePartModel)
    requires
        p.1 || param_value(p.2, "filename"@) is Some,
    ensures
        walk_parts(ps.push(p)).1 == walk_parts(ps).1,
        walk_parts(ps).0 == 0 ==> walk_parts(ps.push(p)).2 == walk_parts(ps).2.push(
            (
                match param_value(p.2, "filename"@) {
                    Some(f) => f,
                    None => "attachment"@,
                },
                lowercase_of(p.0),
                match p.4 {
                    Some(n) => n,
                    None => 0,
                },
            ),
        ),
        walk_parts(ps).0 == 0 ==> walk_parts(ps.push(p)).0 == p.5,
{
    assert(ps.push(p).drop_last() =~= ps);
}

/// A text part that is not attached and has no subparts adds its body,
/// followed by a line feed, unless the body is blank or the part lies
/// inside an attachment; it is never listed as an attachment.
pub proof fn lemma_text_parts_are_read(ps: Seq<MimePartModel>, p: MimePartModel)
    requires
        !p.1,
        param_value(p.2, "filename"@) is None,
        p.5 == 0,
        contains_seq(lowercase_of(p.0), "text/plain"@) || contains_seq(lowercase_of(p.0), "text/html"@),
    ensures
        walk_parts(ps.push(p)).2 == walk_parts(ps).2,
        (walk_parts(ps).0 == 0 && p.3 is Some && trimmed(p.3->0).len() > 0) ==> walk_parts(ps.push(p)).1
            == (walk_parts(ps).1 + p.3->0).push('\n'),
{
    assert(ps.push(p).drop_last() =~= ps);
}

/// The body a read reports before trimming: the message's own body when it
/// has no subparts, else the text gathered from its parts.
pub open spec fn raw_body_of(m: ParsedMessageModel) -> Seq<char> {
    if m.2.len() == 0 {
        match m.1 {
            Some(b) => b,
            None => Seq::<char>::empty(),
        }
    } else {
        walk_parts(m.2).1
    }
}

impl View for AttachmentInfo {
    type V = (Seq<char>, Seq<char>, usize);

    open spec fn view(&self) -> (Seq<char>, Seq<char>, usize) {
        (self.filename@, self.content_type@, self.size_approx)
    }
}

/// What a read reports of a parsed message (or of none).
pub open spec fn report_holds(r: ReadEmailReport, m: Option<ParsedMessageModel>) -> bool {
    match m {
        Some(m) => {
            &&& r.from@ == header_value(m.0, "from"@)
            &&& r.to@ == header_value(m.0, "to"@)
            &&& r.subject@ == header_value(m.0, "subject"@)
            &&& r.date@ == header_value(m.0, "date"@)
            &&& r.message_id@ == header_value(m.0, "message-id"@)
            &&& r.attachments@.map_values(|a: AttachmentInfo| a@) == walk_parts(m.2).2
            &&& r.body@ == trimmed(raw_body_of(m))
        },
        None => {
            &&& r.from@.len() == 0
            &&& r.to@.len() == 0
            &&& r.subject@.len() == 0
            &&& r.date@.len() == 0
            &&& r.message_id@.len() == 0
            &&& r.attachments@.len() == 0
            &&& r.body@.len() == 0
        },
    }
}

/// The first parameter named `key`.
pub fn param_lookup(params: &Vec<(String, String)>, key: &str) -> (res: Option<String>)
    ensures
        res.deep_view() == param_value(params.deep_view(), key@),
{
    let n = params.len();
    let mut i: usize = 0;
    let ghost dv = params.deep_view();
    assert(dv.skip(0) =~= dv);
    while i < n
        invariant
            n == params.len(),
            i <= n,
            dv == params.deep_view(),
            param_value(dv, key@) == param_value(dv.skip(i as int), key@),
        decreases n - i,
    {
        assert(dv.skip(i as int)[0] == dv[i as int]);
        assert(dv.skip(i as int).drop_first() =~= dv.skip(i + 1));
        if str_eq(params[i].0.as_str(), key) {
            let v = params[i].1.clone();
            return Some(v);
        }
        i += 1;
    }
    None
}

/// Builds the report of a read from the parsed message (or from none).
pub fn report_from_parsed(parsed: Option<ParsedMessage>) -> (res: ReadEmailReport)
    ensures
        report_holds(
            res,
            match parsed {
                Some(m) => Some(m@),
                None => None,
            },
        ),
{
    match parsed {
        None => ReadEmailReport {
            from: String::new(),
            to: String::new(),
            subject: String::new(),
            date: String::new(),
            message_id: String::new(),
            attachments: Vec::new(),
            body: String::new(),
        },
        Some(m) => {
            let from = header_value_in(&m.headers, "from");
            let to = header_value_in(&m.headers, "to");
            let subject = header_value_in(&m.headers, "subject");
            let date = header_value_in(&m.headers, "date");
            let message_id = header_value_in(&m.headers, "message-id");
            let ghost parts = m@.2;
            let mut attachments: Vec<AttachmentInfo> = Vec::new();
            let mut text = String::new();
            // Parts still to pass over because they lie inside an attachment.
            let mut skip: u128 = 0;
            let n = m.parts.len();
            let mut i: usize = 0;
            while i < n
                invariant
                    n == m.parts.len(),
                    i <= n,
                    parts == m.parts@.map_values(|p: MimePart| p@),
                    skip as int == walk_parts(parts.take(i as int)).0,
                    text@ == walk_parts(parts.take(i as int)).1,
                    attachments@.map_values(|a: AttachmentInfo| a@) == walk_parts(parts.take(i as int)).2,
                    skip <= i * (usize::MAX as int),
                decreases n - i,
            {
                let part = &m.parts[i];
                let ghost pm = part@;
                assert(parts[i as int] == pm);
                assert(parts.take(i + 1).drop_last() =~= parts.take(i as int));
                assert(parts.take(i + 1).last() == pm);
                let c = part.subpart_count;
                assert((i + 1) * (usize::MAX as int) == i * (usize::MAX as int) + usize::MAX) by (nonlinear_arith);
                assert((i + 1) * (usize::MAX as int) <= (usize::MAX as int) * (usize::MAX as int)) by (nonlinear_arith)
                    requires
                        i + 1 <= usize::MAX,
                ;
                assert((usize::MAX as int) * (usize::MAX as int) <= u128::MAX) by (nonlinear_arith)
                    requires
                        usize::MAX <= u64::MAX,
                ;
                if skip > 0 {
                    skip = skip - 1 + c as u128;
                } else {
                    let ctype = lowercase(part.mimetype.as_str());
                    let filename = param_lookup(&part.disposition_params, "filename");
                    let is_attachment = part.attachment_disposition || filename.is_some();
                    if is_attachment {
                        let name = match filename {
                            Some(f) => f,
                            None => String::from_str("attachment"),
                        };
                        let size = match part.raw_len {
                            Some(len) => len,
                            None => 0,
                        };
                        let ghost before = attachments@.map_values(|a: AttachmentInfo| a@);
                        let info = AttachmentInfo { filename: name, content_type: ctype, size_approx: size };
                        attachments.push(info);
                        assert(attachments@.map_values(|a: AttachmentInfo| a@) =~= before.push(info@));
                        skip = c as u128;
                    } else if c == 0 && (contains_str(ctype.as_str(), "text/plain") || contains_str(
                        ctype.as_str(),
                        "text/html",
                    )) {
                        match &part.body {
                            Some(b) => {
                                let t = trim(b.as_str());
                                if t.unicode_len() > 0 {
                                    text.append(b.as_str());
                                    push_char(&mut text, '\n');
                                }
                            },
                            None => {},
                        }
                    }
                }
                i += 1;
            }
            assert(parts.take(n as int) =~= parts);
            let body = if n == 0 {
                match &m.body {
                    Some(b) => trim(b.as_str()),
                    None => String::new(),
                }
            } else {
                trim(text.as_str())
            };
            proof {
                if n == 0 {
                    if m.body is None {
                        assert(trimmed(Seq::<char>::empty()) =~= Seq::<char>::empty()) by {
                            assert(crate::text::trim_start(Seq::<char>::empty()) == Seq::<char>::empty());
                            assert(crate::text::trim_end(Seq::<char>::empty()) == Seq::<char>::empty());
                        }
                    }
                }
            }
            ReadEmailReport { from, to, subject, date, message_id, attachments, body }
        },
    }
}

/// The report of `gmail_read_email` for a fetched message body (or for
/// none, when the server sent nothing).
pub fn read_message(raw: Option<&[u8]>) -> (res: ReadEmailReport)
    ensures
        report_holds(
            res,
            match raw {
                Some(b) => parsed_message_of(b@),
                None => None,
            },
        ),
{
    match raw {
        Some(b) => report_from_parsed(parse_message(b)),
        None => report_from_parsed(None),
    }
}

// ----------------------------------------------------------------------
// gmail_reply_email: what a reply needs of the message it answers
// ----------------------------------------------------------------------

/// The From, Subject, Message-ID and References of the message replied to.
#[derive(Debug, Clone)]
pub struct ReplyMetadata {
    pub from: String,
    pub subject: String,
    pub message_id: String,
    pub references: String,
}

/// Reads the reply metadata from the header block of the message replied to.
pub fn reply_metadata(header: Option<&[u8]>) -> (res: ReplyMetadata)
    ensures
        res.from@ == header_value(fields_of_block(block_view(header)), "from"@),
        res.subject@ == header_value(fields_of_block(block_view(header)), "subject"@),
        res.message_id@ == header_value(fields_of_block(block_view(header)), "message-id"@),
        res.references@ == header_value(fields_of_block(block_view(header)), "references"@),
{
    let fields = fields_in_block(header);
    ReplyMetadata {
        from: header_value_in(&fields, "from"),
        subject: header_value_in(&fields, "subject"),
        message_id: header_value_in(&fields, "message-id"),
        references: header_value_in(&fields, "references"),
    }
}

// ----------------------------------------------------------------------
// Sender name detection
// ----------------------------------------------------------------------

/// The display name of a From value: the text before its first `<`,
/// trimmed, stripped of quotes and trimmed again; `None` when there is no
/// `<` or the name is empty.
pub open spec fn display_name_of(value: Seq<char>) -> Option<Seq<char>> {
    match first_index_of(value, '<') {
        Some(i) => {
            let name = trimmed(trim_end_char(trim_start_char(trimmed(value.take(i)), '"'), '"'));
            if name.len() > 0 {
                Some(name)
            } else {
                None
            }
        },
        None => None,
    }
}

/// The first display name found among the From fields (key compared
/// ASCII-case-insensitively), in order.
pub open spec fn sender_name_in(fields: Seq<(Seq<char>, Seq<char>)>) -> Option<Seq<char>>
    decreases fields.len(),
{
    if fields.len() == 0 {
        None
    } else if ascii_lowercase_of(fields[0].0) == "from"@ && display_name_of(fields[0].1) is Some {
        display_name_of(fields[0].1)
    } else {
        sender_name_in(fields.drop_first())
    }
}

/// The display name of a From value.
pub fn display_name(value: &str) -> (res: Option<String>)
    ensures
        res.deep_view() == display_name_of(value@),
{
    match find_char(value, '<') {
        Some(i) => {
            let before = trim(value.substring_char(0, i));
            let unquoted = trim_matches_char(before.as_str(), '"');
            let name = trim(unquoted.as_str());
            assert(value@.subrange(0, i as int) =~= value@.take(i as int));
            if name.unicode_len() > 0 {
                Some(name)
            } else {
                None
            }
        },
        None => None,
    }
}

/// The sender's display name in a message's header block, if a From field
/// has one.
pub fn sender_name_in_header(header: Option<&[u8]>) -> (res: Option<String>)
    ensures
        res.deep_view() == sender_name_in(fields_of_block(block_view(header))),
{
    let fields = fields_in_block(header);
    let ghost dv = fields.deep_view();
    let n = fields.len();
    let mut i: usize = 0;
    assert(dv.skip(0) =~= dv);
    while i < n
        invariant
            n == fields.len(),
            i <= n,
            dv == fields.deep_view(),
            dv == fields_of_block(block_view(header)),
            sender_name_in(dv) == sender_name_in(dv.skip(i as int)),
        decreases n - i,
    {
        let ghost rest = dv.skip(i as int);
        assert(rest.len() > 0);
        assert(rest[0] == dv[i as int]);
        assert(rest.drop_first() =~= dv.skip(i + 1));
        let key = ascii_lowercase(fields[i].0.as_str());
        if str_eq(key.as_str(), "from") {
            match display_name(fields[i].1.as_str()) {
                Some(name) => {
                    assert(sender_name_in(rest) == Some(name@));
                    let r = Some(name);
                    assert(r.deep_view() == Some(name@));
                    return r;
                },
                None => {},
            }
        }
        i += 1;
    }
    None
}

/// The search that finds the user's own messages: `FROM "<email>"`.
pub fn sender_search_query(email: &str) -> (res: String)
    ensures
        res@ == "FROM \""@ + email@ + "\""@,
{
    let mut r = String::from_str("FROM \"");
    r.append(email);
    r.append("\"");
    r
}

/// The largest of the sequence numbers a search returned, if any.
pub fn newest(ids: &Vec<u32>) -> (res: Option<u32>)
    ensures
        res is None <==> ids@.len() == 0,
        res matches Some(m) ==> ids@.contains(m) && forall|i: int| 0 <= i < ids.len() ==> ids[i]
            <= m,
{
    let n = ids.len();
    if n == 0 {
        return None;
    }
    let mut best = ids[0];
    let mut i: usize = 1;
    while i < n
        invariant
            n == ids.len(),
            1 <= i <= n,
            ids@.contains(best),
            forall|k: int| 0 <= k < i ==> ids[k] <= best,
        decreases n - i,
    {
        if ids[i] > best {
            best = ids[i];
        }
        i += 1;
    }
    Some(best)
}

} // verus!
