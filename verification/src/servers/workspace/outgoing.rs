//! Composing outgoing mail: the From header, the reply address, subject and
//! threading headers of a reply, attachment names and MIME types, and the
//! address checks `lettre` makes before a message is built and sent.
use vstd::prelude::*;
use crate::text::{
    trimmed, lowercase_of, lowercase, str_eq, trim, has_prefix, starts_with, first_index_of,
    find_char, trim_end_char, trim_end_matches_char, last_index_of, rfind_char, ascii_lowercase_of,
    ascii_lowercase, decimal, push_decimal, is_ascii_seq,
};

verus! {

// ----------------------------------------------------------------------
// Trusted calls
// ----------------------------------------------------------------------

/// Name for the outcome of parsing a string as a `lettre` mailbox
/// (`"Name <user@domain>"` or `user@domain`): `None` when it parses, else
/// the error's message.
pub uninterp spec fn mailbox_error_of(s: Seq<char>) -> Option<Seq<char>>;

/// Parses `s` as a `lettre::message::Mailbox` (its `FromStr`) and keeps the
/// error message, if any.
#[verifier::external_body]
fn mailbox_error(s: &str) -> (res: Option<String>)
    ensures
        res.deep_view() == mailbox_error_of(s@),
{
    match s.parse::<lettre::message::Mailbox>() {
        Ok(_) => None,
        Err(e) => Some(e.to_string()),
    }
}

/// Name for the final component of a path (`Path::file_name`, as UTF-8).
pub uninterp spec fn file_name_of(path: Seq<char>) -> Option<Seq<char>>;

/// Calls `std::path::Path::file_name` on the path and takes it as a string.
#[verifier::external_body]
fn path_file_name(path: &str) -> (res: Option<String>)
    ensures
        res.deep_view() == file_name_of(path@),
{
    std::path::Path::new(path).file_name().and_then(|n| n.to_str()).map(|n| n.to_string())
}

/// Name for the outcome of parsing a MIME type with `lettre`'s
/// `ContentType::parse`: `None` when it parses, else the error's message.
pub uninterp spec fn content_type_error_of(ct: Seq<char>) -> Option<Seq<char>>;

/// Parses `ct` with `lettre::message::header::ContentType::parse` and keeps
/// the error message, if any.
#[verifier::external_body]
fn content_type_error(ct: &str) -> (res: Option<String>)
    ensures
        res.deep_view() == content_type_error_of(ct@),
{
    match lettre::message::header::ContentType::parse(ct) {
        Ok(_) => None,
        Err(e) => Some(e.to_string()),
    }
}

// ----------------------------------------------------------------------
// Specifications
// ----------------------------------------------------------------------

/// The From header: `Name <email>` with a display name, else the email.
pub open spec fn from_header_of(name: Option<Seq<char>>, email: Seq<char>) -> Seq<char> {
    match name {
        Some(n) => n + " <"@ + email + ">"@,
        None => email,
    }
}

/// The address a reply goes to: what follows the first `<` of the replied-to
/// From (without trailing `>`, trimmed), or the whole From trimmed.
pub open spec fn reply_address_of(from: Seq<char>) -> Seq<char> {
    match first_index_of(from, '<') {
        Some(i) => trimmed(trim_end_char(from.skip(i + 1), '>')),
        None => trimmed(from),
    }
}

/// The subject of a reply: unchanged when it already starts with `re:`
/// (case-insensitively), else prefixed with `Re: `.
pub open spec fn reply_subject_of(subject: Seq<char>) -> Seq<char> {
    if has_prefix(lowercase_of(subject), "re:"@) {
        subject
    } else {
        "Re: "@ + subject
    }
}

/// The threading headers of a reply: `In-Reply-To` is the replied-to
/// Message-ID and `References` is the replied-to References followed by
/// that Message-ID; none when there is no Message-ID.
pub open spec fn thread_headers_of(message_id: Seq<char>, references: Seq<char>) -> Option<
    (Seq<char>, Seq<char>),
> {
    if message_id.len() == 0 {
        None
    } else if references.len() == 0 {
        Some((message_id, message_id))
    } else {
        Some((message_id, references + " "@ + message_id))
    }
}

/// A reply threads to the message it answers: without a Message-ID there
/// is no threading; otherwise `In-Reply-To` is that Message-ID, and
/// `References` is the message's own References (when it has any) and a
/// space, followed by that Message-ID.
pub proof fn lemma_replies_thread_to_their_message(id: Seq<char>, refs: Seq<char>)
    ensures
        thread_headers_of(id, refs) is None <==> id.len() == 0,
        thread_headers_of(id, refs) matches Some((in_reply_to, references)) ==> {
            &&& in_reply_to == id
            &&& references.len() >= id.len()
            &&& references.subrange(references.len() - id.len(), references.len() as int) == id
            &&& refs.len() == 0 ==> references == id
            &&& refs.len() > 0 ==> references.len() == refs.len() + 1 + id.len() && references.subrange(
                0,
                refs.len() as int,
            ) == refs && references[refs.len() as int] == ' '
        },
{
    reveal_strlit(" ");
    if id.len() > 0 && refs.len() > 0 {
        let r = refs + " "@ + id;
        assert(r.subrange(r.len() - id.len(), r.len() as int) =~= id);
        assert(r.subrange(0, refs.len() as int) =~= refs);
    }
    if id.len() > 0 && refs.len() == 0 {
        assert(id.subrange(0, id.len() as int) =~= id);
    }
}

/// The extension of a file name as `Path::extension` documents it: none
/// without a `.`, none when the only `.` starts the name, else what
/// follows the last `.`.
pub open spec fn extension_of(name: Seq<char>) -> Option<Seq<char>> {
    match last_index_of(name, '.') {
        Some(i) => if i == 0 {
            None
        } else {
            Some(name.skip(i + 1))
        },
        None => None,
    }
}

/// The MIME type given to an attachment with a lowercased extension.
pub open spec fn mime_for_extension(ext: Seq<char>) -> Seq<char> {
    if ext == "pdf"@ {
        "application/pdf"@
    } else if ext == "png"@ {
        "image/png"@
    } else if ext == "jpg"@ || ext == "jpeg"@ {
        "image/jpeg"@
    } else if ext == "txt"@ {
        "text/plain"@
    } else if ext == "html"@ || ext == "htm"@ {
        "text/html"@
    } else {
        "application/octet-stream"@
    }
}

/// The documented extensions give their MIME types (`jpg` and `jpeg` both
/// JPEG, `html` and `htm` both HTML); every other extension is sent as
/// untyped binary data.
pub proof fn lemma_extensions_give_their_types(ext: Seq<char>)
    ensures
        mime_for_extension("pdf"@) == "application/pdf"@,
        mime_for_extension("png"@) == "image/png"@,
        mime_for_extension("jpg"@) == "image/jpeg"@,
        mime_for_extension("jpeg"@) == "image/jpeg"@,
        mime_for_extension("txt"@) == "text/plain"@,
        mime_for_extension("html"@) == "text/html"@,
        mime_for_extension("htm"@) == "text/html"@,
        mime_for_extension(ext) == "image/jpeg"@ <==> (ext == "jpg"@ || ext == "jpeg"@),
        mime_for_extension(ext) == "text/html"@ <==> (ext == "html"@ || ext == "htm"@),
        mime_for_extension(ext) == "application/octet-stream"@ <==> !(ext == "pdf"@ || ext == "png"@ || ext
            == "jpg"@ || ext == "jpeg"@ || ext == "txt"@ || ext == "html"@ || ext == "htm"@),
{
    reveal_strlit("pdf");
    reveal_strlit("png");
    reveal_strlit("jpg");
    reveal_strlit("jpeg");
    reveal_strlit("txt");
    reveal_strlit("html");
    reveal_strlit("htm");
    reveal_strlit("application/pdf");
    reveal_strlit("image/png");
    reveal_strlit("image/jpeg");
    reveal_strlit("text/plain");
    reveal_strlit("text/html");
    reveal_strlit("application/octet-stream");
    assert("pdf"@[1] != "png"@[1]);
    assert("pdf"@ != "png"@ && "pdf"@ != "jpg"@ && "pdf"@ != "txt"@ && "pdf"@ != "htm"@);
    assert("png"@[0] != "jpg"@[0] && "png"@[0] != "txt"@[0] && "png"@[0] != "htm"@[0]);
    assert("png"@ != "jpg"@ && "png"@ != "txt"@ && "png"@ != "htm"@);
    assert("jpg"@[0] != "txt"@[0] && "jpg"@[0] != "htm"@[0] && "txt"@[0] != "htm"@[0]);
    assert("jpg"@ != "txt"@ && "jpg"@ != "htm"@ && "txt"@ != "htm"@);
    assert("jpeg"@[0] != "html"@[0]);
    assert("jpeg"@ != "html"@);
    assert("application/pdf"@.len() == 15 && "image/png"@.len() == 9 && "image/jpeg"@.len() == 10);
    assert("text/plain"@.len() == 10 && "text/html"@.len() == 9 && "application/octet-stream"@.len() == 24);
    assert("image/jpeg"@[0] != "text/plain"@[0]);
    assert("image/jpeg"@ != "text/plain"@);
    assert("image/png"@[0] != "text/html"@[0]);
    assert("image/png"@ != "text/html"@);
}

/// The MIME type of an attachment path: by the extension of its file name,
/// ASCII-lowercased (empty when there is none).
pub open spec fn mime_for_path(path: Seq<char>) -> Seq<char> {
    let ext = match file_name_of(path) {
        Some(f) => match extension_of(f) {
            Some(e) => e,
            None => Seq::<char>::empty(),
        },
        None => Seq::<char>::empty(),
    };
    mime_for_extension(ascii_lowercase_of(ext))
}

/// The name an attachment path is sent under, or the error when it has
/// none (missing or empty file name).
pub open spec fn attachment_name_of(path: Seq<char>) -> Result<Seq<char>, Seq<char>> {
    match file_name_of(path) {
        Some(f) => if f.len() > 0 {
            Ok(f)
        } else {
            Err(crate::text::error_json_of("Invalid attachment path: "@ + path))
        },
        None => Err(crate::text::error_json_of("Invalid attachment path: "@ + path)),
    }
}

// ----------------------------------------------------------------------
// A message ready to be sent
// ----------------------------------------------------------------------

/// A file to attach: where it is read from, the name and the MIME type it
/// is sent with.
#[derive(Debug, Clone)]
pub struct AttachmentPlan {
    pub path: String,
    pub filename: String,
    pub content_type: String,
}

/// An email whose addresses have been checked, ready to be built and sent.
#[derive(Debug)]
pub struct OutgoingEmail {
    pub from: String,
    pub to: String,
    pub subject: String,
    /// `In-Reply-To` and `References`, for replies that thread.
    pub thread: Option<(String, String)>,
    pub body: String,
    pub is_html: bool,
    pub attachments: Vec<AttachmentPlan>,
}

/// Builds the From header.
pub fn from_header(name: Option<&str>, email: &str) -> (res: String)
    ensures
        res@ == from_header_of(
            match name {
                Some(n) => Some(n@),
                None => None,
            },
            email@,
        ),
{
    match name {
        Some(n) => {
            let mut r = String::from_str(n);
            r.append(" <");
            r.append(email);
            r.append(">");
            r
        },
        None => String::from_str(email),
    }
}

/// The display name a message goes out with: the one given, else the one
/// detected from the user's sent mail.
pub fn chosen_sender_name(given: Option<String>, detected: Option<String>) -> (res: Option<String>)
    ensures
        res == (match given {
            Some(n) => Some(n),
            None => detected,
        }),
{
    match given {
        Some(n) => Some(n),
        None => detected,
    }
}

/// The address a reply goes to.
pub fn reply_address(from: &str) -> (res: String)
    ensures
        res@ == reply_address_of(from@),
{
    match find_char(from, '<') {
        Some(i) => {
            let n = from.unicode_len();
            let rest = from.substring_char(i + 1, n);
            assert(rest@ =~= from@.skip(i + 1));
            let t = trim_end_matches_char(rest, '>');
            trim(t.as_str())
        },
        None => trim(from),
    }
}

/// The subject of a reply. Replying again to a message with that subject
/// keeps it as it is: `Re:` is never doubled.
pub fn reply_subject(subject: &str) -> (res: String)
    ensures
        res@ == reply_subject_of(subject@),
        reply_subject_of(res@) == res@,
{
    let lower = lowercase(subject);
    if starts_with(lower.as_str(), "re:") {
        String::from_str(subject)
    } else {
        let mut r = String::from_str("Re: ");
        r.append(subject);
        // The new subject begins with the ASCII `Re:`, so its lowercase
        // begins with `re:`.
        let again = lowercase(r.as_str());
        proof {
            reveal_strlit("Re: ");
            reveal_strlit("re:");
            let head = r@.take(3);
            assert(head =~= seq!['R', 'e', ':']);
            assert(is_ascii_seq(head));
            assert(ascii_lowercase_of(head) =~= "re:"@);
            assert(has_prefix(again@, ascii_lowercase_of(head)));
        }
        r
    }
}

/// The threading headers of a reply.
pub fn thread_headers(message_id: &str, references: &str) -> (res: Option<(String, String)>)
    ensures
        res.deep_view() == thread_headers_of(message_id@, references@),
{
    if message_id.unicode_len() == 0 {
        None
    } else if references.unicode_len() == 0 {
        Some((String::from_str(message_id), String::from_str(message_id)))
    } else {
        let mut r = String::from_str(references);
        r.append(" ");
        r.append(message_id);
        Some((String::from_str(message_id), r))
    }
}

/// The MIME type for a lowercased extension.
pub fn mime_type_for_extension(ext: &str) -> (res: &'static str)
    ensures
        res@ == mime_for_extension(ext@),
{
    if str_eq(ext, "pdf") {
        "application/pdf"
    } else if str_eq(ext, "png") {
        "image/png"
    } else if str_eq(ext, "jpg") || str_eq(ext, "jpeg") {
        "image/jpeg"
    } else if str_eq(ext, "txt") {
        "text/plain"
    } else if str_eq(ext, "html") || str_eq(ext, "htm") {
        "text/html"
    } else {
        "application/octet-stream"
    }
}

/// The extension of a file name.
pub fn file_extension(name: &str) -> (res: Option<String>)
    ensures
        res.deep_view() == extension_of(name@),
{
    match rfind_char(name, '.') {
        Some(i) => {
            if i == 0 {
                None
            } else {
                let n = name.unicode_len();
                let e = String::from_str(name.substring_char(i + 1, n));
                assert(e@ =~= name@.skip(i + 1));
                Some(e)
            }
        },
        None => None,
    }
}

/// The MIME type an attachment is sent with, by the extension of its path.
pub fn mime_type_for_path(path: &str) -> (res: &'static str)
    ensures
        res@ == mime_for_path(path@),
{
    let ext = match path_file_name(path) {
        Some(f) => match file_extension(f.as_str()) {
            Some(e) => e,
            None => String::new(),
        },
        None => String::new(),
    };
    let lower = ascii_lowercase(ext.as_str());
    mime_type_for_extension(lower.as_str())
}

/// Plans one attachment: the name it is sent under and its MIME type, or
/// the error reply for a path without a file name.
pub fn plan_attachment(path: &str) -> (res: Result<AttachmentPlan, String>)
    ensures
        match res {
            Ok(p) => attachment_name_of(path@) == Ok::<Seq<char>, Seq<char>>(p.filename@)
                && p.path@ == path@ && p.content_type@ == mime_for_path(path@),
            Err(e) => attachment_name_of(path@) == Err::<Seq<char>, Seq<char>>(e@),
        },
{
    match path_file_name(path) {
        Some(f) => {
            if f.unicode_len() > 0 {
                let ct = mime_type_for_path(path);
                return Ok(AttachmentPlan { path: String::from_str(path), filename: f, content_type: String::from_str(ct) });
            }
        },
        None => {},
    }
    let mut m = String::from_str("Invalid attachment path: ");
    m.append(path);
    Err(crate::text::error_json(m.as_str()))
}

/// Checks an attachment's MIME type with `lettre`: the error reply when it
/// does not parse, else `None`.
pub fn check_attachment_type(plan: &AttachmentPlan) -> (res: Option<String>)
    ensures
        res.deep_view() == match content_type_error_of(plan.content_type@) {
            Some(e) => Some(crate::text::error_json_of(
                "Invalid attachment MIME type for '"@ + plan.path@ + "': "@ + e,
            )),
            None => None,
        },
{
    match content_type_error(plan.content_type.as_str()) {
        Some(e) => {
            let f = crate::servers::workspace::gmail::GmailFailure::AttachmentType {
                path: plan.path.clone(),
                error: e,
            };
            let r = f.reply();
            Some(r)
        },
        None => None,
    }
}

/// The error reply when an attachment cannot be read.
pub fn attachment_read_error(path: &str, error: &str) -> (res: String)
    ensures
        res@ == crate::text::error_json_of("Failed to read attachment '"@ + path@ + "': "@ + error@),
{
    let mut m = String::from_str("Failed to read attachment '");
    m.append(path);
    m.append("': ");
    m.append(error);
    crate::text::error_json(m.as_str())
}

// ----------------------------------------------------------------------
// Composition
// ----------------------------------------------------------------------

/// The reply when a sender or recipient address does not parse, or `None`
/// when both do. `to_label` is how the recipient is named in the message.
pub open spec fn address_error_of(from: Seq<char>, to: Seq<char>, to_label: Seq<char>) -> Option<
    Seq<char>,
> {
    match mailbox_error_of(from) {
        Some(e) => Some(crate::text::error_json_of("Invalid from address: "@ + e)),
        None => match mailbox_error_of(to) {
            Some(e) => Some(crate::text::error_json_of("Invalid recipient address"@ + to_label + ": "@ + e)),
            None => None,
        },
    }
}

/// Checks the From and To addresses with `lettre`.
fn check_addresses(from: &str, to: &str, to_label: &str) -> (res: Option<String>)
    ensures
        res.deep_view() == address_error_of(from@, to@, to_label@),
{
    match mailbox_error(from) {
        Some(e) => {
            let mut m = String::from_str("Invalid from address: ");
            m.append(e.as_str());
            Some(crate::text::error_json(m.as_str()))
        },
        None => match mailbox_error(to) {
            Some(e) => {
                let mut m = String::from_str("Invalid recipient address");
                m.append(to_label);
                m.append(": ");
                m.append(e.as_str());
                Some(crate::text::error_json(m.as_str()))
            },
            None => None,
        },
    }
}

/// The recipient label of a reply's address error: ` '<address>'`.
pub open spec fn quoted_label(addr: Seq<char>) -> Seq<char> {
    " '"@ + addr + "'"@
}

/// Composes a reply to a message (its From, Subject, Message-ID and
/// References) from `from_header`, as plain text; or the error reply when
/// an address does not parse.
pub fn compose_reply(
    from_header: &str,
    replied: &crate::servers::workspace::message::ReplyMetadata,
    body: String,
) -> (res: Result<OutgoingEmail, String>)
    ensures
        ({
            let to = reply_address_of(replied.from@);
            match res {
                Ok(m) => {
                    &&& address_error_of(from_header@, to, quoted_label(to)) is None
                    &&& m.from@ == from_header@
                    &&& m.to@ == to
                    &&& m.subject@ == reply_subject_of(replied.subject@)
                    &&& m.thread.deep_view() == thread_headers_of(replied.message_id@, replied.references@)
                    &&& m.body@ == body@
                    &&& !m.is_html
                    &&& m.attachments@.len() == 0
                },
                Err(e) => address_error_of(from_header@, to, quoted_label(to)) == Some(e@),
            }
        }),
{
    let to = reply_address(replied.from.as_str());
    let mut label = String::from_str(" '");
    label.append(to.as_str());
    label.append("'");
    match check_addresses(from_header, to.as_str(), label.as_str()) {
        Some(e) => Err(e),
        None => Ok(OutgoingEmail {
            from: String::from_str(from_header),
            to,
            subject: reply_subject(replied.subject.as_str()),
            thread: thread_headers(replied.message_id.as_str(), replied.references.as_str()),
            body,
            is_html: false,
            attachments: Vec::new(),
        }),
    }
}

/// Composes a new email from `from_header` to `to`, with the planned
/// attachments; or the error reply when an address does not parse.
pub fn compose_email(
    from_header: &str,
    param: &crate::servers::workspace::gmail::SendEmailParam,
    attachments: Vec<AttachmentPlan>,
) -> (res: Result<OutgoingEmail, String>)
    ensures
        match res {
            Ok(m) => {
                &&& address_error_of(from_header@, param.to@, ""@) is None
                &&& m.from@ == from_header@
                &&& m.to@ == param.to@
                &&& m.subject@ == param.subject@
                &&& m.thread is None
                &&& m.body@ == param.body@
                &&& m.is_html == (match param.is_html {
                    Some(h) => h,
                    None => false,
                })
                &&& m.attachments@ == attachments@
            },
            Err(e) => address_error_of(from_header@, param.to@, ""@) == Some(e@),
        },
{
    match check_addresses(from_header, param.to.as_str(), "") {
        Some(e) => Err(e),
        None => Ok(OutgoingEmail {
            from: String::from_str(from_header),
            to: param.to.clone(),
            subject: param.subject.clone(),
            thread: None,
            body: param.body.clone(),
            is_html: match param.is_html {
                Some(h) => h,
                None => false,
            },
            attachments,
        }),
    }
}

/// The reply when the message replied to has no sender.
pub fn missing_sender_error(uid: u32) -> (res: String)
    ensures
        res@ == crate::text::error_json_of("Original sender address not found for UID "@ + decimal(uid)),
{
    let mut m = String::from_str("Original sender address not found for UID ");
    push_decimal(&mut m, uid);
    crate::text::error_json(m.as_str())
}

/// The confirmation message of a sent email.
pub fn sent_message(to: &str) -> (res: String)
    ensures
        res@ == "Email successfully sent to "@ + to@,
{
    let mut m = String::from_str("Email successfully sent to ");
    m.append(to);
    m
}

} // verus!
