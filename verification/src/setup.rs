//! Credential files: what the setup wizards and `gmail_set_credentials`
//! accept and write, and how the servers read the files back.
//!
//! The Gmail file holds `GMAIL_EMAIL=<email>` and `GMAIL_APP_PASSWORD=<pw>`
//! lines; the Bitwarden file holds `BITWARDEN_MASTER_PASSWORD=<pw>`.
use vstd::prelude::*;
use crate::text::{
    trimmed, trim_start, trim_end, without_char, stripped_prefix, has_prefix, newline_segments,
    is_white_space, trim, remove_char, contains_char, split_lines, strip_prefix,
};

verus! {

// ----------------------------------------------------------------------
// Input validation and file contents
// ----------------------------------------------------------------------

/// Why a Gmail credential input was refused.
#[derive(Debug, Clone, Copy, PartialEq, Eq, Structural)]
pub enum CredentialInputError {
    /// The trimmed email is empty or has no `@`.
    InvalidEmail,
    /// The app password is empty once spaces are removed.
    EmptyPassword,
}

impl CredentialInputError {
    /// The message reported for this refusal.
    pub fn message(&self) -> (res: &'static str)
        ensures
            res@ == match *self {
                CredentialInputError::InvalidEmail => "Invalid email address."@,
                CredentialInputError::EmptyPassword => "App Password cannot be empty."@,
            },
    {
        match self {
            CredentialInputError::InvalidEmail => "Invalid email address.",
            CredentialInputError::EmptyPassword => "App Password cannot be empty.",
        }
    }
}

/// The app password as stored: spaces removed, then trimmed.
pub open spec fn clean_app_password(raw: Seq<char>) -> Seq<char> {
    trimmed(without_char(raw, ' '))
}

/// What a Gmail credential input is accepted as, or why it is refused.
pub open spec fn checked_gmail_input(email: Seq<char>, app_password: Seq<char>) -> Result<
    (Seq<char>, Seq<char>),
    CredentialInputError,
> {
    let e = trimmed(email);
    let p = clean_app_password(app_password);
    if e.len() == 0 || !e.contains('@') {
        Err(CredentialInputError::InvalidEmail)
    } else if p.len() == 0 {
        Err(CredentialInputError::EmptyPassword)
    } else {
        Ok((e, p))
    }
}

/// The Gmail credential file written for an email and app password.
pub open spec fn gmail_file_content(email: Seq<char>, password: Seq<char>) -> Seq<char> {
    "GMAIL_EMAIL="@ + email + "\n"@ + "GMAIL_APP_PASSWORD="@ + password + "\n"@
}

/// The Bitwarden credential file written for a master password.
pub open spec fn bitwarden_file_content(password: Seq<char>) -> Seq<char> {
    "BITWARDEN_MASTER_PASSWORD="@ + password + "\n"@
}

/// Checks a Gmail address: it is trimmed and must contain `@`.
pub fn check_gmail_email(email: &str) -> (res: Option<String>)
    ensures
        res.deep_view() == (if trimmed(email@).len() == 0 || !trimmed(email@).contains('@') {
            None
        } else {
            Some(trimmed(email@))
        }),
{
    let e = trim(email);
    if e.unicode_len() == 0 || !contains_char(e.as_str(), '@') {
        None
    } else {
        Some(e)
    }
}

/// Checks an app password: it loses its spaces, is trimmed and must not be
/// empty.
pub fn check_app_password(app_password: &str) -> (res: Option<String>)
    ensures
        res.deep_view() == (if clean_app_password(app_password@).len() == 0 {
            None
        } else {
            Some(clean_app_password(app_password@))
        }),
{
    let no_spaces = remove_char(app_password, ' ');
    let p = trim(no_spaces.as_str());
    if p.unicode_len() == 0 {
        None
    } else {
        Some(p)
    }
}

/// Checks a Gmail email and app password as the setup wizard and
/// `gmail_set_credentials` do: the email is trimmed and must contain `@`;
/// the password loses its spaces, is trimmed and must not be empty.
pub fn check_gmail_input(email: &str, app_password: &str) -> (res: Result<
    (String, String),
    CredentialInputError,
>)
    ensures
        match res {
            Ok((e, p)) => checked_gmail_input(email@, app_password@) == Ok::<
                (Seq<char>, Seq<char>),
                CredentialInputError,
            >((e@, p@)),
            Err(err) => checked_gmail_input(email@, app_password@) == Err::<
                (Seq<char>, Seq<char>),
                CredentialInputError,
            >(err),
        },
{
    match check_gmail_email(email) {
        None => Err(CredentialInputError::InvalidEmail),
        Some(e) => match check_app_password(app_password) {
            None => Err(CredentialInputError::EmptyPassword),
            Some(p) => Ok((e, p)),
        },
    }
}

/// The Gmail credential file for an accepted email and app password.
pub fn gmail_credentials_file(email: &str, password: &str) -> (res: String)
    ensures
        res@ == gmail_file_content(email@, password@),
{
    let mut r = String::from_str("GMAIL_EMAIL=");
    r.append(email);
    r.append("\n");
    r.append("GMAIL_APP_PASSWORD=");
    r.append(password);
    r.append("\n");
    r
}

/// Checks a Bitwarden master password as the setup wizard does: it is
/// trimmed and must not be empty.
pub fn check_bitwarden_input(password: &str) -> (res: Option<String>)
    ensures
        res.deep_view() == (if trimmed(password@).len() > 0 {
            Some(trimmed(password@))
        } else {
            None
        }),
{
    let p = trim(password);
    if p.unicode_len() > 0 {
        Some(p)
    } else {
        None
    }
}

/// The Bitwarden credential file for a master password.
pub fn bitwarden_credentials_file(password: &str) -> (res: String)
    ensures
        res@ == bitwarden_file_content(password@),
{
    let mut r = String::from_str("BITWARDEN_MASTER_PASSWORD=");
    r.append(password);
    r.append("\n");
    r
}

/// The path components of the credentials directory for the value of
/// `HOME` (`None` when unset): the home directory, or `.` without one,
/// then `.config` and `credentials`.
pub fn credentials_dir_components(home: Option<String>) -> (res: Vec<String>)
    ensures
        res.deep_view() == seq![
            match home {
                Some(h) => h@,
                None => "."@,
            },
            ".config"@,
            "credentials"@,
        ],
{
    let base = match home {
        Some(h) => h,
        None => String::from_str("."),
    };
    let mut v: Vec<String> = Vec::new();
    v.push(base);
    v.push(String::from_str(".config"));
    v.push(String::from_str("credentials"));
    v
}

/// The Gmail credential file's name in the credentials directory.
pub fn gmail_credentials_file_name() -> (res: &'static str)
    ensures
        res@ == "workspace-google"@,
{
    "workspace-google"
}

/// The Bitwarden credential file's name in the credentials directory.
pub fn bitwarden_credentials_file_name() -> (res: &'static str)
    ensures
        res@ == "bitwarden_master_password"@,
{
    "bitwarden_master_password"
}

/// The files, relative to the home directory, searched in order for the
/// Bitwarden master password.
pub fn bitwarden_password_candidates() -> (res: Vec<&'static str>)
    ensures
        res@.len() == 3,
        res@[0]@ == ".config/credentials/bitwarden_master_password"@,
        res@[1]@ == ".config/credentials/bitwarden_credentials"@,
        res@[2]@ == ".config/bitwarden/credentials"@,
{
    let mut v = Vec::new();
    v.push(".config/credentials/bitwarden_master_password");
    v.push(".config/credentials/bitwarden_credentials");
    v.push(".config/bitwarden/credentials");
    v
}

// ----------------------------------------------------------------------
// Reading the files back
// ----------------------------------------------------------------------

/// The value a Gmail credential file gives for `prefix`, starting from
/// `init`: each line is trimmed, and the first line that starts with
/// `prefix` and has a non-empty trimmed value fills the value while it is
/// still empty.
pub open spec fn gmail_file_value(init: Seq<char>, lines: Seq<Seq<char>>, prefix: Seq<char>) -> Seq<
    char,
>
    decreases lines.len(),
{
    if lines.len() == 0 {
        init
    } else {
        let prev = gmail_file_value(init, lines.drop_last(), prefix);
        match stripped_prefix(trimmed(lines.last()), prefix) {
            Some(v) => if prev.len() == 0 {
                trimmed(v)
            } else {
                prev
            },
            None => prev,
        }
    }
}

/// The master password a Bitwarden credential line list gives: the trimmed
/// value of the first trimmed line starting with
/// `BITWARDEN_MASTER_PASSWORD=` or `BW_PASSWORD=`.
pub open spec fn bitwarden_line_value(lines: Seq<Seq<char>>) -> Option<Seq<char>>
    decreases lines.len(),
{
    if lines.len() == 0 {
        None
    } else {
        let t = trimmed(lines[0]);
        match stripped_prefix(t, "BITWARDEN_MASTER_PASSWORD="@) {
            Some(v) => Some(trimmed(v)),
            None => match stripped_prefix(t, "BW_PASSWORD="@) {
                Some(v) => Some(trimmed(v)),
                None => bitwarden_line_value(lines.drop_first()),
            },
        }
    }
}

/// The master password a Bitwarden credential file gives: a keyed line, or
/// else the whole trimmed content when it is not empty and has no `=`.
pub open spec fn bitwarden_file_value(content: Seq<char>) -> Option<Seq<char>> {
    match bitwarden_line_value(newline_segments(content)) {
        Some(v) => Some(v),
        None => {
            let raw = trimmed(content);
            if raw.len() > 0 && !raw.contains('=') {
                Some(raw)
            } else {
                None
            }
        },
    }
}

/// Fills `init` from the lines of a Gmail credential file (see
/// `gmail_file_value`).
pub fn gmail_value_from_file(init: String, content: &str, prefix: &str) -> (res: String)
    ensures
        res@ == gmail_file_value(init@, newline_segments(content@), prefix@),
{
    let lines = split_lines(content);
    let ghost segs = newline_segments(content@);
    let mut v = init;
    let n = lines.len();
    let mut i: usize = 0;
    while i < n
        invariant
            n == lines.len(),
            i <= n,
            lines.deep_view() == segs,
            v@ == gmail_file_value(init@, segs.take(i as int), prefix@),
        decreases n - i,
    {
        assert(segs.take(i + 1).drop_last() =~= segs.take(i as int));
        assert(segs.take(i + 1).last() == lines[i as int]@);
        let t = trim(lines[i].as_str());
        match strip_prefix(t.as_str(), prefix) {
            Some(val) => {
                if v.unicode_len() == 0 {
                    v = trim(val.as_str());
                }
            },
            None => {},
        }
        i += 1;
    }
    assert(segs.take(n as int) =~= segs);
    v
}

/// The master password in a Bitwarden credential file, if it holds one
/// (see `bitwarden_file_value`).
pub fn bitwarden_value_from_file(content: &str) -> (res: Option<String>)
    ensures
        res.deep_view() == bitwarden_file_value(content@),
{
    let lines = split_lines(content);
    let ghost segs = newline_segments(content@);
    let n = lines.len();
    let mut i: usize = 0;
    assert(segs.skip(0) =~= segs);
    while i < n
        invariant
            n == lines.len(),
            i <= n,
            lines.deep_view() == segs,
            segs == newline_segments(content@),
            bitwarden_line_value(segs) == bitwarden_line_value(segs.skip(i as int)),
        decreases n - i,
    {
        let ghost rest = segs.skip(i as int);
        assert(rest.len() > 0);
        assert(rest[0] == lines[i as int]@);
        assert(rest.drop_first() =~= segs.skip(i + 1));
        let t = trim(lines[i].as_str());
        assert(t@ == trimmed(rest[0]));
        match strip_prefix(t.as_str(), "BITWARDEN_MASTER_PASSWORD=") {
            Some(val) => {
                let v = trim(val.as_str());
                assert(bitwarden_line_value(rest) == Some(v@));
                assert(bitwarden_line_value(newline_segments(content@)) == Some(v@));
                assert(bitwarden_file_value(content@) == Some(v@));
                let r = Some(v);
                assert(r.deep_view() == Some(v@));
                return r;
            },
            None => {},
        }
        match strip_prefix(t.as_str(), "BW_PASSWORD=") {
            Some(val) => {
                let v = trim(val.as_str());
                assert(bitwarden_line_value(rest) == Some(v@));
                assert(bitwarden_line_value(newline_segments(content@)) == Some(v@));
                assert(bitwarden_file_value(content@) == Some(v@));
                let r = Some(v);
                assert(r.deep_view() == Some(v@));
                return r;
            },
            None => {},
        }
        i += 1;
    }
    let raw = trim(content);
    if raw.unicode_len() > 0 && !contains_char(raw.as_str(), '=') {
        Some(raw)
    } else {
        None
    }
}

// ----------------------------------------------------------------------
// Lemmas and laws
// ----------------------------------------------------------------------

/// A string that neither starts nor ends with white space is its own trim.
pub proof fn lemma_trimmed_fixed(s: Seq<char>)
    requires
        s.len() > 0,
        !is_white_space(s[0]),
        !is_white_space(s.last()),
    ensures
        trimmed(s) == s,
{
    assert(trim_start(s) == s);
    assert(trim_end(s) == s);
}

/// `trim_start` drops a prefix: it is a suffix of its argument, and its
/// first character (if any) is not white space.
proof fn lemma_trim_start_shape(s: Seq<char>)
    ensures
        trim_start(s).len() <= s.len(),
        trim_start(s) == s.skip(s.len() - trim_start(s).len()),
        trim_start(s).len() > 0 ==> !is_white_space(trim_start(s)[0]),
    decreases s.len(),
{
    if s.len() > 0 && is_white_space(s[0]) {
        lemma_trim_start_shape(s.drop_first());
        assert(s.drop_first().skip(s.drop_first().len() - trim_start(s).len()) =~= s.skip(
            s.len() - trim_start(s).len(),
        ));
    } else {
        assert(s.skip(0) =~= s);
    }
}

/// `trim_end` keeps a prefix: its last character (if any) is not white
/// space, and a first character that is not white space stays.
proof fn lemma_trim_end_shape(s: Seq<char>)
    ensures
        trim_end(s).len() <= s.len(),
        trim_end(s) == s.take(trim_end(s).len() as int),
        trim_end(s).len() > 0 ==> !is_white_space(trim_end(s).last()),
        s.len() > 0 && !is_white_space(s[0]) ==> trim_end(s).len() > 0,
    decreases s.len(),
{
    if s.len() > 0 && is_white_space(s.last()) {
        lemma_trim_end_shape(s.drop_last());
        assert(s.drop_last().take(trim_end(s).len() as int) =~= s.take(trim_end(s).len() as int));
        if s.len() > 1 && !is_white_space(s[0]) {
            assert(s.drop_last()[0] == s[0]);
        }
    } else {
        assert(s.take(s.len() as int) =~= s);
    }
}

/// Trimming gives a subrange of its argument, and trimming twice is trimming once.
pub proof fn lemma_trimmed_shape(s: Seq<char>)
    ensures
        exists|a: int, b: int| 0 <= a <= b <= s.len() && trimmed(s) == s.subrange(a, b),
        trimmed(trimmed(s)) == trimmed(s),
{
    let t = trim_start(s);
    lemma_trim_start_shape(s);
    lemma_trim_end_shape(t);
    let u = trim_end(t);
    let a = s.len() - t.len();
    let b = a + u.len();
    assert(u =~= s.subrange(a, b));
    if u.len() > 0 {
        assert(u[0] == t[0]);
        lemma_trimmed_fixed(u);
    } else {
        assert(trim_start(u) == u);
        assert(trim_end(u) == u);
    }
}

/// Removing a character that does not occur changes nothing.
pub proof fn lemma_without_absent(s: Seq<char>, c: char)
    requires
        !s.contains(c),
    ensures
        without_char(s, c) == s,
    decreases s.len(),
{
    if s.len() > 0 {
        assert(!s.drop_last().contains(c)) by {
            if s.drop_last().contains(c) {
                let i = choose|i: int| 0 <= i < s.drop_last().len() && s.drop_last()[i] == c;
                assert(s[i] == c);
            }
        }
        lemma_without_absent(s.drop_last(), c);
        assert(s.last() != c) by {
            assert(s[s.len() - 1] == s.last());
        }
        assert(s.drop_last().push(s.last()) =~= s);
    }
}

/// After removing `c`, no `c` is left.
pub proof fn lemma_without_removes(s: Seq<char>, c: char)
    ensures
        !without_char(s, c).contains(c),
    decreases s.len(),
{
    if s.len() > 0 {
        lemma_without_removes(s.drop_last(), c);
        let r = without_char(s.drop_last(), c);
        if s.last() != c {
            assert forall|i: int| 0 <= i < r.push(s.last()).len() implies r.push(s.last())[i]
                != c by {
                if i < r.len() {
                    assert(r.push(s.last())[i] == r[i]);
                }
            }
        }
    }
}

/// Appending a piece without line feeds extends the last segment.
proof fn lemma_segments_append(s: Seq<char>, t: Seq<char>)
    requires
        !t.contains('\n'),
    ensures
        newline_segments(s + t) == newline_segments(s).update(
            newline_segments(s).len() - 1,
            newline_segments(s).last() + t,
        ),
        newline_segments(s).len() >= 1,
    decreases t.len(),
{
    lemma_segments_nonempty(s);
    if t.len() == 0 {
        assert(s + t =~= s);
        assert(newline_segments(s).last() + t =~= newline_segments(s).last());
        assert(newline_segments(s).update(newline_segments(s).len() - 1, newline_segments(s).last())
            =~= newline_segments(s));
    } else {
        let t0 = t.drop_last();
        assert(!t0.contains('\n')) by {
            if t0.contains('\n') {
                let i = choose|i: int| 0 <= i < t0.len() && t0[i] == '\n';
                assert(t[i] == '\n');
            }
        }
        lemma_segments_append(s, t0);
        assert((s + t).drop_last() =~= s + t0);
        assert((s + t).last() == t.last());
        assert(t.last() != '\n') by {
            assert(t[t.len() - 1] == t.last());
        }
        lemma_segments_nonempty(s + t0);
        let p = newline_segments(s);
        assert(p.last() + t0 + seq![t.last()] =~= p.last() + t);
        assert((p.last() + t0).push(t.last()) =~= p.last() + t);
        assert(newline_segments(s + t) =~= p.update(p.len() - 1, p.last() + t));
    }
}

/// There is always at least one segment.
proof fn lemma_segments_nonempty(s: Seq<char>)
    ensures
        newline_segments(s).len() >= 1,
    decreases s.len(),
{
    if s.len() > 0 {
        lemma_segments_nonempty(s.drop_last());
    }
}

/// A line feed closes the last segment and opens an empty one.
proof fn lemma_segments_newline(s: Seq<char>)
    ensures
        newline_segments(s + "\n"@) == newline_segments(s).push(Seq::<char>::empty()),
{
    reveal_strlit("\n");
    assert((s + "\n"@).drop_last() =~= s);
}

/// The segments of a line without line feeds, followed by a line feed.
proof fn lemma_segments_of_line(prev: Seq<char>, line: Seq<char>)
    requires
        !line.contains('\n'),
    ensures
        newline_segments(prev + line + "\n"@) == newline_segments(prev).update(
            newline_segments(prev).len() - 1,
            newline_segments(prev).last() + line,
        ).push(Seq::<char>::empty()),
{
    lemma_segments_append(prev, line);
    lemma_segments_newline(prev + line);
}

/// A non-empty trim starts and ends with characters that are not white space.
proof fn lemma_trimmed_ends(s: Seq<char>)
    requires
        trimmed(s).len() > 0,
    ensures
        !is_white_space(trimmed(s)[0]),
        !is_white_space(trimmed(s).last()),
{
    let t = trim_start(s);
    lemma_trim_start_shape(s);
    lemma_trim_end_shape(t);
    assert(trim_end(t) == t.take(trim_end(t).len() as int));
    assert(trim_end(t)[0] == t[0]);
}

/// The line `prefix + value` is its own trim when `prefix` starts with a
/// character that is not white space and `value` is a non-empty trim.
proof fn lemma_keyed_line_trimmed(prefix: Seq<char>, value: Seq<char>)
    requires
        prefix.len() > 0,
        !is_white_space(prefix[0]),
        value.len() > 0,
        trimmed(value) == value,
    ensures
        trimmed(prefix + value) == prefix + value,
        stripped_prefix(prefix + value, prefix) == Some(value),
{
    lemma_trimmed_ends(value);
    let l = prefix + value;
    assert(l[0] == prefix[0]);
    assert(l.last() == value.last());
    lemma_trimmed_fixed(l);
    assert(l.subrange(0, prefix.len() as int) =~= prefix);
    assert(l.skip(prefix.len() as int) =~= value);
}

/// What the setup tools save for Gmail reads back: a file written for an
/// email and app password that are their own trims, are not empty, and
/// hold no line feed (the password no space either) gives back that email
/// and that password, when the environment sets neither.
pub proof fn lemma_gmail_file_read_back(email: Seq<char>, password: Seq<char>)
    requires
        email.len() > 0,
        trimmed(email) == email,
        !email.contains('\n'),
        password.len() > 0,
        trimmed(password) == password,
        !password.contains('\n'),
        !password.contains(' '),
    ensures
        gmail_file_value(Seq::<char>::empty(), newline_segments(gmail_file_content(email, password)), "GMAIL_EMAIL="@) == email,
        gmail_file_value(Seq::<char>::empty(), newline_segments(gmail_file_content(email, password)), "GMAIL_APP_PASSWORD="@) == password,
        clean_app_password(password) == password,
{
    reveal_strlit("GMAIL_EMAIL=");
    reveal_strlit("GMAIL_APP_PASSWORD=");
    reveal_strlit("\n");
    let pe = "GMAIL_EMAIL="@;
    let pp = "GMAIL_APP_PASSWORD="@;
    let nl = "\n"@;
    let l1 = pe + email;
    let l2 = pp + password;
    let c = gmail_file_content(email, password);
    assert(c =~= Seq::<char>::empty() + l1 + nl + l2 + nl);
    assert(!l1.contains('\n')) by {
        if l1.contains('\n') {
            let i = choose|i: int| 0 <= i < l1.len() && l1[i] == '\n';
            if i >= pe.len() {
                assert(email[i - pe.len()] == '\n');
            }
        }
    }
    assert(!l2.contains('\n')) by {
        if l2.contains('\n') {
            let i = choose|i: int| 0 <= i < l2.len() && l2[i] == '\n';
            if i >= pp.len() {
                assert(password[i - pp.len()] == '\n');
            }
        }
    }
    let e0 = Seq::<char>::empty();
    lemma_segments_of_line(e0, l1);
    assert(newline_segments(e0) == seq![Seq::<char>::empty()]);
    let s1 = newline_segments(e0 + l1 + nl);
    assert(s1 =~= seq![l1, Seq::<char>::empty()]) by {
        assert(Seq::<char>::empty() + l1 =~= l1);
    }
    lemma_segments_of_line(e0 + l1 + nl, l2);
    let s2 = newline_segments(e0 + l1 + nl + l2 + nl);
    assert(s2 =~= seq![l1, l2, Seq::<char>::empty()]) by {
        assert(Seq::<char>::empty() + l2 =~= l2);
    }
    lemma_keyed_line_trimmed(pe, email);
    lemma_keyed_line_trimmed(pp, password);
    // The email line does not carry the password key, nor the reverse.
    assert(!has_prefix(l1, pp)) by {
        assert(l1[6] == 'E');
        assert(pp[6] == 'A');
        if has_prefix(l1, pp) {
            assert(l1.subrange(0, pp.len() as int)[6] == l1[6]);
        }
    }
    assert(!has_prefix(l2, pe)) by {
        assert(l2[6] == 'A');
        assert(pe[6] == 'E');
        if has_prefix(l2, pe) {
            assert(l2.subrange(0, pe.len() as int)[6] == l2[6]);
        }
    }
    let empty = Seq::<char>::empty();
    assert(trimmed(empty) == empty) by {
        assert(trim_start(empty) == empty);
        assert(trim_end(empty) == empty);
    }
    assert(stripped_prefix(empty, pe) is None);
    assert(stripped_prefix(empty, pp) is None);
    assert(s2.drop_last() =~= seq![l1, l2]);
    assert(s2.drop_last().drop_last() =~= seq![l1]);
    assert(seq![l1].drop_last() =~= Seq::<Seq<char>>::empty());
    assert(seq![l1].last() == l1);
    assert(seq![l1, l2].last() == l2);
    assert(s2.last() == empty);
    assert(gmail_file_value(empty, Seq::<Seq<char>>::empty(), pe) == empty);
    assert(gmail_file_value(empty, Seq::<Seq<char>>::empty(), pp) == empty);
    assert(gmail_file_value(empty, seq![l1], pe) == email);
    assert(gmail_file_value(empty, seq![l1, l2], pe) == email);
    assert(gmail_file_value(empty, s2, pe) == email);
    assert(gmail_file_value(empty, seq![l1], pp) == empty);
    assert(gmail_file_value(empty, seq![l1, l2], pp) == password);
    assert(gmail_file_value(empty, s2, pp) == password);
    lemma_without_absent(password, ' ');
}

/// An accepted Gmail input meets what `lemma_gmail_file_read_back` asks of
/// the password: it is its own trim, not empty, and has no space.
pub proof fn lemma_accepted_password_is_clean(raw: Seq<char>)
    requires
        clean_app_password(raw).len() > 0,
    ensures
        trimmed(clean_app_password(raw)) == clean_app_password(raw),
        !clean_app_password(raw).contains(' '),
{
    let w = without_char(raw, ' ');
    lemma_trimmed_shape(w);
    lemma_without_removes(raw, ' ');
    let t = trimmed(w);
    let (a, b) = choose|a: int, b: int| 0 <= a <= b <= w.len() && t == w.subrange(a, b);
    if t.contains(' ') {
        let i = choose|i: int| 0 <= i < t.len() && t[i] == ' ';
        assert(w[a + i] == ' ');
    }
}

/// What the setup tool saves for Bitwarden reads back: a file written for a
/// master password that is its own trim, is not empty and holds no line
/// feed gives back that password.
pub proof fn lemma_bitwarden_file_read_back(password: Seq<char>)
    requires
        password.len() > 0,
        trimmed(password) == password,
        !password.contains('\n'),
    ensures
        bitwarden_file_value(bitwarden_file_content(password)) == Some(password),
{
    reveal_strlit("BITWARDEN_MASTER_PASSWORD=");
    reveal_strlit("\n");
    let pb = "BITWARDEN_MASTER_PASSWORD="@;
    let nl = "\n"@;
    let l1 = pb + password;
    let e0 = Seq::<char>::empty();
    assert(bitwarden_file_content(password) =~= e0 + l1 + nl);
    assert(!l1.contains('\n')) by {
        if l1.contains('\n') {
            let i = choose|i: int| 0 <= i < l1.len() && l1[i] == '\n';
            if i >= pb.len() {
                assert(password[i - pb.len()] == '\n');
            }
        }
    }
    lemma_segments_of_line(e0, l1);
    assert(newline_segments(e0) == seq![Seq::<char>::empty()]);
    let s = newline_segments(e0 + l1 + nl);
    assert(s =~= seq![l1, Seq::<char>::empty()]) by {
        assert(Seq::<char>::empty() + l1 =~= l1);
    }
    lemma_keyed_line_trimmed(pb, password);
    assert(s[0] == l1);
}

/// The Bitwarden master password the setup wizard accepts is its own trim.
pub proof fn lemma_accepted_master_password_is_trimmed(raw: Seq<char>)
    ensures
        trimmed(trimmed(raw)) == trimmed(raw),
{
    lemma_trimmed_shape(raw);
}

} // verus!
