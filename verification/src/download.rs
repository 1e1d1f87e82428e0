//! Markdown export of a logged transaction: the whole conversation of the
//! request, or the assistant's first answer of the response.
use vstd::prelude::*;
use crate::store::{id_text, uuid_hyphenated};
use crate::text::{
    from_chars, push_str, str_eq, to_chars, trim, trim_string, unicode_lowercase,
    unicode_uppercase, lowercase_str, uppercase_char, all_ascii, ascii_lowercase, ascii_upper,
};

verus! {

/// One chat message as the log holds it; a missing role reads as empty.
pub struct Message {
    pub role: String,
    pub content: Option<String>,
}

/// The request body of a chat completion; missing messages read as none.
pub struct RequestBody {
    pub messages: Vec<Message>,
}

/// One choice of a chat completion response.
pub struct ResponseChoice {
    pub message: Option<Message>,
}

/// The response body of a chat completion; missing choices read as none.
pub struct ResponseBody {
    pub choices: Vec<ResponseChoice>,
}

/// The logged request, of which only the body is read.
pub struct RequestData {
    pub body: Option<RequestBody>,
}

/// The logged response, of which only the body is read.
pub struct ResponseData {
    pub body: Option<ResponseBody>,
}

/// A logged transaction as the export reads it.
pub struct Transaction {
    pub id: String,
    pub request: Option<RequestData>,
    pub response: Option<ResponseData>,
}

/// `s` with every `\n` escape (a backslash followed by `n`) turned into a
/// newline, scanning left to right as `str::replace` does.
pub open spec fn unescape_newlines(s: Seq<char>) -> Seq<char>
    decreases s.len(),
{
    if s.len() == 0 {
        s
    } else if s.len() >= 2 && s[0] == '\\' && s[1] == 'n' {
        seq!['\n'] + unescape_newlines(s.skip(2))
    } else {
        seq![s[0]] + unescape_newlines(s.drop_first())
    }
}

/// Turns escaped newlines (`\n` written as two characters) into newlines.
pub fn sanitize_content(content: &str) -> (r: String)
    ensures
        r@ == unescape_newlines(content@),
{
    let v = to_chars(content);
    let n = v.len();
    let mut out: Vec<char> = Vec::new();
    let mut i: usize = 0;
    assert(v@.skip(0) =~= v@);
    while i < n
        invariant
            n == v@.len(),
            0 <= i <= n,
            out@ + unescape_newlines(v@.skip(i as int)) == unescape_newlines(v@),
        decreases n - i,
    {
        let ghost rest = v@.skip(i as int);
        if i + 1 < n && v[i] == '\\' && v[i + 1] == 'n' {
            assert(rest.skip(2) =~= v@.skip(i + 2));
            assert(unescape_newlines(rest) == seq!['\n'] + unescape_newlines(rest.skip(2)));
            out.push('\n');
            i = i + 2;
        } else {
            assert(rest.drop_first() =~= v@.skip(i + 1));
            assert(unescape_newlines(rest) == seq![rest[0]] + unescape_newlines(rest.drop_first()));
            out.push(v[i]);
            i = i + 1;
        }
        assert(out@ + unescape_newlines(v@.skip(i as int)) =~= unescape_newlines(v@));
    }
    assert(v@.skip(n as int) =~= Seq::<char>::empty());
    assert(out@ =~= unescape_newlines(v@));
    from_chars(&out)
}

/// Whether `s` holds a `\n` escape: a backslash followed by `n`.
pub open spec fn has_newline_escape(s: Seq<char>) -> bool {
    exists|i: int| 0 <= i < s.len() - 1 && #[trigger] s[i] == '\\' && s[i + 1] == 'n'
}

proof fn lemma_unescape_start(t: Seq<char>)
    ensures
        t.len() == 0 ==> unescape_newlines(t) == t,
        t.len() > 0 ==> unescape_newlines(t).len() > 0 && (unescape_newlines(t)[0] == '\n'
            || unescape_newlines(t)[0] == t[0]),
{
}

proof fn lemma_unescaped_has_no_escape(s: Seq<char>)
    ensures
        !has_newline_escape(unescape_newlines(s)),
    decreases s.len(),
{
    if s.len() == 0 {
    } else if s.len() >= 2 && s[0] == '\\' && s[1] == 'n' {
        let rest = unescape_newlines(s.skip(2));
        lemma_unescaped_has_no_escape(s.skip(2));
        let out = seq!['\n'] + rest;
        assert(out == unescape_newlines(s));
        assert forall|i: int| 0 <= i < out.len() - 1 && #[trigger] out[i] == '\\' implies out[i
            + 1] != 'n' by {
            assert(out[i] == rest[i - 1]);
            assert(out[i + 1] == rest[i]);
        }
    } else {
        let t = s.drop_first();
        let rest = unescape_newlines(t);
        lemma_unescaped_has_no_escape(t);
        lemma_unescape_start(t);
        let out = seq![s[0]] + rest;
        assert(out == unescape_newlines(s));
        assert forall|i: int| 0 <= i < out.len() - 1 && #[trigger] out[i] == '\\' implies out[i
            + 1] != 'n' by {
            if i == 0 {
                assert(t[0] == s[1]);
                assert(out[1] == rest[0]);
            } else {
                assert(out[i] == rest[i - 1]);
                assert(out[i + 1] == rest[i]);
            }
        }
    }
}

proof fn lemma_unescape_without_escape(s: Seq<char>)
    requires
        !has_newline_escape(s),
    ensures
        unescape_newlines(s) == s,
    decreases s.len(),
{
    if s.len() == 0 {
    } else {
        if s.len() >= 2 && s[0] == '\\' && s[1] == 'n' {
            assert(s[0int] == '\\' && s[0int + 1] == 'n');
        }
        let t = s.drop_first();
        assert(!has_newline_escape(t)) by {
            if has_newline_escape(t) {
                let i = choose|i: int| 0 <= i < t.len() - 1 && #[trigger] t[i] == '\\' && t[i
                    + 1] == 'n';
                assert(s[i + 1] == '\\' && s[(i + 1) + 1] == 'n');
            }
        }
        lemma_unescape_without_escape(t);
        assert(seq![s[0]] + t =~= s);
    }
}

/// Unescaping leaves no `\n` escape behind, so unescaping twice gives what
/// unescaping once gives: exported content is settled.
pub proof fn unescaped_content_is_settled(s: Seq<char>)
    ensures
        !has_newline_escape(unescape_newlines(s)),
        unescape_newlines(unescape_newlines(s)) == unescape_newlines(s),
{
    lemma_unescaped_has_no_escape(s);
    lemma_unescape_without_escape(unescape_newlines(s));
}

/// The heading used for a message role: the three known roles by name, an
/// empty role as `Unknown`, any other role with its first character upper-cased
/// and the rest lower-cased.
pub open spec fn role_title(role: Seq<char>) -> Seq<char> {
    if role == "system"@ {
        "System"@
    } else if role == "user"@ {
        "User"@
    } else if role == "assistant"@ {
        "Assistant"@
    } else if role.len() == 0 {
        "Unknown"@
    } else {
        unicode_uppercase(role[0]) + unicode_lowercase(role.drop_first())
    }
}

/// The heading of an all-ASCII role: as `role_title`, with the case
/// mappings of ASCII letters.
pub open spec fn ascii_role_title(role: Seq<char>) -> Seq<char> {
    if role == "system"@ {
        "System"@
    } else if role == "user"@ {
        "User"@
    } else if role == "assistant"@ {
        "Assistant"@
    } else if role.len() == 0 {
        "Unknown"@
    } else {
        seq![ascii_upper(role[0])] + ascii_lowercase(role.drop_first())
    }
}

/// The heading for a message role.
pub fn format_role(role: &str) -> (r: String)
    ensures
        r@ == role_title(role@),
        all_ascii(role@) ==> r@ == ascii_role_title(role@),
{
    if str_eq(role, "system") {
        return String::from_str("System");
    }
    if str_eq(role, "user") {
        return String::from_str("User");
    }
    if str_eq(role, "assistant") {
        return String::from_str("Assistant");
    }
    let v = to_chars(role);
    if v.len() == 0 {
        return String::from_str("Unknown");
    }
    let mut rest_chars: Vec<char> = Vec::new();
    let mut i: usize = 1;
    while i < v.len()
        invariant
            1 <= i <= v@.len(),
            rest_chars@ == v@.subrange(1, i as int),
        decreases v@.len() - i,
    {
        rest_chars.push(v[i]);
        assert(rest_chars@ =~= v@.subrange(1, i + 1));
        i = i + 1;
    }
    assert(rest_chars@ =~= v@.drop_first());
    let rest = from_chars(&rest_chars);
    let mut r = uppercase_char(v[0]);
    let lower = lowercase_str(rest.as_str());
    push_str(&mut r, lower.as_str());
    r
}

/// The text of a message's content; a missing content reads as empty.
pub open spec fn content_text(m: Message) -> Seq<char> {
    match m.content {
        Some(c) => c@,
        None => Seq::empty(),
    }
}

/// The markdown block of one message: `=== <Role> ===`, a newline, the content
/// with escaped newlines unescaped, and a blank line.
pub open spec fn message_block(m: Message) -> Seq<char> {
    "=== "@ + role_title(m.role@) + " ===\n"@ + unescape_newlines(content_text(m)) + "\n\n"@
}

/// The blocks of all messages, in order.
pub open spec fn message_blocks(ms: Seq<Message>) -> Seq<char>
    decreases ms.len(),
{
    if ms.len() == 0 {
        Seq::empty()
    } else {
        message_blocks(ms.drop_last()) + message_block(ms.last())
    }
}

/// The markdown of a conversation: the blocks of its messages, trimmed.
pub open spec fn conversation_markdown(ms: Seq<Message>) -> Seq<char> {
    trim(message_blocks(ms))
}

/// Writes a conversation as markdown, one block per message.
pub fn conversation_to_markdown(messages: &Vec<Message>) -> (r: String)
    ensures
        r@ == conversation_markdown(messages@),
{
    let mut md = String::new();
    let mut i: usize = 0;
    while i < messages.len()
        invariant
            0 <= i <= messages@.len(),
            md@ == message_blocks(messages@.take(i as int)),
        decreases messages@.len() - i,
    {
        let msg = &messages[i];
        let role = format_role(msg.role.as_str());
        let content = match &msg.content {
            Some(c) => sanitize_content(c.as_str()),
            None => sanitize_content(""),
        };
        proof {
            if msg.content is None {
                assert(""@ =~= Seq::<char>::empty()) by {
                    reveal_strlit("");
                }
            }
        }
        push_str(&mut md, "=== ");
        push_str(&mut md, role.as_str());
        push_str(&mut md, " ===\n");
        push_str(&mut md, content.as_str());
        push_str(&mut md, "\n\n");
        proof {
            let t = messages@.take(i + 1);
            assert(t.drop_last() =~= messages@.take(i as int));
            assert(t.last() == messages@[i as int]);
        }
        i = i + 1;
    }
    assert(messages@.take(messages@.len() as int) =~= messages@);
    trim_string(md.as_str())
}

/// The markdown of an answer: an `Assistant` heading followed by the content
/// with escaped newlines unescaped.
pub open spec fn answer_markdown(content: Seq<char>) -> Seq<char> {
    "=== Assistant ===\n"@ + unescape_newlines(content)
}

/// Writes the assistant's answer as markdown.
pub fn response_to_markdown(content: &str) -> (r: String)
    ensures
        r@ == answer_markdown(content@),
{
    let sanitized = sanitize_content(content);
    let mut r = String::from_str("=== Assistant ===\n");
    push_str(&mut r, sanitized.as_str());
    r
}

/// What a markdown download answers: a status, the headers that mark a file
/// download, and the body.
pub struct DownloadReply {
    pub status: u16,
    /// The `Content-Type` header, where one is sent.
    pub content_type: Option<String>,
    /// The `Content-Disposition` header, where one is sent.
    pub content_disposition: Option<String>,
    pub body: String,
}

/// `r` is a plain reply with this status and body and no download headers.
pub open spec fn is_plain_reply(r: DownloadReply, status: u16, body: Seq<char>) -> bool {
    &&& r.status == status
    &&& r.content_type is None
    &&& r.content_disposition is None
    &&& r.body@ == body
}

/// `r` hands out `body` as the markdown file `file_name`, with status 200.
pub open spec fn is_file_reply(r: DownloadReply, file_name: Seq<char>, body: Seq<char>) -> bool {
    &&& r.status == 200
    &&& r.content_type matches Some(t) && t@ == "text/markdown"@
    &&& r.content_disposition matches Some(d) && d@ == "attachment; filename=\""@ + file_name
        + "\""@
    &&& r.body@ == body
}

fn plain_reply(status: u16, body: &str) -> (r: DownloadReply)
    ensures
        is_plain_reply(r, status, body@),
{
    DownloadReply {
        status,
        content_type: None,
        content_disposition: None,
        body: String::from_str(body),
    }
}

fn file_reply(prefix: &str, id: u128, body: String) -> (r: DownloadReply)
    ensures
        is_file_reply(r, prefix@ + uuid_hyphenated(id) + ".md"@, body@),
{
    let mut name = String::from_str(prefix);
    let text = id_text(id);
    push_str(&mut name, text.as_str());
    push_str(&mut name, ".md");
    let mut disposition = String::from_str("attachment; filename=\"");
    push_str(&mut disposition, name.as_str());
    push_str(&mut disposition, "\"");
    DownloadReply {
        status: 200,
        content_type: Some(String::from_str("text/markdown")),
        content_disposition: Some(disposition),
        body,
    }
}

/// The reply to a download whose id is not a UUID: the refusal's status
/// with the body `Invalid transaction id`.
pub fn refused_id_reply(status: u16) -> (r: DownloadReply)
    ensures
        is_plain_reply(r, status, "Invalid transaction id"@),
{
    plain_reply(status, "Invalid transaction id")
}

/// The messages of a transaction's request; none where the request or its
/// body is missing.
pub open spec fn request_messages(tx: Transaction) -> Seq<Message> {
    match tx.request {
        Some(req) => match req.body {
            Some(body) => body.messages@,
            None => Seq::empty(),
        },
        None => Seq::empty(),
    }
}

/// The choices of a transaction's response; none where the response or its
/// body is missing.
pub open spec fn response_choices(tx: Transaction) -> Seq<ResponseChoice> {
    match tx.response {
        Some(resp) => match resp.body {
            Some(body) => body.choices@,
            None => Seq::empty(),
        },
        None => Seq::empty(),
    }
}

/// The content of the first choice's message; empty where there is none.
pub open spec fn first_answer(choices: Seq<ResponseChoice>) -> Seq<char> {
    if choices.len() == 0 {
        Seq::empty()
    } else {
        match choices[0].message {
            Some(m) => content_text(m),
            None => Seq::empty(),
        }
    }
}

/// The reply to a conversation download of transaction `id`, given the
/// outcome of loading it: the load's status with `Transaction not found` when
/// loading failed, 400 `No messages to download` when the request holds no
/// messages, and otherwise the file `conversation_<id>.md` with the
/// conversation's markdown.
pub fn conversation_reply(id: u128, loaded: &Result<Transaction, u16>) -> (r: DownloadReply)
    ensures
        loaded matches Err(s) ==> is_plain_reply(r, *s, "Transaction not found"@),
        loaded matches Ok(tx) ==> (if request_messages(*tx).len() == 0 {
            is_plain_reply(r, 400, "No messages to download"@)
        } else {
            is_file_reply(
                r,
                "conversation_"@ + uuid_hyphenated(id) + ".md"@,
                conversation_markdown(request_messages(*tx)),
            )
        }),
{
    match loaded {
        Err(s) => plain_reply(*s, "Transaction not found"),
        Ok(tx) => {
            let empty: Vec<Message> = Vec::new();
            let messages: &Vec<Message> = match &tx.request {
                Some(req) => match &req.body {
                    Some(body) => &body.messages,
                    None => &empty,
                },
                None => &empty,
            };
            if messages.len() == 0 {
                return plain_reply(400, "No messages to download");
            }
            let md = conversation_to_markdown(messages);
            file_reply("conversation_", id, md)
        },
    }
}

/// The reply to an answer download of transaction `id`, given the outcome of
/// loading it: the load's status with `Transaction not found` when loading
/// failed, 400 `No response to download` when the response holds no choices,
/// 400 `Response has no content` when the first choice has no content, and
/// otherwise the file `response_<id>.md` with the answer's markdown.
pub fn response_reply(id: u128, loaded: &Result<Transaction, u16>) -> (r: DownloadReply)
    ensures
        loaded matches Err(s) ==> is_plain_reply(r, *s, "Transaction not found"@),
        loaded matches Ok(tx) ==> (if response_choices(*tx).len() == 0 {
            is_plain_reply(r, 400, "No response to download"@)
        } else if first_answer(response_choices(*tx)).len() == 0 {
            is_plain_reply(r, 400, "Response has no content"@)
        } else {
            is_file_reply(
                r,
                "response_"@ + uuid_hyphenated(id) + ".md"@,
                answer_markdown(first_answer(response_choices(*tx))),
            )
        }),
{
    match loaded {
        Err(s) => plain_reply(*s, "Transaction not found"),
        Ok(tx) => {
            let empty: Vec<ResponseChoice> = Vec::new();
            let choices: &Vec<ResponseChoice> = match &tx.response {
                Some(resp) => match &resp.body {
                    Some(body) => &body.choices,
                    None => &empty,
                },
                None => &empty,
            };
            if choices.len() == 0 {
                return plain_reply(400, "No response to download");
            }
            let content: &str = match &choices[0].message {
                Some(m) => match &m.content {
                    Some(c) => c.as_str(),
                    None => "",
                },
                None => "",
            };
            proof {
                reveal_strlit("");
            }
            if content.unicode_len() == 0 {
                return plain_reply(400, "Response has no content");
            }
            let md = response_to_markdown(content);
            file_reply("response_", id, md)
        },
    }
}

/// The exported answer is the first choice's: for a response whose first
/// choice holds a message with content `c`, the answer is `c`, and its
/// markdown is the `Assistant` heading followed by `c` with escaped newlines
/// unescaped, whatever choices follow the first.
pub proof fn answer_is_first_choice(
    first: ResponseChoice,
    later: Seq<ResponseChoice>,
    m: Message,
    c: String,
)
    requires
        first.message == Some(m),
        m.content == Some(c),
    ensures
        first_answer(seq![first] + later) == c@,
        answer_markdown(first_answer(seq![first] + later)) == "=== Assistant ===\n"@
            + unescape_newlines(c@),
{
    assert((seq![first] + later)[0] == first);
}

/// Choices after the first never change the exported answer.
pub proof fn later_choices_do_not_change_answer(choices: Seq<ResponseChoice>, later: Seq<ResponseChoice>)
    requires
        choices.len() >= 1,
    ensures
        first_answer(choices + later) == first_answer(choices.take(1)),
{
    assert((choices + later)[0] == choices[0]);
    assert(choices.take(1)[0] == choices[0]);
}

/// Content without a backslash is exported exactly as it was logged.
pub proof fn plain_content_kept(s: Seq<char>)
    requires
        !s.contains('\\'),
    ensures
        unescape_newlines(s) == s,
    decreases s.len(),
{
    if s.len() > 0 {
        assert(s[0] != '\\');
        assert(!s.drop_first().contains('\\')) by {
            if s.drop_first().contains('\\') {
                let i = choose|i: int| 0 <= i < s.drop_first().len() && s.drop_first()[i] == '\\';
                assert(s[i + 1] == '\\');
            }
        }
        plain_content_kept(s.drop_first());
        assert(s =~= seq![s[0]] + s.drop_first());
    }
}

} // verus!
