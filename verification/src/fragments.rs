//! The content of the dashboard's HTML fragments: transaction cards, the
//! detail pane with its download button, the stats labels, and the order in
//! which transactions are listed.
use vstd::prelude::*;
use crate::metrics::TimeWindow;
use crate::text::{
    before_first, decimal, find_char, lemma_lex_total,
    lemma_lex_transitive, lex_less, lex_lt, push_char, push_chars, push_decimal, push_str,
    replace_first, str_eq, to_chars,
};

verus! {

/// A transaction as one card of the list shows it.
pub struct TransactionSummary {
    pub id: String,
    pub timestamp: String,
    pub method: Option<String>,
    pub status: Option<u16>,
    pub latency_ms: Option<u64>,
}

/// Which side of a transaction the detail pane shows.
#[derive(Clone, Copy, PartialEq, Eq, Structural)]
pub enum DetailSection {
    Request,
    Response,
}

/// The query of the detail endpoint.
pub struct DetailParams {
    pub section: Option<String>,
}

/// A timestamp as the list shows it: the first `T` turned into a space, and
/// everything from the first `.` cut off, or failing that from the first `+`,
/// or failing that from the first `Z`.
pub open spec fn display_timestamp(ts: Seq<char>) -> Seq<char> {
    let w = replace_first(ts, 'T', ' ');
    match before_first(w, '.') {
        Some(p) => p,
        None => match before_first(w, '+') {
            Some(p) => p,
            None => match before_first(w, 'Z') {
                Some(p) => p,
                None => w,
            },
        },
    }
}

/// Formats a timestamp like `2026-03-26T12:00:00.123+00:00` as
/// `2026-03-26 12:00:00`.
pub fn format_timestamp(ts: &str) -> (r: String)
    ensures
        r@ == display_timestamp(ts@),
{
    let mut v = to_chars(ts);
    let ghost orig = v@;
    match find_char(&v, 'T') {
        Some(i) => {
            v.set(i, ' ');
        },
        None => {},
    }
    assert(v@ == replace_first(orig, 'T', ' '));
    let cut = match find_char(&v, '.') {
        Some(i) => i,
        None => match find_char(&v, '+') {
            Some(i) => i,
            None => match find_char(&v, 'Z') {
                Some(i) => i,
                None => v.len(),
            },
        },
    };
    let mut r = String::new();
    push_chars(&mut r, &v, 0, cut);
    proof {
        assert(v@.subrange(0, cut as int) =~= v@.take(cut as int));
        assert(v@.take(v@.len() as int) =~= v@);
    }
    r
}

/// The CSS class of a status: `status-ok` for 2xx, `status-err` for any
/// other status and for a missing one.
pub open spec fn status_class_spec(status: Option<u16>) -> Seq<char> {
    match status {
        Some(s) => if 200 <= s <= 299 {
            "status-ok"@
        } else {
            "status-err"@
        },
        None => "status-err"@,
    }
}

/// The CSS class for a transaction's status.
pub fn status_class(status: Option<u16>) -> (r: String)
    ensures
        r@ == status_class_spec(status),
{
    match status {
        Some(s) => if 200 <= s && s <= 299 {
            String::from_str("status-ok")
        } else {
            String::from_str("status-err")
        },
        None => String::from_str("status-err"),
    }
}

/// A card is marked a success exactly for a 2xx status; every other status,
/// client and server errors among them, and a missing status are marked an
/// error.
pub proof fn ok_class_exactly_for_success(status: Option<u16>)
    ensures
        status_class_spec(status) == "status-ok"@ <==> (status matches Some(s) && 200 <= s <= 299),
        status_class_spec(status) == "status-ok"@ || status_class_spec(status) == "status-err"@,
{
    reveal_strlit("status-ok");
    reveal_strlit("status-err");
    assert("status-ok"@[7] != "status-err"@[7]);
}

/// What one transaction card shows, and where its two detail panes load from.
pub struct TxCard {
    pub id: String,
    pub time: String,
    pub method: String,
    pub status_text: String,
    pub status_class: String,
    pub latency_text: String,
    pub response_url: String,
    pub request_url: String,
}

/// The URL of a transaction's detail pane for one section.
pub open spec fn detail_url(id: Seq<char>, section: Seq<char>) -> Seq<char> {
    "/fragments/tx/"@ + id + "?section="@ + section
}

/// The view of an optional string.
pub open spec fn opt_text(s: Option<String>) -> Option<Seq<char>> {
    match s {
        Some(t) => Some(t@),
        None => None,
    }
}

/// The card for a transaction with these fields: the displayed timestamp,
/// the method or `?`, the status in decimal or `?`, its class, the latency
/// as `<n> ms` or nothing, and the two detail URLs.
pub open spec fn is_card_for(
    c: TxCard,
    id: Seq<char>,
    timestamp: Seq<char>,
    method: Option<Seq<char>>,
    status: Option<u16>,
    latency_ms: Option<u64>,
) -> bool {
    &&& c.id@ == id
    &&& c.time@ == display_timestamp(timestamp)
    &&& c.method@ == match method {
        Some(m) => m,
        None => "?"@,
    }
    &&& c.status_text@ == match status {
        Some(n) => decimal(n as nat),
        None => "?"@,
    }
    &&& c.status_class@ == status_class_spec(status)
    &&& c.latency_text@ == match latency_ms {
        Some(ms) => decimal(ms as nat) + " ms"@,
        None => Seq::empty(),
    }
    &&& c.response_url@ == detail_url(id, "response"@)
    &&& c.request_url@ == detail_url(id, "request"@)
}

/// The card of summary `s`.
pub open spec fn is_card_of(c: TxCard, s: TransactionSummary) -> bool {
    is_card_for(c, s.id@, s.timestamp@, opt_text(s.method), s.status, s.latency_ms)
}

fn detail_link(id: &str, section: &str) -> (r: String)
    ensures
        r@ == detail_url(id@, section@),
{
    let mut r = String::from_str("/fragments/tx/");
    push_str(&mut r, id);
    push_str(&mut r, "?section=");
    push_str(&mut r, section);
    r
}

/// The card of one transaction.
pub fn tx_card(summary: &TransactionSummary) -> (r: TxCard)
    ensures
        is_card_of(r, *summary),
{
    let method = match &summary.method {
        Some(m) => m.clone(),
        None => String::from_str("?"),
    };
    let status_text = match summary.status {
        Some(n) => {
            let mut s = String::new();
            push_decimal(&mut s, n as u64);
            s
        },
        None => String::from_str("?"),
    };
    let latency_text = match summary.latency_ms {
        Some(ms) => {
            let mut s = String::new();
            push_decimal(&mut s, ms);
            push_str(&mut s, " ms");
            s
        },
        None => String::new(),
    };
    TxCard {
        id: summary.id.clone(),
        time: format_timestamp(summary.timestamp.as_str()),
        method,
        status_text,
        status_class: status_class(summary.status),
        latency_text,
        response_url: detail_link(summary.id.as_str(), "response"),
        request_url: detail_link(summary.id.as_str(), "request"),
    }
}

/// An optional string field of a log entry as text: empty where absent.
pub open spec fn field_text(s: Option<&str>) -> Seq<char> {
    match s {
        Some(t) => t@,
        None => Seq::empty(),
    }
}

/// The view of an optional string field of a log entry.
pub open spec fn field_opt_text(s: Option<&str>) -> Option<Seq<char>> {
    match s {
        Some(t) => Some(t@),
        None => None,
    }
}

/// A status number of a log entry narrowed to 16 bits, as `as u16` does.
pub open spec fn field_status(status: Option<u64>) -> Option<u16> {
    match status {
        Some(n) => Some(n as u16),
        None => None,
    }
}

/// `s` is the summary of a log entry with these fields.
pub open spec fn is_summary_of_fields(
    s: TransactionSummary,
    id: Option<&str>,
    timestamp: Option<&str>,
    method: Option<&str>,
    status: Option<u64>,
    latency_ms: Option<u64>,
) -> bool {
    &&& s.id@ == field_text(id)
    &&& s.timestamp@ == field_text(timestamp)
    &&& opt_text(s.method) == field_opt_text(method)
    &&& s.status == field_status(status)
    &&& s.latency_ms == latency_ms
}

impl TransactionSummary {
    /// The summary of a logged transaction from the fields the log holds:
    /// a missing id or timestamp reads as empty, and the status number is
    /// narrowed to 16 bits as an `as u16` conversion does.
    pub fn from_log_fields(
        id: Option<&str>,
        timestamp: Option<&str>,
        method: Option<&str>,
        status: Option<u64>,
        latency_ms: Option<u64>,
    ) -> (r: TransactionSummary)
        ensures
            is_summary_of_fields(r, id, timestamp, method, status, latency_ms),
    {
        TransactionSummary {
            id: match id {
                Some(s) => String::from_str(s),
                None => String::new(),
            },
            timestamp: match timestamp {
                Some(s) => String::from_str(s),
                None => String::new(),
            },
            method: match method {
                Some(s) => Some(String::from_str(s)),
                None => None,
            },
            status: match status {
                Some(n) => Some(n as u16),
                None => None,
            },
            latency_ms,
        }
    }
}

/// The card pushed to the dashboard when a transaction is logged, made from
/// the fields of its log entry: the card that the list shows for the summary
/// of that entry.
pub fn new_tx_card(
    id: Option<&str>,
    timestamp: Option<&str>,
    method: Option<&str>,
    status: Option<u64>,
    latency_ms: Option<u64>,
) -> (r: TxCard)
    ensures
        is_card_for(
            r,
            field_text(id),
            field_text(timestamp),
            field_opt_text(method),
            field_status(status),
            latency_ms,
        ),
{
    let summary = TransactionSummary::from_log_fields(id, timestamp, method, status, latency_ms);
    tx_card(&summary)
}

/// A transaction announced as it is logged gets the same card as it gets in
/// the list, where the list summarises the same log entry.
pub proof fn announced_card_is_listed_card(
    announced: TxCard,
    listed: TxCard,
    s: TransactionSummary,
    id: Option<&str>,
    timestamp: Option<&str>,
    method: Option<&str>,
    status: Option<u64>,
    latency_ms: Option<u64>,
)
    requires
        is_card_for(
            announced,
            field_text(id),
            field_text(timestamp),
            field_opt_text(method),
            field_status(status),
            latency_ms,
        ),
        is_summary_of_fields(s, id, timestamp, method, status, latency_ms),
        is_card_of(listed, s),
    ensures
        announced.id@ == listed.id@,
        announced.time@ == listed.time@,
        announced.method@ == listed.method@,
        announced.status_text@ == listed.status_text@,
        announced.status_class@ == listed.status_class@,
        announced.latency_text@ == listed.latency_text@,
        announced.response_url@ == listed.response_url@,
        announced.request_url@ == listed.request_url@,
{
}

/// A card shows the success class exactly when its transaction has a 2xx
/// status.
pub proof fn card_marks_success_exactly_for_2xx(c: TxCard, s: TransactionSummary)
    requires
        is_card_of(c, s),
    ensures
        c.status_class@ == "status-ok"@ <==> (s.status matches Some(n) && 200 <= n <= 299),
{
    ok_class_exactly_for_success(s.status);
}

impl DetailSection {
    /// The section a query asks for: `request` asks for the request, anything
    /// else, or nothing, for the response.
    pub open spec fn from_param_spec(param: Option<Seq<char>>) -> DetailSection {
        match param {
            Some(p) => if p == "request"@ {
                DetailSection::Request
            } else {
                DetailSection::Response
            },
            None => DetailSection::Response,
        }
    }

    /// The section that a `section` query value asks for.
    pub fn from_param(param: Option<&str>) -> (r: DetailSection)
        ensures
            r == Self::from_param_spec(
                match param {
                    Some(p) => Some(p@),
                    None => None,
                },
            ),
    {
        match param {
            Some(p) => if str_eq(p, "request") {
                DetailSection::Request
            } else {
                DetailSection::Response
            },
            None => DetailSection::Response,
        }
    }
}

impl DetailParams {
    /// The section these query parameters ask for.
    pub fn section(&self) -> (r: DetailSection)
        ensures
            r == DetailSection::from_param_spec(
                match self.section {
                    Some(p) => Some(p@),
                    None => None,
                },
            ),
    {
        match &self.section {
            Some(s) => DetailSection::from_param(Some(s.as_str())),
            None => DetailSection::from_param(None),
        }
    }
}

/// What the detail pane of a transaction offers besides the body: the
/// download button's label, and the script that fetches the markdown file.
pub struct DetailView {
    pub download_url: String,
    pub file_name: String,
    pub button_label: String,
    pub download_script: String,
    pub copy_script: String,
}

/// A timestamp made safe for a file name: `:` and `.` become `-`.
pub open spec fn file_safe(ts: Seq<char>) -> Seq<char> {
    ts.map_values(|c: char| if c == ':' || c == '.' { '-' } else { c })
}

/// The endpoint, file name prefix and button label of a section.
pub open spec fn section_endpoint(section: DetailSection) -> Seq<char> {
    match section {
        DetailSection::Response => "response"@,
        DetailSection::Request => "conversation"@,
    }
}

/// The label of the download button of a section.
pub open spec fn section_button(section: DetailSection) -> Seq<char> {
    match section {
        DetailSection::Response => "⬇ Response.md"@,
        DetailSection::Request => "⬇ Conversation.md"@,
    }
}

/// The hyperscript that downloads `url` as the file `name`.
pub open spec fn download_script_spec(url: Seq<char>, name: Seq<char>) -> Seq<char> {
    "on click\n  set link to document.createElement('a') then\n  set link.href to '"@ + url
        + "' then\n  set link.download to '"@ + name
        + "' then\n  call document.body.appendChild(link) then\n  call link.click() then\n  call document.body.removeChild(link)"@
}

/// The detail pane of a transaction with id `id` (empty when missing) logged
/// at `timestamp` (`unknown` when missing): the markdown download of the
/// section at `/api/transactions/<id>/<endpoint>`, saved as
/// `<endpoint>_<safe timestamp>.md`.
pub open spec fn is_detail_view(
    v: DetailView,
    id: Seq<char>,
    timestamp: Seq<char>,
    section: DetailSection,
) -> bool {
    let url = "/api/transactions/"@ + id + seq!['/'] + section_endpoint(section);
    let name = section_endpoint(section) + seq!['_'] + file_safe(timestamp) + ".md"@;
    &&& v.download_url@ == url
    &&& v.file_name@ == name
    &&& v.button_label@ == section_button(section)
    &&& v.download_script@ == download_script_spec(url, name)
    &&& v.copy_script@ == "on click call navigator.clipboard.writeText(my.textContent)"@
}

fn push_file_safe(s: &mut String, ts: &str)
    ensures
        final(s)@ == old(s)@ + file_safe(ts@),
{
    let v = to_chars(ts);
    let ghost start = s@;
    let mut i: usize = 0;
    while i < v.len()
        invariant
            0 <= i <= v@.len(),
            s@ == start + file_safe(v@.take(i as int)),
        decreases v@.len() - i,
    {
        let c = v[i];
        if c == ':' || c == '.' {
            push_char(s, '-');
        } else {
            push_char(s, c);
        }
        assert(file_safe(v@.take(i + 1)) =~= file_safe(v@.take(i as int)).push(
            if c == ':' || c == '.' {
                '-'
            } else {
                c
            },
        ));
        i = i + 1;
    }
    assert(v@.take(v@.len() as int) =~= v@);
}

/// The detail pane's download and copy actions for a transaction.
pub fn detail_view(id: Option<&str>, timestamp: Option<&str>, section: DetailSection) -> (r:
    DetailView)
    ensures
        is_detail_view(
            r,
            match id {
                Some(s) => s@,
                None => Seq::empty(),
            },
            match timestamp {
                Some(s) => s@,
                None => "unknown"@,
            },
            section,
        ),
{
    let id_text: &str = match id {
        Some(s) => s,
        None => "",
    };
    proof {
        reveal_strlit("");
        assert(""@ =~= Seq::<char>::empty());
    }
    assert(id_text@ == match id {
        Some(s) => s@,
        None => Seq::<char>::empty(),
    });
    let ts: &str = match timestamp {
        Some(s) => s,
        None => "unknown",
    };
    let endpoint: &str = match section {
        DetailSection::Response => "response",
        DetailSection::Request => "conversation",
    };
    let label: &str = match section {
        DetailSection::Response => "⬇ Response.md",
        DetailSection::Request => "⬇ Conversation.md",
    };
    let mut name = String::from_str(endpoint);
    push_char(&mut name, '_');
    push_file_safe(&mut name, ts);
    push_str(&mut name, ".md");
    let mut url = String::from_str("/api/transactions/");
    push_str(&mut url, id_text);
    push_char(&mut url, '/');
    push_str(&mut url, endpoint);
    let mut script = String::from_str(
        "on click\n  set link to document.createElement('a') then\n  set link.href to '",
    );
    push_str(&mut script, url.as_str());
    push_str(&mut script, "' then\n  set link.download to '");
    push_str(&mut script, name.as_str());
    push_str(
        &mut script,
        "' then\n  call document.body.appendChild(link) then\n  call link.click() then\n  call document.body.removeChild(link)",
    );
    assert(url@ == "/api/transactions/"@ + id_text@ + seq!['/'] + section_endpoint(section));
    assert(name@ == section_endpoint(section) + seq!['_'] + file_safe(ts@) + ".md"@);
    assert(label@ == section_button(section));
    DetailView {
        download_url: url,
        file_name: name,
        button_label: String::from_str(label),
        download_script: script,
        copy_script: String::from_str("on click call navigator.clipboard.writeText(my.textContent)"),
    }
}

/// The label the stats pane gives a window: the known windows by their
/// long names, any other value as it is.
pub open spec fn stats_window_label_spec(window: Seq<char>) -> Seq<char> {
    if window == "1m"@ {
        "1 minute"@
    } else if window == "5m"@ {
        "5 minutes"@
    } else if window == "15m"@ {
        "15 minutes"@
    } else if window == "1h"@ {
        "1 hour"@
    } else if window == "6h"@ {
        "6 hours"@
    } else if window == "12h"@ {
        "12 hours"@
    } else if window == "24h"@ {
        "24 hours"@
    } else {
        window
    }
}

/// The label of a stats window.
pub fn stats_window_label(window: &str) -> (r: String)
    ensures
        r@ == stats_window_label_spec(window@),
{
    if str_eq(window, "1m") {
        String::from_str("1 minute")
    } else if str_eq(window, "5m") {
        String::from_str("5 minutes")
    } else if str_eq(window, "15m") {
        String::from_str("15 minutes")
    } else if str_eq(window, "1h") {
        String::from_str("1 hour")
    } else if str_eq(window, "6h") {
        String::from_str("6 hours")
    } else if str_eq(window, "12h") {
        String::from_str("12 hours")
    } else if str_eq(window, "24h") {
        String::from_str("24 hours")
    } else {
        String::from_str(window)
    }
}

/// The texts of the stats pane that do not depend on the numbers.
pub struct StatsLabels {
    pub refresh_url: String,
    pub requests_label: String,
    pub cost_label: String,
}

/// The stats pane's texts for window `window`: it refreshes itself from
/// `/fragments/stats?window=<window>`, and labels the request count and cost
/// with the window's label.
pub fn stats_labels(window: &str) -> (r: StatsLabels)
    ensures
        r.refresh_url@ == "/fragments/stats?window="@ + window@,
        r.requests_label@ == "Requests ("@ + stats_window_label_spec(window@) + ")"@,
        r.cost_label@ == "Cost ("@ + stats_window_label_spec(window@) + ")"@,
{
    let label = stats_window_label(window);
    let mut refresh_url = String::from_str("/fragments/stats?window=");
    push_str(&mut refresh_url, window);
    let mut requests_label = String::from_str("Requests (");
    push_str(&mut requests_label, label.as_str());
    push_str(&mut requests_label, ")");
    let mut cost_label = String::from_str("Cost (");
    push_str(&mut cost_label, label.as_str());
    push_str(&mut cost_label, ")");
    StatsLabels { refresh_url, requests_label, cost_label }
}

/// In the list, the transaction at index `a` comes before the one at `b`:
/// a later timestamp first, and of equal timestamps the one found first.
pub open spec fn listed_before(ts: Seq<String>, a: int, b: int) -> bool {
    lex_lt(ts[b]@, ts[a]@) || (ts[a]@ == ts[b]@ && a < b)
}

/// `order` lists every index of `ts` once, newest first, as a stable sort
/// by descending timestamp does.
pub open spec fn is_newest_first(ts: Seq<String>, order: Seq<usize>) -> bool {
    &&& order.len() == ts.len()
    &&& forall|i: int| 0 <= i < order.len() ==> (#[trigger] order[i]) < ts.len()
    &&& order.no_duplicates()
    &&& forall|i: int, j: int|
        0 <= i < j < order.len() ==> listed_before(ts, #[trigger] order[i] as int, #[trigger] order[j] as int)
}

/// The order in which transactions are listed: by timestamp, newest first,
/// keeping the order in which they were found among equal timestamps.
pub fn newest_first_order(timestamps: &Vec<String>) -> (r: Vec<usize>)
    ensures
        is_newest_first(timestamps@, r@),
{
    let n = timestamps.len();
    let mut keys: Vec<Vec<char>> = Vec::new();
    let mut i: usize = 0;
    while i < n
        invariant
            n == timestamps@.len(),
            0 <= i <= n,
            keys@.len() == i,
            forall|j: int| 0 <= j < i ==> (#[trigger] keys@[j])@ == timestamps@[j]@,
        decreases n - i,
    {
        keys.push(to_chars(timestamps[i].as_str()));
        i = i + 1;
    }
    let ghost ts = timestamps@;
    let mut order: Vec<usize> = Vec::new();
    let mut k: usize = 0;
    while k < n
        invariant
            n == ts.len(),
            keys@.len() == n,
            forall|j: int| 0 <= j < n ==> (#[trigger] keys@[j])@ == ts[j]@,
            0 <= k <= n,
            order@.len() == k,
            forall|i: int| 0 <= i < order@.len() ==> (#[trigger] order@[i]) < k,
            order@.no_duplicates(),
            forall|i: int, j: int|
                0 <= i < j < order@.len() ==> listed_before(ts, #[trigger] order@[i] as int, #[trigger] order@[j] as int),
        decreases n - k,
    {
        let mut p: usize = 0;
        while p < order.len() && !lex_less(&keys[order[p]], &keys[k])
            invariant
                n == ts.len(),
                keys@.len() == n,
                forall|j: int| 0 <= j < n ==> (#[trigger] keys@[j])@ == ts[j]@,
                0 <= k < n,
                forall|i: int| 0 <= i < order@.len() ==> (#[trigger] order@[i]) < k,
                0 <= p <= order@.len(),
                forall|q: int| 0 <= q < p ==> !lex_lt(ts[#[trigger] order@[q] as int]@, ts[k as int]@),
            decreases order@.len() - p,
        {
            p = p + 1;
        }
        let ghost before = order@;
        proof {
            assert forall|q: int| p <= q < before.len() implies lex_lt(
                ts[#[trigger] before[q] as int]@,
                ts[k as int]@,
            ) by {
                assert(lex_lt(ts[before[p as int] as int]@, ts[k as int]@));
                if q > p {
                    assert(listed_before(ts, before[p as int] as int, before[q] as int));
                    if lex_lt(ts[before[q] as int]@, ts[before[p as int] as int]@) {
                        lemma_lex_transitive(
                            ts[before[q] as int]@,
                            ts[before[p as int] as int]@,
                            ts[k as int]@,
                        );
                    }
                }
            }
        }
        order.insert(p, k);
        proof {
            let after = order@;
            assert(after == before.insert(p as int, k));
            assert forall|i: int| 0 <= i < after.len() implies (#[trigger] after[i]) < k + 1 by {
                if i < p {
                    assert(after[i] == before[i]);
                } else if i > p {
                    assert(after[i] == before[i - 1]);
                }
            }
            assert(after.no_duplicates()) by {
                assert forall|a: int, b: int|
                    0 <= a < after.len() && 0 <= b < after.len() && a != b implies after[a]
                    != after[b] by {
                    if a != p && b != p {
                        let ai = if a < p { a } else { a - 1 };
                        let bi = if b < p { b } else { b - 1 };
                        assert(after[a] == before[ai]);
                        assert(after[b] == before[bi]);
                    } else if a == p {
                        let bi = if b < p { b } else { b - 1 };
                        assert(after[b] == before[bi]);
                    } else {
                        let ai = if a < p { a } else { a - 1 };
                        assert(after[a] == before[ai]);
                    }
                }
            }
            assert forall|i: int, j: int| 0 <= i < j < after.len() implies listed_before(
                ts,
                #[trigger] after[i] as int,
                #[trigger] after[j] as int,
            ) by {
                if i != p && j != p {
                    let ai = if i < p { i } else { i - 1 };
                    let bj = if j < p { j } else { j - 1 };
                    assert(after[i] == before[ai]);
                    assert(after[j] == before[bj]);
                    assert(ai < bj);
                } else if i == p {
                    assert(after[j] == before[j - 1]);
                    assert(lex_lt(ts[before[j - 1] as int]@, ts[k as int]@));
                } else {
                    assert(after[i] == before[i]);
                    assert(!lex_lt(ts[before[i] as int]@, ts[k as int]@));
                    lemma_lex_total(ts[before[i] as int]@, ts[k as int]@);
                }
            }
        }
        k = k + 1;
    }
    order
}

/// For every window value the dashboard knows, the stats pane labels it
/// with the window's own label.
pub proof fn stats_label_is_window_label(window: Seq<char>)
    requires
        TimeWindow::parse_spec(window) is Some,
    ensures
        stats_window_label_spec(window) == TimeWindow::parse_spec(window)->0.label_spec(),
{
}

} // verus!
