//! Error pages of the proxy: HTML templates filled with escaped values, a plain-text
//! variant for `?format=plain`, and recent log lines of the failing service.

use vstd::prelude::*;
use crate::interpolation::{replace_all, replace_all_chars};
use crate::log_level::LogLevel;
use crate::observability::LogLine;
use crate::text::{chars_of, decimal, occurs_at, str_eq, string_of, u64_decimal};

verus! {

/// Base of the shortcut links on error pages.
pub const SHORTCUT_BASE: &'static str = "https://adi.the-ihor.com/sc";

/// The shortcut link called `name`.
pub fn shortcut_url(name: &str) -> (r: String)
    ensures
        r@ == SHORTCUT_BASE@ + "/"@ + name@,
{
    let mut s = SHORTCUT_BASE.to_owned();
    s.append("/");
    s.append(name);
    s
}

/// The query asks for plain text: one of its `&`-separated parameters is `format=plain`.
pub open spec fn plain_requested(q: Seq<char>) -> bool {
    exists|i: int|
        #![trigger occurs_at(q, i, "format=plain"@)]
        occurs_at(q, i, "format=plain"@) && (i == 0 || q[i - 1] == '&') && (i + 12 == q.len() || q[i + 12]
            == '&')
}

/// Whether the query string asks for plain text.
pub fn is_plain_format(query: Option<&str>) -> (r: bool)
    ensures
        r == (query is Some && plain_requested(query.unwrap()@)),
{
    match query {
        None => false,
        Some(q) => {
            let s = chars_of(q);
            let pat = chars_of("format=plain");
            proof {
                reveal_strlit("format=plain");
            }
            assert(pat@.len() == 12);
            let mut i: usize = 0;
            while i < s.len()
                invariant
                    query == Some(q),
                    s@ == q@,
                    pat@ == "format=plain"@,
                    pat@.len() == 12,
                    i <= s@.len(),
                    forall|j: int|
                        #![trigger occurs_at(q@, j, "format=plain"@)]
                        0 <= j < i ==> !(occurs_at(q@, j, "format=plain"@) && (j == 0 || q@[j - 1] == '&') && (
                        j + 12 == q@.len() || q@[j + 12] == '&')),
                decreases s.len() - i,
            {
                if (i == 0 || s[i - 1] == '&') && crate::text::chars_occur_at(&s, i, &pat) && (i + 12
                    == s.len() || s[i + 12] == '&') {
                    assert(occurs_at(q@, i as int, "format=plain"@));
                    assert(i == 0 || q@[i - 1] == '&');
                    assert(i + 12 == q@.len() || q@[i + 12] == '&');
                    assert(plain_requested(q@));
                    return true;
                }
                i = i + 1;
            }
            proof {
                assert forall|j: int| #![trigger occurs_at(q@, j, "format=plain"@)] occurs_at(q@, j, "format=plain"@) implies j < i by {}
            }
            false
        },
    }
}

/// What a character becomes in HTML text: `&`, `<`, `>`, `"` and `'` as entities.
pub open spec fn escape_char(c: char) -> Seq<char> {
    if c == '&' {
        seq!['&', 'a', 'm', 'p', ';']
    } else if c == '<' {
        seq!['&', 'l', 't', ';']
    } else if c == '>' {
        seq!['&', 'g', 't', ';']
    } else if c == '"' {
        seq!['&', 'q', 'u', 'o', 't', ';']
    } else if c == '\'' {
        seq!['&', '#', '3', '9', ';']
    } else {
        seq![c]
    }
}

/// `s` with each character escaped for HTML text.
pub open spec fn escaped(s: Seq<char>) -> Seq<char>
    decreases s.len(),
{
    if s.len() == 0 {
        Seq::empty()
    } else {
        escaped(s.drop_last()) + escape_char(s.last())
    }
}

/// `s` escaped for HTML text.
pub fn html_escape(s: &str) -> (r: String)
    ensures
        r@ == escaped(s@),
{
    let v = chars_of(s);
    let mut out: Vec<char> = Vec::new();
    let mut i: usize = 0;
    while i < v.len()
        invariant
            i <= v@.len(),
            v@ == s@,
            out@ == escaped(v@.take(i as int)),
        decreases v.len() - i,
    {
        let c = v[i];
        assert(v@.take(i + 1).drop_last() =~= v@.take(i as int));
        let ghost before = out@;
        if c == '&' {
            out.push('&');
            out.push('a');
            out.push('m');
            out.push('p');
            out.push(';');
        } else if c == '<' {
            out.push('&');
            out.push('l');
            out.push('t');
            out.push(';');
        } else if c == '>' {
            out.push('&');
            out.push('g');
            out.push('t');
            out.push(';');
        } else if c == '"' {
            out.push('&');
            out.push('q');
            out.push('u');
            out.push('o');
            out.push('t');
            out.push(';');
        } else if c == '\'' {
            out.push('&');
            out.push('#');
            out.push('3');
            out.push('9');
            out.push(';');
        } else {
            out.push(c);
        }
        assert(out@ =~= before + escape_char(c));
        i = i + 1;
    }
    assert(v@.take(v@.len() as int) =~= v@);
    string_of(&out)
}

/// The placeholder of a template variable: `{{key}}`.
pub open spec fn placeholder(key: Seq<char>) -> Seq<char> {
    "{{"@ + key + "}}"@
}

/// The template after filling the first `n` variables in order: each `{{key}}` replaced
/// by the value, escaped unless the key is among `raw_keys`.
pub open spec fn rendered_upto(template: Seq<char>, vars: Seq<(Seq<char>, Seq<char>)>, raw_keys: Seq<Seq<char>>, n: nat) -> Seq<char>
    decreases n,
{
    if n == 0 || n > vars.len() {
        template
    } else {
        let (key, value) = vars[n - 1];
        replace_all(
            rendered_upto(template, vars, raw_keys, (n - 1) as nat),
            placeholder(key),
            if raw_keys.contains(key) { value } else { escaped(value) },
        )
    }
}

/// The variables as plain text.
pub open spec fn vars_view(vars: Seq<(&str, String)>) -> Seq<(Seq<char>, Seq<char>)> {
    vars.map_values(|e: (&str, String)| (e.0@, e.1@))
}

/// The texts of a list of string slices.
pub open spec fn strs_view(v: Seq<&str>) -> Seq<Seq<char>> {
    v.map_values(|s: &str| s@)
}

/// Fills a template: every `{{key}}` of each variable in turn becomes its value, HTML-escaped
/// unless the key is listed in `raw_keys`.
pub fn render(template: &str, vars: &[(&str, String)], raw_keys: &[&str]) -> (r: String)
    ensures
        r@ == rendered_upto(template@, vars_view(vars@), strs_view(raw_keys@), vars@.len()),
{
    let mut result = chars_of(template);
    let mut i: usize = 0;
    while i < vars.len()
        invariant
            i <= vars@.len(),
            result@ == rendered_upto(template@, vars_view(vars@), strs_view(raw_keys@), i as nat),
        decreases vars.len() - i,
    {
        let key = vars[i].0;
        let mut ph = "{{".to_owned();
        ph.append(key);
        ph.append("}}");
        proof {
            reveal_strlit("{{");
        }
        let mut raw = false;
        let mut k: usize = 0;
        while k < raw_keys.len()
            invariant
                k <= raw_keys@.len(),
                raw <==> exists|j: int| 0 <= j < k && (#[trigger] raw_keys@[j])@ == key@,
            decreases raw_keys.len() - k,
        {
            if str_eq(raw_keys[k], key) {
                raw = true;
            }
            k = k + 1;
        }
        proof {
            let rv = strs_view(raw_keys@);
            if raw {
                let j = choose|j: int| 0 <= j < raw_keys@.len() && (#[trigger] raw_keys@[j])@ == key@;
                assert(rv[j] == key@);
            }
            if rv.contains(key@) {
                let j = choose|j: int| 0 <= j < rv.len() && rv[j] == key@;
                assert(raw_keys@[j]@ == key@);
            }
        }
        let value = if raw { vars[i].1.clone() } else { html_escape(vars[i].1.as_str()) };
        let pc = chars_of(ph.as_str());
        let vc = chars_of(value.as_str());
        result = replace_all_chars(&result, &pc, &vc);
        assert(vars_view(vars@)[i as int] == (key@, vars@[i as int].1@));
        i = i + 1;
    }
    string_of(&result)
}

// ---------------------------------------------------------------------------
// Recent log lines
// ---------------------------------------------------------------------------

/// The second of the (UTC) day at which a time in microseconds since the epoch falls.
pub open spec fn second_of_day(micros: int) -> int {
    (micros / 1_000_000) % 86400
}

/// The digit character of a value below ten.
pub open spec fn digit_char(d: int) -> char {
    (d + '0' as int) as char
}

/// A value below one hundred as two digits.
pub open spec fn two_digits(n: int) -> Seq<char> {
    seq![digit_char(n / 10), digit_char(n % 10)]
}

/// `HH:MM:SS`, the UTC time of day of a time in microseconds since the epoch.
pub open spec fn clock_text(micros: int) -> Seq<char> {
    let t = second_of_day(micros);
    two_digits(t / 3600) + seq![':'] + two_digits((t % 3600) / 60) + seq![':'] + two_digits(t % 60)
}

fn push_two_digits(out: &mut Vec<char>, n: u64)
    requires
        n < 100,
    ensures
        final(out)@ == old(out)@ + two_digits(n as int),
{
    out.push(digit_of((n / 10) as u8));
    out.push(digit_of((n % 10) as u8));
    assert(final(out)@ =~= old(out)@ + two_digits(n as int));
}

fn digit_of(d: u8) -> (c: char)
    requires
        d < 10,
    ensures
        c == digit_char(d as int),
{
    match d {
        0 => '0',
        1 => '1',
        2 => '2',
        3 => '3',
        4 => '4',
        5 => '5',
        6 => '6',
        7 => '7',
        8 => '8',
        _ => '9',
    }
}

/// The second of the day of a time in microseconds since the epoch.
fn second_of_day_of(micros: i64) -> (r: u64)
    ensures
        r == second_of_day(micros as int),
        r < 86400,
{
    if micros >= 0 {
        let m = micros as u64;
        let secs = m / 1_000_000;
        secs % 86400
    } else {
        let a: u64 = (-(micros + 1)) as u64;
        let q = a / 1_000_000;
        let qm = q % 86400;
        proof {
            let rr = a % 1_000_000;
            vstd::arithmetic::div_mod::lemma_fundamental_div_mod(a as int, 1_000_000);
            vstd::arithmetic::div_mod::lemma_fundamental_div_mod_converse(
                micros as int,
                1_000_000,
                -(q as int) - 1,
                999_999 - rr,
            );
            vstd::arithmetic::div_mod::lemma_fundamental_div_mod(q as int, 86400);
            let k = q as int / 86400;
            vstd::arithmetic::div_mod::lemma_fundamental_div_mod_converse(
                -(q as int) - 1,
                86400,
                -k - 1,
                86399 - qm,
            );
        }
        86399 - qm
    }
}

/// `HH:MM:SS` of a time in microseconds since the epoch.
fn clock_of(micros: i64) -> (r: Vec<char>)
    ensures
        r@ == clock_text(micros as int),
{
    let t = second_of_day_of(micros);
    let mut out: Vec<char> = Vec::new();
    push_two_digits(&mut out, t / 3600);
    out.push(':');
    push_two_digits(&mut out, (t % 3600) / 60);
    out.push(':');
    push_two_digits(&mut out, t % 60);
    assert(out@ =~= clock_text(micros as int));
    out
}

/// The uppercase name of a level.
pub open spec fn level_upper(l: LogLevel) -> Seq<char> {
    match l {
        LogLevel::Trace => "TRACE"@,
        LogLevel::Debug => "DEBUG"@,
        LogLevel::Info => "INFO"@,
        LogLevel::Notice => "NOTICE"@,
        LogLevel::Warn => "WARN"@,
        LogLevel::Error => "ERROR"@,
        LogLevel::Fatal => "FATAL"@,
    }
}

fn level_upper_of(l: LogLevel) -> (r: &'static str)
    ensures
        r@ == level_upper(l),
{
    match l {
        LogLevel::Trace => "TRACE",
        LogLevel::Debug => "DEBUG",
        LogLevel::Info => "INFO",
        LogLevel::Notice => "NOTICE",
        LogLevel::Warn => "WARN",
        LogLevel::Error => "ERROR",
        LogLevel::Fatal => "FATAL",
    }
}

/// The CSS class of a level: errors, warnings, information, and the rest.
pub open spec fn level_class(l: LogLevel) -> Seq<char> {
    match l {
        LogLevel::Error | LogLevel::Fatal => "log-error"@,
        LogLevel::Warn | LogLevel::Notice => "log-warn"@,
        LogLevel::Info => "log-info"@,
        _ => "log-debug"@,
    }
}

/// The opening of the logs section of an HTML page.
pub open spec fn logs_html_head() -> Seq<char> {
    "<div class=\"spacer\"></div><div class=\"logs-section\"><div class=\"logs-title\">--- recent logs ---</div><div class=\"logs\">"@
}

/// One log line in HTML: `<div class="log-line CLASS">HH:MM:SS [LEVEL] message</div>`, the
/// message escaped.
pub open spec fn log_line_html(l: LogLine) -> Seq<char> {
    "<div class=\"log-line "@ + level_class(l.level) + "\">"@ + clock_text(l.timestamp as int) + " ["@
        + level_upper(l.level) + "] "@ + escaped(l.message@) + "</div>"@
}

/// The HTML of the first `n` lines.
pub open spec fn lines_html(logs: Seq<LogLine>, n: nat) -> Seq<char>
    decreases n,
{
    if n == 0 || n > logs.len() {
        Seq::empty()
    } else {
        lines_html(logs, (n - 1) as nat) + log_line_html(logs[n - 1])
    }
}

/// The logs section of an HTML error page (empty without lines).
pub open spec fn logs_html(logs: Seq<LogLine>) -> Seq<char> {
    if logs.len() == 0 {
        Seq::empty()
    } else {
        logs_html_head() + lines_html(logs, logs.len()) + "</div></div>"@
    }
}

/// The log lines as an HTML section.
pub fn format_logs(logs: &[LogLine]) -> (r: String)
    ensures
        r@ == logs_html(logs@),
{
    if logs.len() == 0 {
        return String::new();
    }
    let mut html = "<div class=\"spacer\"></div><div class=\"logs-section\"><div class=\"logs-title\">--- recent logs ---</div><div class=\"logs\">".to_owned();
    let mut i: usize = 0;
    while i < logs.len()
        invariant
            i <= logs@.len(),
            html@ == logs_html_head() + lines_html(logs@, i as nat),
        decreases logs.len() - i,
    {
        let line = &logs[i];
        let class = match line.level {
            LogLevel::Error | LogLevel::Fatal => "log-error",
            LogLevel::Warn | LogLevel::Notice => "log-warn",
            LogLevel::Info => "log-info",
            _ => "log-debug",
        };
        let ghost before = html@;
        html.append("<div class=\"log-line ");
        html.append(class);
        html.append("\">");
        html.append(string_of(&clock_of(line.timestamp)).as_str());
        html.append(" [");
        html.append(level_upper_of(line.level));
        html.append("] ");
        html.append(html_escape(line.message.as_str()).as_str());
        html.append("</div>");
        assert(html@ =~= before + log_line_html(logs@[i as int]));
        i = i + 1;
    }
    html.append("</div></div>");
    html
}

/// One log line in plain text: `HH:MM:SS [LEVEL] message` and a line break.
pub open spec fn log_line_plain(l: LogLine) -> Seq<char> {
    clock_text(l.timestamp as int) + " ["@ + level_upper(l.level) + "] "@ + l.message@ + "\n"@
}

/// The plain text of the first `n` lines.
pub open spec fn lines_plain(logs: Seq<LogLine>, n: nat) -> Seq<char>
    decreases n,
{
    if n == 0 || n > logs.len() {
        Seq::empty()
    } else {
        lines_plain(logs, (n - 1) as nat) + log_line_plain(logs[n - 1])
    }
}

/// The logs section of a plain-text error page (empty without lines).
pub open spec fn logs_plain(logs: Seq<LogLine>) -> Seq<char> {
    if logs.len() == 0 {
        Seq::empty()
    } else {
        "\n--- recent logs ---\n"@ + lines_plain(logs, logs.len())
    }
}

/// The log lines as plain text.
pub fn format_logs_plain(logs: &[LogLine]) -> (r: String)
    ensures
        r@ == logs_plain(logs@),
{
    if logs.len() == 0 {
        return String::new();
    }
    let mut text = "\n--- recent logs ---\n".to_owned();
    let mut i: usize = 0;
    while i < logs.len()
        invariant
            i <= logs@.len(),
            text@ == "\n--- recent logs ---\n"@ + lines_plain(logs@, i as nat),
        decreases logs.len() - i,
    {
        let line = &logs[i];
        let ghost before = text@;
        text.append(string_of(&clock_of(line.timestamp)).as_str());
        text.append(" [");
        text.append(level_upper_of(line.level));
        text.append("] ");
        text.append(line.message.as_str());
        text.append("\n");
        assert(text@ =~= before + log_line_plain(logs@[i as int]));
        i = i + 1;
    }
    text
}

fn push_strs(s: &mut String, parts: &[&str])
    ensures
        final(s)@ == old(s)@ + strs_concat(strs_view(parts@)),
{
    let mut i: usize = 0;
    let ghost start = s@;
    while i < parts.len()
        invariant
            i <= parts@.len(),
            s@ == start + strs_concat(strs_view(parts@).take(i as int)),
        decreases parts@.len() - i,
    {
        let ghost t = strs_view(parts@).take(i + 1);
        assert(t.drop_last() =~= strs_view(parts@).take(i as int));
        s.append(parts[i]);
        i = i + 1;
    }
    assert(strs_view(parts@).take(parts@.len() as int) =~= strs_view(parts@));
}

/// The texts joined together.
pub open spec fn strs_concat(v: Seq<Seq<char>>) -> Seq<char>
    decreases v.len(),
{
    if v.len() == 0 {
        Seq::empty()
    } else {
        strs_concat(v.drop_last()) + v.last()
    }
}

/// A plain-text error page: its heading (`<LEVEL> <code> <reason>`), the message, the
/// request's path and host, and the hive version and time.
pub open spec fn plain_page(head: Seq<char>, message: Seq<char>, path: Seq<char>, host: Seq<char>, version: Seq<char>, stamp: Seq<char>) -> Seq<char> {
    head + "\n\n"@ + message + "\n\npath      "@ + path + "\nhost      "@ + host + "\n\nhive "@ + version + " | "@
        + stamp + "\n"@
}

/// The plain-text page of a request that matched no route (`WARN 404 Not Found`).
pub fn not_found_text(message: &str, path: &str, host: &str, version: &str, stamp: &str) -> (r: String)
    ensures
        r@ == plain_page("WARN 404 Not Found"@, message@, path@, host@, version@, stamp@),
{
    let mut r = String::new();
    push_strs(&mut r, &["WARN 404 Not Found", "\n\n", message, "\n\npath      ", path, "\nhost      ", host, "\n\nhive ", version, " | ", stamp, "\n"]);
    proof {
        reveal_with_fuel(strs_concat, 13);
    }
    assert(r@ =~= plain_page("WARN 404 Not Found"@, message@, path@, host@, version@, stamp@));
    r
}

/// The plain-text page of a malformed request (`ERROR 400 Bad Request`).
pub fn bad_request_text(message: &str, path: &str, host: &str, version: &str, stamp: &str) -> (r: String)
    ensures
        r@ == plain_page("ERROR 400 Bad Request"@, message@, path@, host@, version@, stamp@),
{
    let mut r = String::new();
    push_strs(&mut r, &["ERROR 400 Bad Request", "\n\n", message, "\n\npath      ", path, "\nhost      ", host, "\n\nhive ", version, " | ", stamp, "\n"]);
    proof {
        reveal_with_fuel(strs_concat, 13);
    }
    assert(r@ =~= plain_page("ERROR 400 Bad Request"@, message@, path@, host@, version@, stamp@));
    r
}

/// The plain-text page of a service that could not be reached (`ERROR 502 Bad Gateway`):
/// the message, the service, path and host, its recent log lines if any, and the hive
/// version and time.
pub open spec fn gateway_page(message: Seq<char>, path: Seq<char>, host: Seq<char>, service: Seq<char>, logs: Seq<char>, version: Seq<char>, stamp: Seq<char>) -> Seq<char> {
    "ERROR 502 Bad Gateway\n\n"@ + message + "\n\nservice   "@ + service + "\npath      "@ + path + "\nhost      "@
        + host + "\n"@ + logs + "\nhive "@ + version + " | "@ + stamp + "\n"@
}

/// The plain-text page of a service that could not be reached (see `gateway_page`).
pub fn bad_gateway_text(message: &str, path: &str, host: &str, service_name: &str, logs: Option<&[LogLine]>, version: &str, stamp: &str) -> (r: String)
    ensures
        r@ == gateway_page(message@, path@, host@, service_name@, match logs {
            Some(l) => logs_plain(l@),
            None => Seq::empty(),
        }, version@, stamp@),
{
    let logs_text = match logs {
        Some(l) => format_logs_plain(l),
        None => String::new(),
    };
    let mut r = String::new();
    push_strs(&mut r, &["ERROR 502 Bad Gateway\n\n", message, "\n\nservice   ", service_name, "\npath      ", path, "\nhost      ", host, "\n", logs_text.as_str(), "\nhive ", version, " | ", stamp, "\n"]);
    proof {
        reveal_with_fuel(strs_concat, 16);
    }
    assert(r@ =~= gateway_page(message@, path@, host@, service_name@, logs_text@, version@, stamp@));
    r
}

/// The values an HTML error page is filled with: the message, the request's path and
/// host, the hive version, the time, and the shortcut links for the status code.
pub fn error_vars(message: &str, path: &str, host: &str, code: u16, version: &str, stamp: &str) -> (r: Vec<(&'static str, String)>)
    ensures
        vars_view(r@) == seq![
            ("message"@, message@),
            ("request_path"@, path@),
            ("host"@, host@),
            ("version"@, version@),
            ("timestamp"@, stamp@),
            ("link_llm"@, SHORTCUT_BASE@ + "/"@ + ("hive-error-"@ + decimal(code as nat) + "-llm"@)),
            ("link_user"@, SHORTCUT_BASE@ + "/"@ + ("hive-error-"@ + decimal(code as nat))),
        ],
{
    let digits = string_of(&u64_decimal(code as u64));
    let mut llm = "hive-error-".to_owned();
    llm.append(digits.as_str());
    let mut user = llm.clone();
    llm.append("-llm");
    let mut r: Vec<(&'static str, String)> = Vec::new();
    r.push(("message", message.to_owned()));
    r.push(("request_path", path.to_owned()));
    r.push(("host", host.to_owned()));
    r.push(("version", version.to_owned()));
    r.push(("timestamp", stamp.to_owned()));
    r.push(("link_llm", shortcut_url(llm.as_str())));
    r.push(("link_user", shortcut_url(user.as_str())));
    assert(vars_view(r@) =~= seq![
        ("message"@, message@),
        ("request_path"@, path@),
        ("host"@, host@),
        ("version"@, version@),
        ("timestamp"@, stamp@),
        ("link_llm"@, SHORTCUT_BASE@ + "/"@ + ("hive-error-"@ + decimal(code as nat) + "-llm"@)),
        ("link_user"@, SHORTCUT_BASE@ + "/"@ + ("hive-error-"@ + decimal(code as nat))),
    ]);
    r
}

} // verus!
