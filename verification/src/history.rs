use vstd::prelude::*;
use crate::ports::ScriptRunOutput;
use crate::strutil::{
    append_chars, chars_to_string, spec_dec_pad, spec_join, spec_lower_char, spec_starts_with,
    spec_trim, spec_trim_back, spec_trim_char, str_to_chars, subrange_vec, trim_back_chars,
    trim_chars, u64_to_dec_pad, trim_char_chars, spec_dec_int, i64_to_dec, u64_to_dec,
    spec_dec_nat, starts_with_chars,
};
use crate::workspace::Workspace;

verus! {

/// One execution record: what ran, with which arguments, and what came
/// of it. Immutable once created.
#[derive(Debug, Clone)]
pub struct HistoryEntry {
    pub timestamp: i64,
    pub script: String,
    pub args: Vec<String>,
    pub success: bool,
    pub exit_code: Option<i32>,
    pub stdout: String,
    pub stderr: String,
    pub error: Option<String>,
}

/// Relies on `std::time::SystemTime::now` and `duration_since` against
/// the epoch: the clock's milliseconds since 1970, 0 if the clock reads
/// earlier than the epoch. The value depends on the clock, so nothing is
/// promised of it.
#[verifier::external_body]
pub fn timestamp_ms() -> i64 {
    let duration = std::time::SystemTime::now().duration_since(
        std::time::UNIX_EPOCH,
    ).unwrap_or_default();
    duration.as_millis() as i64
}

/// The script path made workspace-relative: the root prefix (with its
/// separator) removed where present.
pub open spec fn spec_script_rel(root: Seq<char>, script: Seq<char>) -> Seq<char> {
    if script == root {
        Seq::empty()
    } else if spec_starts_with(script, root + seq!['/']) {
        script.subrange(root.len() as int + 1, script.len() as int)
    } else {
        script
    }
}

pub fn script_path(workspace: &Workspace, script: &str) -> (r: String)
    ensures
        r@ == spec_script_rel(workspace.root@, script@),
{
    let cs = str_to_chars(script);
    let root = str_to_chars(workspace.root().as_str());
    if crate::strutil::chars_eq(&cs, &root) {
        return String::new();
    }
    let mut rootsep = root;
    rootsep.push('/');
    proof {
        assert(rootsep@ =~= workspace.root@ + seq!['/']);
    }
    if crate::strutil::starts_with_chars(&cs, &rootsep) {
        let rel = subrange_vec(&cs, rootsep.len(), cs.len());
        chars_to_string(&rel)
    } else {
        chars_to_string(&cs)
    }
}

/// A record for a run that was launched: carries the runner's output.
pub fn success_entry(
    workspace: &Workspace,
    script: &str,
    args: &Vec<String>,
    output: ScriptRunOutput,
) -> (r: HistoryEntry)
    ensures
        r.script@ == spec_script_rel(workspace.root@, script@),
        r.args@ == args@,
        r.success == output.success,
        r.exit_code == output.exit_code,
        r.stdout == output.stdout,
        r.stderr == output.stderr,
        r.error is None,
{
    HistoryEntry {
        timestamp: timestamp_ms(),
        script: script_path(workspace, script),
        args: crate::strutil::clone_strings(args),
        success: output.success,
        exit_code: output.exit_code,
        stdout: output.stdout,
        stderr: output.stderr,
        error: None,
    }
}

/// A record for a run that failed to launch: carries the error message.
pub fn error_entry(
    workspace: &Workspace,
    script: &str,
    args: &Vec<String>,
    message: String,
) -> (r: HistoryEntry)
    ensures
        r.script@ == spec_script_rel(workspace.root@, script@),
        r.args@ == args@,
        r.success == false,
        r.exit_code is None,
        r.stdout@ == Seq::<char>::empty(),
        r.stderr@ == Seq::<char>::empty(),
        r.error == Some(message),
{
    HistoryEntry {
        timestamp: timestamp_ms(),
        script: script_path(workspace, script),
        args: crate::strutil::clone_strings(args),
        success: false,
        exit_code: None,
        stdout: String::new(),
        stderr: String::new(),
        error: Some(message),
    }
}

/// What the history screen shows of a record: its error message when the
/// launch failed, else the trimmed stdout and stderr under their labels.
pub open spec fn spec_format_output(e: &HistoryEntry) -> Seq<char> {
    match e.error {
        Some(err) => spec_trim(err@),
        None => {
            let parts = (if spec_trim(e.stdout@).len() > 0 {
                seq!["STDOUT:\n"@ + spec_trim_back(e.stdout@)]
            } else {
                Seq::empty()
            }) + (if spec_trim(e.stderr@).len() > 0 {
                seq!["STDERR:\n"@ + spec_trim_back(e.stderr@)]
            } else {
                Seq::empty()
            });
            spec_join(parts, "\n\n"@)
        },
    }
}

pub fn format_output(entry: &HistoryEntry) -> (r: String)
    ensures
        r@ == spec_format_output(entry),
{
    if let Some(err) = &entry.error {
        let t = trim_chars(&str_to_chars(err.as_str()));
        return chars_to_string(&t);
    }
    let mut parts: Vec<Vec<char>> = Vec::new();
    let so = str_to_chars(entry.stdout.as_str());
    if trim_chars(&so).len() > 0 {
        let mut part = str_to_chars("STDOUT:\n");
        append_chars(&mut part, &trim_back_chars(&so));
        parts.push(part);
    }
    let se = str_to_chars(entry.stderr.as_str());
    if trim_chars(&se).len() > 0 {
        let mut part = str_to_chars("STDERR:\n");
        append_chars(&mut part, &trim_back_chars(&se));
        parts.push(part);
    }
    let sep = str_to_chars("\n\n");
    let joined = crate::strutil::join_chars(&parts, &sep);
    proof {
        let sparts = (if spec_trim(entry.stdout@).len() > 0 {
            seq!["STDOUT:\n"@ + spec_trim_back(entry.stdout@)]
        } else {
            Seq::<Seq<char>>::empty()
        }) + (if spec_trim(entry.stderr@).len() > 0 {
            seq!["STDERR:\n"@ + spec_trim_back(entry.stderr@)]
        } else {
            Seq::<Seq<char>>::empty()
        });
        assert(parts.deep_view() =~~= sparts);
    }
    chars_to_string(&joined)
}

/// The civil-calendar transform: year, month and day for a count of days
/// since the epoch, era- and century-aware.
pub open spec fn spec_civil_from_days(days: int) -> (int, int, int) {
    let z = days + 719468;
    let era = z / 146097;
    let doe = z % 146097;
    let yoe_num = doe - doe / 1460 + doe / 36524 - doe / 146096;
    let yoe = yoe_num / 365;
    let y = yoe + era * 400;
    let ystart = 365 * yoe + yoe / 4 - yoe / 100;
    let doy = if ystart <= doe {
        doe - ystart
    } else {
        0
    };
    let mp = (5 * doy + 2) / 153;
    let mstart = (153 * mp + 2) / 5;
    let day = (if mstart <= doy {
        doy - mstart
    } else {
        0
    }) + 1;
    let month = if mp < 10 {
        mp + 3
    } else {
        mp - 9
    };
    let year = if month <= 2 {
        y + 1
    } else {
        y
    };
    (year, month, day)
}

/// Days since the epoch to a civil date.
pub fn civil_from_days(days: i64) -> (r: (i64, i64, i64))
    requires
        0 <= days <= 200_000_000_000,
    ensures
        (r.0 as int, r.1 as int, r.2 as int) == spec_civil_from_days(days as int),
{
    let z: u64 = (days as u64) + 719468;
    let era: u64 = z / 146097;
    let doe: u64 = z % 146097;
    assert(doe < 146097);
    let yoe_num: u64 = doe - doe / 1460 + doe / 36524 - doe / 146096;
    assert(yoe_num == (doe as int) - (doe as int) / 1460 + (doe as int) / 36524 - (doe as int)
        / 146096);
    let yoe: u64 = yoe_num / 365;
    assert(yoe <= 400);
    let y: u64 = yoe + era * 400;
    let ystart: u64 = 365 * yoe + yoe / 4 - yoe / 100;
    let doy: u64 = if ystart <= doe {
        doe - ystart
    } else {
        0
    };
    assert(doy <= 146096);
    let mp: u64 = (5 * doy + 2) / 153;
    assert(mp <= (5 * 146096 + 2) / 153);
    let mstart: u64 = (153 * mp + 2) / 5;
    let day: u64 = (if mstart <= doy {
        doy - mstart
    } else {
        0
    }) + 1;
    let month: u64 = if mp < 10 {
        mp + 3
    } else {
        mp - 9
    };
    let year: u64 = if month <= 2 {
        y + 1
    } else {
        y
    };
    (year as i64, month as i64, day as i64)
}

/// The rendering of a timestamp in epoch milliseconds as
/// `YYYY-MM-DD HH:MM`; negative timestamps render as the epoch.
pub open spec fn spec_format_timestamp(ts: int) -> Seq<char> {
    let ms = if ts < 0 {
        0
    } else {
        ts
    };
    let seconds = ms / 1000;
    let days = seconds / 86400;
    let sod = seconds % 86400;
    let hour = sod / 3600;
    let minute = (sod % 3600) / 60;
    let ymd = spec_civil_from_days(days);
    spec_dec_pad(ymd.0 as nat, 4) + seq!['-'] + spec_dec_pad(ymd.1 as nat, 2) + seq!['-']
        + spec_dec_pad(ymd.2 as nat, 2) + seq![' '] + spec_dec_pad(hour as nat, 2) + seq![':']
        + spec_dec_pad(minute as nat, 2)
}

pub fn format_timestamp(timestamp_ms: i64) -> (r: String)
    ensures
        r@ == spec_format_timestamp(timestamp_ms as int),
{
    let ms: i64 = if timestamp_ms < 0 {
        0
    } else {
        timestamp_ms
    };
    let msu: u64 = ms as u64;
    let seconds: u64 = msu / 1000;
    let days: u64 = seconds / 86400;
    let sod: u64 = seconds % 86400;
    let hour: u64 = sod / 3600;
    let minute: u64 = (sod % 3600) / 60;
    assert(days <= 200_000_000_000) by {
        assert(seconds <= u64::MAX / 1000);
    };
    let (year, month, day) = civil_from_days(days as i64);
    assert(year >= 0 && month >= 0 && day >= 0);
    let mut out = u64_to_dec_pad(year as u64, 4);
    out.push('-');
    append_chars(&mut out, &u64_to_dec_pad(month as u64, 2));
    out.push('-');
    append_chars(&mut out, &u64_to_dec_pad(day as u64, 2));
    out.push(' ');
    append_chars(&mut out, &u64_to_dec_pad(hour, 2));
    out.push(':');
    append_chars(&mut out, &u64_to_dec_pad(minute, 2));
    proof {
        assert(out@ =~= spec_format_timestamp(timestamp_ms as int));
    }
    chars_to_string(&out)
}

} // verus!

verus! {

pub open spec fn spec_is_alnum(c: char) -> bool {
    ('0' <= c <= '9') || ('a' <= c <= 'z') || ('A' <= c <= 'Z')
}

/// The raw slug: alphanumerics lowercased, every run of other characters
/// collapsed to one underscore. `prev` says whether an underscore was
/// just written.
pub open spec fn spec_slug_raw(s: Seq<char>, prev: bool) -> Seq<char>
    decreases s.len(),
{
    if s.len() == 0 {
        Seq::empty()
    } else if spec_is_alnum(s[0]) {
        seq![spec_lower_char(s[0])] + spec_slug_raw(s.drop_first(), false)
    } else if !prev {
        seq!['_'] + spec_slug_raw(s.drop_first(), true)
    } else {
        spec_slug_raw(s.drop_first(), true)
    }
}

/// The file-name slug of a script path: lowercased alphanumerics with
/// collapsed separators, edge underscores trimmed, capped at 64
/// characters, "run" if nothing remains.
pub open spec fn spec_safe_slug(s: Seq<char>) -> Seq<char> {
    let t = spec_trim_char(spec_slug_raw(s, false), '_');
    if t.len() == 0 {
        "run"@
    } else if t.len() > 64 {
        t.take(64)
    } else {
        t
    }
}

pub fn safe_slug(input: &str) -> (r: String)
    ensures
        r@ == spec_safe_slug(input@),
{
    let cs = str_to_chars(input);
    let n = cs.len();
    let mut out: Vec<char> = Vec::new();
    let mut prev = false;
    let mut i: usize = 0;
    proof {
        assert(input@.skip(0) =~= input@);
    }
    while i < n
        invariant
            n == cs@.len(),
            cs@ == input@,
            i <= n,
            spec_slug_raw(input@, false) == out@ + spec_slug_raw(input@.skip(i as int), prev),
        decreases n - i,
    {
        let c = cs[i];
        proof {
            assert(input@.skip(i as int)[0] == input@[i as int]);
            assert(input@.skip(i as int).drop_first() =~= input@.skip(i + 1));
        }
        if ('0' <= c && c <= '9') || ('a' <= c && c <= 'z') || ('A' <= c && c <= 'Z') {
            out.push(crate::strutil::lower_char(c));
            prev = false;
        } else if !prev {
            out.push('_');
            prev = true;
        }
        proof {
            assert(spec_slug_raw(input@, false) =~= out@ + spec_slug_raw(
                input@.skip(i + 1),
                prev,
            ));
        }
        i = i + 1;
    }
    proof {
        assert(input@.skip(n as int) =~= Seq::<char>::empty());
        assert(out@ =~= spec_slug_raw(input@, false));
    }
    let mut t = trim_char_chars(&out, '_');
    if t.len() == 0 {
        return String::from_str("run");
    }
    if t.len() > 64 {
        t.truncate(64);
        proof {
            assert(t@ =~= spec_safe_slug(input@));
        }
    }
    chars_to_string(&t)
}

/// The record file name for an entry: timestamp, process id and script
/// slug, dash-separated, with a `.json` extension.
pub open spec fn spec_history_file_name(e: &HistoryEntry, pid: int) -> Seq<char> {
    spec_dec_int(e.timestamp as int) + seq!['-'] + spec_dec_nat(pid as nat) + seq!['-']
        + spec_safe_slug(e.script@) + ".json"@
}

pub fn history_file_name(entry: &HistoryEntry, pid: u64) -> (r: String)
    ensures
        r@ == spec_history_file_name(entry, pid as int),
{
    let mut out = i64_to_dec(entry.timestamp);
    out.push('-');
    append_chars(&mut out, &u64_to_dec(pid));
    out.push('-');
    append_chars(&mut out, &str_to_chars(safe_slug(entry.script.as_str()).as_str()));
    append_chars(&mut out, &str_to_chars(".json"));
    proof {
        assert(out@ =~= spec_history_file_name(entry, pid as int));
    }
    chars_to_string(&out)
}

} // verus!

verus! {

/// The hexadecimal digit character for a value below 16.
pub open spec fn spec_hex_digit(d: int) -> char {
    if d < 10 {
        (('0' as u32) + d as u32) as char
    } else {
        (('a' as u32) + (d - 10) as u32) as char
    }
}

/// One character as the record file writes it: quotes and backslashes
/// escaped, control characters as four-digit escapes, everything else
/// itself.
pub open spec fn spec_escape_out(c: char) -> Seq<char> {
    if c == '"' {
        seq!['\\', '"']
    } else if c == '\\' {
        seq!['\\', '\\']
    } else if (c as u32) < 0x20 {
        seq!['\\', 'u', '0', '0', spec_hex_digit(((c as u32) / 16) as int), spec_hex_digit(
            ((c as u32) % 16) as int,
        )]
    } else {
        seq![c]
    }
}

/// A string value as the record file writes it, quotes included.
pub open spec fn spec_json_str_body(v: Seq<char>) -> Seq<char>
    decreases v.len(),
{
    if v.len() == 0 {
        Seq::empty()
    } else {
        spec_escape_out(v[0]) + spec_json_str_body(v.drop_first())
    }
}

pub open spec fn spec_json_str(v: Seq<char>) -> Seq<char> {
    seq!['"'] + spec_json_str_body(v) + seq!['"']
}

/// Write one string value, quotes included.
pub fn print_json_string(v: &Vec<char>) -> (r: Vec<char>)
    ensures
        r@ == spec_json_str(v@),
{
    let mut out: Vec<char> = Vec::new();
    out.push('"');
    let n = v.len();
    let mut i: usize = 0;
    proof {
        assert(v@.skip(0) =~= v@);
    }
    while i < n
        invariant
            n == v@.len(),
            i <= n,
            spec_json_str_body(v@) == out@.skip(1) + spec_json_str_body(v@.skip(i as int)),
            out@.len() >= 1 && out@[0] == '"',
        decreases n - i,
    {
        let c = v[i];
        proof {
            assert(v@.skip(i as int)[0] == v@[i as int]);
            assert(v@.skip(i as int).drop_first() =~= v@.skip(i + 1));
        }
        let ghost pre = out@;
        if c == '"' {
            out.push('\\');
            out.push('"');
        } else if c == '\\' {
            out.push('\\');
            out.push('\\');
        } else if (c as u32) < 0x20 {
            out.push('\\');
            out.push('u');
            out.push('0');
            out.push('0');
            let hi = (c as u32) / 16;
            let lo = (c as u32) % 16;
            let hic: char = if hi < 10 {
                (('0' as u32) + hi) as u8 as char
            } else {
                (('a' as u32) + (hi - 10)) as u8 as char
            };
            let loc: char = if lo < 10 {
                (('0' as u32) + lo) as u8 as char
            } else {
                (('a' as u32) + (lo - 10)) as u8 as char
            };
            out.push(hic);
            out.push(loc);
        } else {
            out.push(c);
        }
        proof {
            assert(out@.skip(1) =~= pre.skip(1) + spec_escape_out(v@[i as int]));
            assert(spec_json_str_body(v@) =~= out@.skip(1) + spec_json_str_body(v@.skip(i + 1)));
        }
        i = i + 1;
    }
    out.push('"');
    proof {
        assert(v@.skip(n as int) =~= Seq::<char>::empty());
        assert(out@ =~= seq!['"'] + spec_json_str_body(v@) + seq!['"']);
    }
    out
}

/// The arguments as the record file writes them.
pub open spec fn spec_json_args(args: Seq<Seq<char>>) -> Seq<char>
    decreases args.len(),
{
    if args.len() == 0 {
        Seq::empty()
    } else if args.len() == 1 {
        spec_json_str(args[0])
    } else {
        spec_json_str(args[0]) + seq![','] + spec_json_args(args.drop_first())
    }
}

/// The whole record as its file holds it: one JSON object with the
/// run's fields in a fixed order, absent outcomes as null.
pub open spec fn spec_encode_entry(e: &HistoryEntry) -> Seq<char> {
    "{\"timestamp\":"@ + crate::strutil::spec_dec_int(e.timestamp as int) + ",\"script\":"@
        + spec_json_str(e.script@) + ",\"args\":["@ + spec_json_args(e.args.deep_view()) + "],\"success\":"@
        + (if e.success {
        "true"@
    } else {
        "false"@
    }) + ",\"exit_code\":"@ + (match e.exit_code {
        Some(c) => crate::strutil::spec_dec_int(c as int),
        None => "null"@,
    }) + ",\"stdout\":"@ + spec_json_str(e.stdout@) + ",\"stderr\":"@ + spec_json_str(e.stderr@)
        + ",\"error\":"@ + (match &e.error {
        Some(m) => spec_json_str(m@),
        None => "null"@,
    }) + "}"@
}

/// Write one record as the text its file holds.
pub fn encode_history_entry(entry: &HistoryEntry) -> (r: String)
    ensures
        r@ == spec_encode_entry(entry),
{
    let mut out = str_to_chars("{\"timestamp\":");
    append_chars(&mut out, &i64_to_dec(entry.timestamp));
    append_chars(&mut out, &str_to_chars(",\"script\":"));
    append_chars(&mut out, &print_json_string(&str_to_chars(entry.script.as_str())));
    append_chars(&mut out, &str_to_chars(",\"args\":["));
    let n = entry.args.len();
    let mut i: usize = 0;
    let ghost argsv = entry.args.deep_view();
    let ghost head = out@;
    proof {
        assert(argsv.skip(0) =~= argsv);
        assert(out@.skip(head.len() as int) =~= Seq::<char>::empty());
        assert(out@.subrange(0, head.len() as int) =~= head);
    }
    while i < n
        invariant
            n == entry.args@.len(),
            argsv == entry.args.deep_view(),
            i <= n,
            spec_json_args(argsv) == out@.skip(head.len() as int) + spec_json_args(argsv.skip(i as int)),
            out@.len() >= head.len() && out@.subrange(0, head.len() as int) == head,
        decreases n - i,
    {
        let ghost pre = out@;
        proof {
            assert(argsv.skip(i as int)[0] == argsv[i as int]);
            assert(argsv.skip(i as int).drop_first() =~= argsv.skip(i + 1));
            assert(entry.args.deep_view()[i as int] == entry.args@[i as int]@);
        }
        append_chars(&mut out, &print_json_string(&str_to_chars(entry.args[i].as_str())));
        if i + 1 < n {
            out.push(',');
        }
        proof {
            if i + 1 < n {
                assert(spec_json_args(argsv.skip(i as int)) == spec_json_str(argsv[i as int]) + seq![','] + spec_json_args(argsv.skip(i + 1)));
            } else {
                assert(argsv.skip(i as int).len() == 1);
                assert(spec_json_args(argsv.skip(i as int)) == spec_json_str(argsv[i as int]));
                assert(argsv.skip(i + 1) =~= Seq::<Seq<char>>::empty());
            }
            assert(out@.skip(head.len() as int) =~= pre.skip(head.len() as int) + (out@.skip(pre.len() as int)));
            assert(spec_json_args(argsv) =~= out@.skip(head.len() as int) + spec_json_args(argsv.skip(i + 1)));
            assert(out@.subrange(0, head.len() as int) =~= head);
        }
        i = i + 1;
    }
    proof {
        assert(argsv.skip(n as int) =~= Seq::<Seq<char>>::empty());
        assert(out@ =~= head + spec_json_args(argsv));
    }
    append_chars(&mut out, &str_to_chars("],\"success\":"));
    if entry.success {
        append_chars(&mut out, &str_to_chars("true"));
    } else {
        append_chars(&mut out, &str_to_chars("false"));
    }
    append_chars(&mut out, &str_to_chars(",\"exit_code\":"));
    match entry.exit_code {
        Some(c) => {
            append_chars(&mut out, &i64_to_dec(c as i64));
        },
        None => {
            append_chars(&mut out, &str_to_chars("null"));
        },
    }
    append_chars(&mut out, &str_to_chars(",\"stdout\":"));
    append_chars(&mut out, &print_json_string(&str_to_chars(entry.stdout.as_str())));
    append_chars(&mut out, &str_to_chars(",\"stderr\":"));
    append_chars(&mut out, &print_json_string(&str_to_chars(entry.stderr.as_str())));
    append_chars(&mut out, &str_to_chars(",\"error\":"));
    match &entry.error {
        Some(m) => {
            append_chars(&mut out, &print_json_string(&str_to_chars(m.as_str())));
        },
        None => {
            append_chars(&mut out, &str_to_chars("null"));
        },
    }
    append_chars(&mut out, &str_to_chars("}"));
    proof {
        assert(out@ =~= spec_encode_entry(entry));
    }
    chars_to_string(&out)
}

} // verus!

verus! {

/// The records that load back from a set of file texts, in file order:
/// unreadable ones are skipped.
pub open spec fn spec_loaded(texts: Seq<Seq<char>>) -> Seq<crate::codec::EntryV>
    decreases texts.len(),
{
    if texts.len() == 0 {
        Seq::empty()
    } else {
        let rest = spec_loaded(texts.drop_first());
        match crate::codec::spec_parse_entry(texts[0]) {
            Some(e) => seq![e] + rest,
            None => rest,
        }
    }
}

pub open spec fn entries_v(es: Seq<HistoryEntry>) -> Seq<crate::codec::EntryV> {
    es.map_values(|e: HistoryEntry| crate::codec::entry_v(&e))
}

pub open spec fn spec_sorted_desc(es: Seq<HistoryEntry>) -> bool {
    forall|i: int, j: int| 0 <= i < j < es.len() ==> es[i].timestamp >= es[j].timestamp
}

/// Load every readable record from the given file texts, newest first:
/// a single unreadable record never hides the rest.
#[verifier::rlimit(100)]
pub fn load_entries_from(files: &Vec<String>) -> (r: Vec<HistoryEntry>)
    ensures
        entries_v(r@).to_multiset() == spec_loaded(files.deep_view()).to_multiset(),
        spec_sorted_desc(r@),
{
    broadcast use vstd::seq_lib::group_to_multiset_ensures;

    let n = files.len();
    let mut picked: Vec<HistoryEntry> = Vec::new();
    let mut i: usize = 0;
    proof {
        assert(files.deep_view().skip(0) =~~= files.deep_view());
    }
    while i < n
        invariant
            n == files@.len(),
            i <= n,
            spec_loaded(files.deep_view()) == entries_v(picked@) + spec_loaded(files.deep_view().skip(i as int)),
        decreases n - i,
    {
        let ghost prev = entries_v(picked@);
        proof {
            assert(files.deep_view()[i as int] == files@[i as int]@);
            assert(files.deep_view().skip(i as int)[0] == files.deep_view()[i as int]);
            assert(files.deep_view().skip(i as int).drop_first() =~~= files.deep_view().skip(i + 1));
        }
        if let Some(e) = crate::codec::parse_history_entry(files[i].as_str()) {
            let ghost ev = crate::codec::entry_v(&e);
            picked.push(e);
            proof {
                assert(entries_v(picked@) =~~= prev.push(ev));
            }
        }
        proof {
            assert(spec_loaded(files.deep_view()) =~~= entries_v(picked@) + spec_loaded(files.deep_view().skip(i + 1)));
        }
        i = i + 1;
    }
    proof {
        assert(files.deep_view().skip(n as int) =~~= Seq::<Seq<char>>::empty());
        assert(entries_v(picked@) =~~= spec_loaded(files.deep_view()));
    }
    let ghost target = spec_loaded(files.deep_view());
    let mut rem = picked;
    let mut out: Vec<HistoryEntry> = Vec::new();
    while rem.len() > 0
        invariant
            entries_v(out@).to_multiset().add(entries_v(rem@).to_multiset()) == target.to_multiset(),
            spec_sorted_desc(out@),
            forall|a: int, k: int|
                #![trigger out@[a], rem@[k]]
                0 <= a < out@.len() && 0 <= k < rem@.len() ==> out@[a].timestamp >= rem@[k].timestamp,
        decreases rem@.len(),
    {
        let n2 = rem.len();
        let mut m: usize = 0;
        let mut k: usize = 1;
        while k < n2
            invariant
                n2 == rem@.len(),
                m < n2,
                k <= n2,
                forall|t: int| 0 <= t < k ==> rem@[m as int].timestamp >= #[trigger] rem@[t].timestamp,
            decreases n2 - k,
        {
            if rem[k].timestamp > rem[m].timestamp {
                m = k;
            }
            k = k + 1;
        }
        let ghost old_out = out@;
        let ghost old_rem = rem@;
        let x = rem.remove(m);
        out.push(x);
        proof {
            broadcast use vstd::seq_lib::group_to_multiset_ensures;

            let f = |e: HistoryEntry| crate::codec::entry_v(&e);
            assert(entries_v(out@) =~~= entries_v(old_out).push(crate::codec::entry_v(&x)));
            assert(entries_v(rem@) =~~= entries_v(old_rem).remove(m as int));
            assert(entries_v(old_out).push(crate::codec::entry_v(&x)).to_multiset() =~= entries_v(old_out).to_multiset().insert(crate::codec::entry_v(&x)));
            assert(entries_v(old_rem).contains(crate::codec::entry_v(&x))) by {
                assert(entries_v(old_rem)[m as int] == crate::codec::entry_v(&x));
            }
            assert(entries_v(old_rem).to_multiset().count(crate::codec::entry_v(&x)) > 0);
            assert(entries_v(old_rem).remove(m as int).to_multiset() =~= entries_v(old_rem).to_multiset().remove(crate::codec::entry_v(&x)));
            assert(entries_v(out@).to_multiset().add(entries_v(rem@).to_multiset()) =~= target.to_multiset());
            assert(spec_sorted_desc(out@)) by {
                assert(forall|q: int| 0 <= q < old_out.len() ==> out@[q] == old_out[q]);
                assert(out@[out@.len() - 1] == old_rem[m as int]);
            }
            assert forall|a: int, kk: int|
                #![trigger out@[a], rem@[kk]]
                0 <= a < out@.len() && 0 <= kk < rem@.len() implies out@[a].timestamp >= rem@[kk].timestamp by {
                let orig_kk = if kk < m { kk } else { kk + 1 };
                assert(rem@[kk] == old_rem[orig_kk]);
                if a < out@.len() - 1 {
                    assert(out@[a].timestamp >= old_rem[orig_kk].timestamp);
                } else {
                    assert(out@[a] == old_rem[m as int]);
                }
            }
        }
    }
    proof {
        broadcast use vstd::seq_lib::group_to_multiset_ensures;

        assert(entries_v(rem@).to_multiset().len() == 0);
        assert(entries_v(out@).to_multiset() =~= target.to_multiset());
    }
    out
}

} // verus!

verus! {

/// Reading a written string body back: whatever characters a record
/// file's string value holds, the escapes the writer produced decode to
/// the same characters, and the reader stops at the closing quote.
pub proof fn lemma_string_round_trip(v: Seq<char>, s: Seq<char>, i: int, rest: Seq<char>)
    requires
        0 <= i <= s.len(),
        s.skip(i) == spec_json_str_body(v) + seq!['"'] + rest,
    ensures
        crate::json::spec_str_body(s, i) == Some((v, i + spec_json_str_body(v).len() + 1)),
    decreases v.len(),
{
    let body = spec_json_str_body(v);
    assert forall|k: int| 0 <= k < s.skip(i).len() implies #[trigger] s.skip(i)[k] == s[i + k] by {
    }
    if v.len() == 0 {
        assert(s[i] == '"') by {
            assert(s.skip(i)[0] == s[i]);
        }
    } else {
        let c = v[0];
        let e = spec_escape_out(c);
        let tailbody = spec_json_str_body(v.drop_first());
        assert(body =~= e + tailbody);
        assert(e.len() >= 1);
        assert(s.skip(i).len() == body.len() + 1 + rest.len());
        assert forall|k: int| 0 <= k < e.len() implies s[i + k] == e[k] by {
            assert(s.skip(i)[k] == s[i + k]);
            assert((body + seq!['"'] + rest)[k] == body[k]);
        }
        assert forall|k: int| 0 <= k < s.skip(i + e.len()).len() implies #[trigger] s.skip(
            i + e.len() as int,
        )[k] == (tailbody + seq!['"'] + rest)[k] by {
            assert(s.skip(i + e.len() as int)[k] == s[i + e.len() + k]);
            assert(s.skip(i)[e.len() + k] == s[i + e.len() + k]);
            assert((body + seq!['"'] + rest)[e.len() + k] == (tailbody + seq!['"'] + rest)[k]);
        }
        assert(s.skip(i + e.len() as int) =~= tailbody + seq!['"'] + rest);
        lemma_string_round_trip(v.drop_first(), s, i + e.len(), rest);
        if c == '"' {
            assert(s[i] == '\\' && s[i + 1] == '"');
            assert(crate::json::spec_escape_char(s[i + 1]) == Some('"'));
            assert(crate::json::spec_str_body(s, i) == Some((seq!['"'] + v.drop_first(), i + 2 + tailbody.len() + 1)));
            assert(seq!['"'] + v.drop_first() =~= v);
        } else if c == '\\' {
            assert(s[i] == '\\' && s[i + 1] == '\\');
            assert(s[i + 1] != 'u');
            assert(crate::json::spec_escape_char(s[i + 1]) == Some('\\'));
            assert(seq!['\\'] + v.drop_first() =~= v);
        } else if (c as u32) < 0x20 {
            let hi = ((c as u32) / 16) as int;
            let lo = ((c as u32) % 16) as int;
            assert(s[i] == '\\' && s[i + 1] == 'u' && s[i + 2] == '0' && s[i + 3] == '0');
            assert(s[i + 4] == spec_hex_digit(hi) && s[i + 5] == spec_hex_digit(lo));
            assert(crate::json::spec_hex_val('0') == Some(0u32));
            assert(crate::json::spec_hex_val(spec_hex_digit(hi)) == Some(hi as u32)) by {
                if hi < 10 {
                    assert(spec_hex_digit(hi) == (('0' as u32) + hi as u32) as char);
                } else {
                    assert(spec_hex_digit(hi) == (('a' as u32) + (hi - 10) as u32) as char);
                }
            }
            assert(crate::json::spec_hex_val(spec_hex_digit(lo)) == Some(lo as u32)) by {
                if lo < 10 {
                    assert(spec_hex_digit(lo) == (('0' as u32) + lo as u32) as char);
                } else {
                    assert(spec_hex_digit(lo) == (('a' as u32) + (lo - 10) as u32) as char);
                }
            }
            assert(i + 2 + 4 <= s.len()) by {
                assert(s.skip(i).len() == body.len() + 1 + rest.len());
            }
            assert(crate::json::spec_hex4(s, i + 2) == Some((0 * 4096 + 0 * 256 + hi * 16 + lo) as u32));
            let u = (hi * 16 + lo) as u32;
            assert(u == c as u32);
            assert(u < 0x20);
            vstd::utf8::char_u32_cast(c, u);
            assert((u as char) == c);
            assert(seq![c] + v.drop_first() =~= v);
        } else {
            assert(e[0] == c);
            assert(s[i + 0] == e[0]);
            assert(s[i] == c);
            assert(c != '"' && c != '\\' && (c as u32) >= 0x20);
            assert(seq![c] + v.drop_first() =~= v);
        }
    }
}

} // verus!

verus! {

/// Ten to the `k`.
pub open spec fn spec_pow10(k: nat) -> int
    decreases k,
{
    if k == 0 {
        1
    } else {
        10 * spec_pow10((k - 1) as nat)
    }
}

proof fn lemma_dec_nat_digits(n: nat)
    ensures
        crate::strutil::spec_dec_nat(n).len() >= 1,
        forall|k: int| 0 <= k < crate::strutil::spec_dec_nat(n).len() ==> '0' <= #[trigger] crate::strutil::spec_dec_nat(n)[k] <= '9',
        n >= 1 ==> crate::strutil::spec_dec_nat(n)[0] != '0',
        n == 0 ==> crate::strutil::spec_dec_nat(n) == seq!['0'],
    decreases n,
{
    let d = crate::strutil::spec_dec_nat(n);
    if n < 10 {
        assert(d =~= seq![crate::strutil::spec_digit(n as int)]);
    } else {
        lemma_dec_nat_digits(n / 10);
        let p = crate::strutil::spec_dec_nat(n / 10);
        assert(d == p.push(crate::strutil::spec_digit((n % 10) as int)));
        assert(d[0] == p[0]);
        assert(forall|k: int| 0 <= k < p.len() ==> d[k] == p[k]);
    }
}

proof fn lemma_dec_len_bound(n: nat, k: nat)
    requires
        k >= 1,
        n < spec_pow10(k),
    ensures
        crate::strutil::spec_dec_nat(n).len() <= k,
    decreases n,
{
    if n < 10 {
    } else {
        assert(spec_pow10(k) == 10 * spec_pow10((k - 1) as nat));
        assert(k >= 2) by {
            if k == 1 {
                assert(spec_pow10(1nat) == 10);
            }
        }
        assert(n / 10 < spec_pow10((k - 1) as nat));
        lemma_dec_len_bound(n / 10, (k - 1) as nat);
    }
}

proof fn lemma_digits_end_char(s: Seq<char>, i: int, e: int)
    requires
        0 <= i <= e <= s.len(),
        forall|k: int| i <= k < e ==> '0' <= #[trigger] s[k] <= '9',
        e == s.len() || !('0' <= s[e] <= '9'),
    ensures
        crate::json::digits_end(s, i) == e,
    decreases e - i,
{
    if i < e {
        lemma_digits_end_char(s, i + 1, e);
    }
}

proof fn lemma_digits_val_of_dec(n: nat, s: Seq<char>, i: int)
    requires
        0 <= i,
        i + crate::strutil::spec_dec_nat(n).len() <= s.len(),
        forall|k: int| 0 <= k < crate::strutil::spec_dec_nat(n).len() ==> #[trigger] s[i + k] == crate::strutil::spec_dec_nat(n)[k],
    ensures
        crate::codec::spec_digits_val(s, i, i + crate::strutil::spec_dec_nat(n).len()) == n,
    decreases n,
{
    let d = crate::strutil::spec_dec_nat(n);
    if n < 10 {
        assert(s[i + 0] == d[0]);
        assert(d[0] == crate::strutil::spec_digit(n as int));
        reveal_with_fuel(crate::codec::spec_digits_val, 3);
        assert(crate::codec::spec_digits_val(s, i, i + 1) == crate::codec::spec_digits_val(s, i, i) * 10 + ((s[i] as u32) - ('0' as u32)));
    } else {
        let p = crate::strutil::spec_dec_nat(n / 10);
        assert(d == p.push(crate::strutil::spec_digit((n % 10) as int)));
        assert(forall|k: int| 0 <= k < p.len() ==> #[trigger] s[i + k] == p[k]) by {
            assert(forall|k: int| 0 <= k < p.len() ==> d[k] == p[k]);
        }
        lemma_digits_val_of_dec(n / 10, s, i);
        assert(s[i + (d.len() - 1)] == d[d.len() - 1]);
        assert(d[d.len() - 1] == crate::strutil::spec_digit((n % 10) as int));
        assert(crate::codec::spec_digits_val(s, i, i + d.len()) == crate::codec::spec_digits_val(s, i, i + d.len() - 1) * 10 + ((s[i + d.len() - 1] as u32) - ('0' as u32)));
        assert((crate::strutil::spec_digit((n % 10) as int) as u32) - ('0' as u32) == n % 10);
    }
}

/// Reading a written integer back: the decimal form a record file holds
/// for a 64-bit value, followed by anything that does not extend a
/// number token, reads back as that value.
pub proof fn lemma_number_round_trip(x: i64, s: Seq<char>, i: int, rest: Seq<char>)
    requires
        0 <= i <= s.len(),
        s.skip(i) == crate::strutil::spec_dec_int(x as int) + rest,
        rest.len() >= 1,
        !('0' <= rest[0] <= '9'),
        rest[0] != '.',
        rest[0] != 'e',
        rest[0] != 'E',
    ensures
        crate::codec::spec_parse_i64(s, i) == Some((x, i + crate::strutil::spec_dec_int(x as int).len())),
{
    let txt = crate::strutil::spec_dec_int(x as int);
    let mag: nat = if x < 0 {
        (-(x as int)) as nat
    } else {
        x as nat
    };
    let d = crate::strutil::spec_dec_nat(mag);
    lemma_dec_nat_digits(mag);
    assert(spec_pow10(19nat) == 10000000000000000000) by {
        reveal_with_fuel(spec_pow10, 21);
    }
    lemma_dec_len_bound(mag, 19nat);
    assert(forall|k: int| 0 <= k < s.skip(i).len() ==> #[trigger] s.skip(i)[k] == s[i + k]);
    let d0: int = if x < 0 {
        i + 1
    } else {
        i
    };
    if x < 0 {
        assert(txt =~= seq!['-'] + d);
        assert(s[i] == '-') by {
            assert(s.skip(i)[0] == txt[0]);
        }
    } else {
        assert(txt =~= d);
    }
    assert(forall|k: int| 0 <= k < d.len() ==> #[trigger] s[d0 + k] == d[k]) by {
        assert(forall|k: int| 0 <= k < d.len() ==> s.skip(i)[d0 - i + k] == d[k]);
    }
    assert(s[d0 + d.len()] == rest[0]) by {
        assert(s.skip(i)[d0 - i + d.len()] == rest[0]);
    }
    assert forall|k: int| d0 <= k < d0 + d.len() implies '0' <= #[trigger] s[k] <= '9' by {
        assert(s[d0 + (k - d0)] == d[k - d0]);
    }
    lemma_digits_end_char(s, d0, d0 + d.len() as int);
    lemma_digits_end_char(s, d0 + 1, d0 + d.len() as int);
    // the grammar scan ends exactly at the digits' end
    assert(s[d0 + 0] == d[0]);
    assert(s[d0] == d[0]);
    let e = d0 + d.len() as int;
    assert(crate::json::spec_number_end(s, i) == Some(e)) by {
        if mag == 0 {
            assert(d =~= seq!['0']);
            assert(s[d0] == '0');
        } else {
            assert(s[d0] != '0');
        }
        assert(!(s[e] == 'e' || s[e] == 'E') && s[e] != '.');
    }
    assert(forall|k: int| 0 <= k < d.len() ==> #[trigger] s[d0 + k] == d[k]);
    lemma_digits_val_of_dec(mag, s, d0);
    assert(crate::codec::spec_all_digits(s, d0, e));
    assert(mag <= 0x8000_0000_0000_0000) by {
        if x < 0 {
            assert(x as int >= i64::MIN);
        }
    }
    if x < 0 {
        assert(crate::codec::spec_parse_i64(s, i) == Some(((-(mag as int)) as i64, e)));
        assert((-(mag as int)) as i64 == x);
    } else {
        assert(mag <= 0x7FFF_FFFF_FFFF_FFFF);
        assert(crate::codec::spec_parse_i64(s, i) == Some((mag as i64, e)));
    }
    assert(e == i + txt.len());
}

} // verus!

verus! {

/// Characters of a suffix are the characters at the offset.
pub proof fn lemma_skip_index(s: Seq<char>, i: int)
    requires
        0 <= i <= s.len(),
    ensures
        forall|k: int| 0 <= k < s.len() - i ==> #[trigger] s.skip(i)[k] == s[i + k],
{
}

/// A string of ordinary characters is written without escapes.
pub proof fn lemma_plain_body(v: Seq<char>)
    requires
        forall|k: int| 0 <= k < v.len() ==> (#[trigger] v[k]) != '"' && v[k] != '\\' && (v[k] as u32) >= 0x20,
    ensures
        spec_json_str_body(v) == v,
    decreases v.len(),
{
    if v.len() > 0 {
        assert(v[0] != '"' && v[0] != '\\' && (v[0] as u32) >= 0x20);
        assert(spec_escape_out(v[0]) == seq![v[0]]);
        assert(forall|k: int| 0 <= k < v.drop_first().len() ==> (#[trigger] v.drop_first()[k]) == v[k + 1]);
        lemma_plain_body(v.drop_first());
        assert(spec_json_str_body(v) =~= v);
    }
}

/// A written string token reads back as one value token: the reader
/// decodes it and any value skip ends at its closing quote.
pub proof fn lemma_string_token(v: Seq<char>, s: Seq<char>, i: int)
    requires
        0 <= i,
        i + spec_json_str(v).len() <= s.len(),
        s.skip(i) == spec_json_str(v) + s.skip(i + spec_json_str(v).len() as int),
    ensures
        crate::json::spec_parse_string(s, i) == Some((v, i + spec_json_str(v).len())),
        crate::json::spec_skip_value(s, i) == Some(i + spec_json_str(v).len() as int),
{
    let t = spec_json_str(v);
    let rest = s.skip(i + t.len() as int);
    assert(forall|k: int| 0 <= k < s.skip(i).len() ==> #[trigger] s.skip(i)[k] == s[i + k]);
    assert(s[i] == '"') by {
        assert(s.skip(i)[0] == t[0]);
    }
    assert(s.skip(i + 1) =~= spec_json_str_body(v) + seq!['"'] + rest) by {
        assert(forall|k: int| 0 <= k < s.skip(i + 1).len() ==> #[trigger] s.skip(i + 1)[k] == s.skip(i)[k + 1]);
    }
    lemma_string_round_trip(v, s, i + 1, rest);
    assert(crate::json::spec_parse_string(s, i) == Some((v, i + 1 + spec_json_str_body(v).len() + 1)));
}

proof fn proof_skip_facts(s: Seq<char>, i: int, j: int)
    requires
        0 <= i <= s.len(),
        0 <= j <= s.len(),
    ensures
        forall|k: int| 0 <= k < s.len() - i ==> #[trigger] s.skip(i)[k] == s[i + k],
        forall|k: int| 0 <= k < s.len() - j ==> #[trigger] s.skip(j)[k] == s[j + k],
        j + 1 <= s.len() ==> forall|k: int| 0 <= k < s.len() - (j + 1) ==> #[trigger] s.skip(j + 1)[k] == s[j + 1 + k],
{
    lemma_skip_index(s, i);
    lemma_skip_index(s, j);
    if j + 1 <= s.len() {
        lemma_skip_index(s, j + 1);
    }
}

/// The remaining written argument strings read back as the remaining
/// array items.
pub proof fn lemma_args_items(args: Seq<Seq<char>>, s: Seq<char>, i: int)
    requires
        0 <= i,
        args.len() >= 1,
        i + spec_json_args(args).len() + 1 <= s.len(),
        s.skip(i) == spec_json_args(args) + seq![']'] + s.skip(i + spec_json_args(args).len() as int + 1),
    ensures
        crate::codec::spec_str_items(s, i) == Some((args, i + spec_json_args(args).len() as int + 1)),
        crate::json::spec_skip_elems(s, i) == Some(i + spec_json_args(args).len() as int + 1),
    decreases args.len(),
{
    let t = spec_json_args(args);
    let head = spec_json_str(args[0]);
    assert(forall|k: int| 0 <= k < s.skip(i).len() ==> #[trigger] s.skip(i)[k] == s[i + k]);
    if args.len() == 1 {
        assert(t == head);
        let p1 = i + head.len() as int;
        proof_skip_facts(s, i, p1);
        assert(s.skip(i)[head.len() as int] == ']');
        assert(s[p1] == ']');
        assert forall|k: int| 0 <= k < s.len() - p1 implies #[trigger] s.skip(p1)[k] == (seq![
            ']',
        ] + s.skip(p1 + 1))[k] by {
            if k == 0 {
                assert(s.skip(p1)[0] == s[p1]);
            } else {
                assert(s.skip(p1)[k] == s[p1 + k]);
                assert(s.skip(p1 + 1)[k - 1] == s[p1 + k]);
            }
        }
        assert(s.skip(p1) =~= seq![']'] + s.skip(p1 + 1));
        assert forall|k: int| 0 <= k < s.len() - i implies #[trigger] s.skip(i)[k] == (head
            + s.skip(p1))[k] by {
            if k < head.len() {
            } else {
                assert(s.skip(p1)[k - head.len()] == s[p1 + (k - head.len())]);
                assert(s.skip(i)[k] == s[i + k]);
            }
        }
        assert(s.skip(i) =~= head + s.skip(p1));
        lemma_string_token(args[0], s, i);
        assert(s[p1] == ']') by {
            assert(s.skip(p1)[0] == ']');
        }
        assert(crate::json::ws_end(s, p1) == p1);
        assert(crate::codec::spec_str_items(s, i) == Some((seq![args[0]], p1 + 1)));
        assert(seq![args[0]] =~~= args);
    } else {
        let tail = args.drop_first();
        assert(t == head + seq![','] + spec_json_args(tail));
        let p1 = i + head.len() as int;
        let p2 = p1 + 1;
        proof_skip_facts(s, i, p1);
        lemma_skip_index(s, p2);
        lemma_skip_index(s, p2 + spec_json_args(tail).len() as int + 1);
        lemma_skip_index(s, i + spec_json_args(args).len() as int + 1);
        assert forall|k: int| 0 <= k < s.len() - i implies #[trigger] s.skip(i)[k] == (head
            + s.skip(p1))[k] by {
            if k >= head.len() {
                assert(s.skip(p1)[k - head.len()] == s[p1 + (k - head.len())]);
                assert(s.skip(i)[k] == s[i + k]);
            }
        }
        assert(s.skip(i) =~= head + s.skip(p1));
        lemma_string_token(args[0], s, i);
        assert(s[p1] == ',') by {
            assert(s.skip(i)[head.len() as int] == t[head.len() as int]);
        }
        let tl = spec_json_args(tail).len() as int;
        assert forall|k: int| 0 <= k < s.len() - p2 implies #[trigger] s.skip(p2)[k] == (
        spec_json_args(tail) + seq![']'] + s.skip(p2 + tl + 1))[k] by {
            assert(s.skip(p2)[k] == s[p2 + k]);
            assert(s.skip(i)[head.len() + 1 + k] == s[p2 + k]);
            assert(s.skip(i)[head.len() + 1 + k] == (t + seq![']'] + s.skip(i + t.len() as int
                + 1))[head.len() + 1 + k]);
            if k >= tl + 1 {
                assert(s.skip(p2 + tl + 1)[k - tl - 1] == s[p2 + k]);
                assert(s.skip(i + t.len() as int + 1)[k - tl - 1] == s[p2 + k]);
            }
        }
        assert(s.skip(p2) =~= spec_json_args(tail) + seq![']'] + s.skip(p2 + tl + 1));
        lemma_args_items(tail, s, p2);
        assert(!crate::strutil::spec_is_ws(s[p2])) by {
            assert(s.skip(p2)[0] == '"') by {
                assert(spec_json_args(tail)[0] == spec_json_str(tail[0])[0]);
            }
        }
        assert(crate::json::ws_end(s, p1) == p1);
        assert(crate::json::ws_end(s, p2) == p2);
        assert(crate::codec::spec_str_items(s, i) == Some((seq![args[0]] + tail, p2 + spec_json_args(tail).len() as int + 1)));
        assert(seq![args[0]] + tail =~~= args);
    }
}

/// The written argument array reads back whole.
pub proof fn lemma_args_array(args: Seq<Seq<char>>, s: Seq<char>, i: int)
    requires
        0 <= i,
        i + spec_json_args(args).len() + 2 <= s.len(),
        s.skip(i) == seq!['['] + spec_json_args(args) + seq![']'] + s.skip(i + spec_json_args(args).len() as int + 2),
    ensures
        crate::codec::spec_parse_str_arr(s, i) == Some((args, i + spec_json_args(args).len() as int + 2)),
        crate::json::spec_skip_value(s, i) == Some(i + spec_json_args(args).len() as int + 2),
{
    assert(forall|k: int| 0 <= k < s.skip(i).len() ==> #[trigger] s.skip(i)[k] == s[i + k]);
    assert(s[i] == '[') by {
        assert(s.skip(i)[0] == '[');
    }
    if args.len() == 0 {
        assert(s[i + 1] == ']') by {
            assert(s.skip(i)[1] == ']');
        }
        assert(crate::json::ws_end(s, i + 1) == i + 1);
        assert(crate::codec::spec_parse_str_arr(s, i) == Some((Seq::<Seq<char>>::empty(), i + 2)));
        assert(Seq::<Seq<char>>::empty() =~~= args);
    } else {
        let p1 = i + 1;
        assert(s.skip(p1) =~= spec_json_args(args) + seq![']'] + s.skip(p1 + spec_json_args(args).len() as int + 1)) by {
            assert(forall|k: int| 0 <= k < s.skip(p1).len() ==> #[trigger] s.skip(p1)[k] == s.skip(i)[k + 1]);
        }
        assert(s[p1] == '"') by {
            assert(s.skip(i)[1] == spec_json_args(args)[0]);
            assert(spec_json_args(args)[0] == spec_json_str(args[0])[0]);
        }
        assert(crate::json::ws_end(s, p1) == p1);
        lemma_args_items(args, s, p1);
    }
}

} // verus!
