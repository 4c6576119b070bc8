//! Reading CUPS command output: `lpstat -v` device lines, the `lpstat -d`
//! default destination and `lpoptions -p` values, and the printer list built
//! from them.

use vstd::prelude::*;
use crate::print::{classify_printer, opt_str_view, printer_class, printer_hay, PrintError, PrinterInfo};
use vstd::slice::slice_to_vec;
use crate::text::{
    char_index_from, chars_eq, find_char_from, find_from, first_match_from, is_whitespace, is_ws,
    lemma_char_index_from, lemma_first_match_from, lower_all, lower_chars, occurs_at, starts_with,
    starts_with_str, str_chars, string_from_chars, sub_chars, trim, trim_chars, trimmed_chars,
    ws_prefix_end,
};

verus! {

/// `device for NAME: URI` read as `(NAME, URI)`, both trimmed; the name must
/// not be blank and the colon is the first one after the prefix.
pub open spec fn spec_device_line(line: Seq<char>) -> Option<(Seq<char>, Seq<char>)> {
    let t = trim(line);
    let p = "device for "@;
    if !starts_with(t, p) {
        None
    } else {
        let rest = t.subrange(p.len() as int, t.len() as int);
        let k = char_index_from(rest, ':', 0);
        if k >= rest.len() {
            None
        } else if trim(rest.subrange(0, k)).len() == 0 {
            None
        } else {
            Some((trim(rest.subrange(0, k)), trim(rest.subrange(k + 1, rest.len() as int))))
        }
    }
}

/// `... default destination: NAME` read as `NAME` (trimmed, not blank).
pub open spec fn spec_default_line(line: Seq<char>) -> Option<Seq<char>> {
    let t = trim(line);
    let p = "default destination:"@;
    let m = first_match_from(t, p, 0);
    if m < 0 {
        None
    } else if trim(t.subrange(m + p.len(), t.len() as int)).len() == 0 {
        None
    } else {
        Some(trim(t.subrange(m + p.len(), t.len() as int)))
    }
}

/// End of the run of non-whitespace characters starting at `i`.
pub open spec fn word_end(s: Seq<char>, i: int) -> int
    decreases s.len() - i,
{
    if 0 <= i < s.len() && !is_ws(s[i]) {
        word_end(s, i + 1)
    } else {
        i
    }
}

/// The first whitespace-separated word of `s` (empty when there is none).
pub open spec fn first_word(s: Seq<char>) -> Seq<char> {
    let a = ws_prefix_end(s, 0);
    s.subrange(a, word_end(s, a))
}

/// The raw value after the first `key=`: up to the closing quote when it is
/// quoted with `'`, else the first word.
pub open spec fn raw_option_value(rest: Seq<char>) -> Seq<char> {
    if rest.len() > 0 && rest[0] == '\'' {
        let inner = rest.subrange(1, rest.len() as int);
        inner.subrange(0, char_index_from(inner, '\'', 0))
    } else {
        first_word(rest)
    }
}

/// The value of `key` in `lpoptions` output, trimmed, when present and not blank.
pub open spec fn spec_lpoptions_value(hay: Seq<char>, key: Seq<char>) -> Option<Seq<char>> {
    let needle = key.push('=');
    let m = first_match_from(hay, needle, 0);
    if m < 0 {
        None
    } else if trim(raw_option_value(hay.subrange(m + needle.len(), hay.len() as int))).len() == 0 {
        None
    } else {
        Some(trim(raw_option_value(hay.subrange(m + needle.len(), hay.len() as int))))
    }
}

pub proof fn lemma_word_end(s: Seq<char>, i: int)
    requires
        0 <= i <= s.len(),
    ensures
        i <= word_end(s, i) <= s.len(),
    decreases s.len() - i,
{
    if i < s.len() && !is_ws(s[i]) {
        lemma_word_end(s, i + 1);
    }
}

/// `device for NAME: URI` to `(NAME, URI)`.
pub fn parse_lpstat_device_line(line: &str) -> (r: Option<(String, String)>)
    ensures
        spec_device_line(line@) is None ==> r is None,
        spec_device_line(line@) matches Some((n, u)) ==> (r matches Some((rn, ru)) && rn@ == n && ru@
            == u),
{
    let t = trimmed_chars(line);
    if !starts_with_str(&t, "device for ") {
        return None;
    }
    let p = str_chars("device for ");
    let rest = sub_chars(&t, p.len(), t.len());
    let k = find_char_from(&rest, ':', 0);
    proof {
        lemma_char_index_from(rest@, ':', 0);
    }
    if k >= rest.len() {
        return None;
    }
    let name_raw = sub_chars(&rest, 0, k);
    let name = trim_chars(&name_raw);
    if name.len() == 0 {
        return None;
    }
    let uri_raw = sub_chars(&rest, k + 1, rest.len());
    let uri = trim_chars(&uri_raw);
    Some((string_from_chars(&name), string_from_chars(&uri)))
}

/// `system default destination: NAME` to `NAME`; "no system default
/// destination" yields nothing.
pub fn parse_lpstat_default_line(line: &str) -> (r: Option<String>)
    ensures
        spec_default_line(line@) is None ==> r is None,
        spec_default_line(line@) matches Some(n) ==> (r matches Some(rn) && rn@ == n),
{
    let t = trimmed_chars(line);
    let _tl = t.len();
    let p = str_chars("default destination:");
    match find_from(&t, &p, 0) {
        None => None,
        Some(m) => {
            proof {
                lemma_first_match_from(t@, p@, 0);
                assert(occurs_at(t@, p@, m as int));
            }
            let after = sub_chars(&t, m + p.len(), t.len());
            let name = trim_chars(&after);
            if name.len() == 0 {
                None
            } else {
                Some(string_from_chars(&name))
            }
        },
    }
}

/// The first whitespace-separated word of `s`.
fn first_word_chars(s: &Vec<char>) -> (r: Vec<char>)
    ensures
        r@ == first_word(s@),
{
    let n = s.len();
    let mut a: usize = 0;
    while a < n && is_whitespace(s[a])
        invariant
            a <= n,
            n == s@.len(),
            ws_prefix_end(s@, a as int) == ws_prefix_end(s@, 0),
        decreases n - a,
    {
        a = a + 1;
    }
    let mut b: usize = a;
    while b < n && !is_whitespace(s[b])
        invariant
            a <= b <= n,
            n == s@.len(),
            a == ws_prefix_end(s@, 0),
            word_end(s@, b as int) == word_end(s@, a as int),
        decreases n - b,
    {
        b = b + 1;
    }
    sub_chars(s, a, b)
}

/// Pull `key=value` out of `lpoptions` output, honouring single quotes around
/// values that contain spaces (`printer-make-and-model='Xprinter USB'`).
pub fn lpoptions_value(haystack: &str, key: &str) -> (r: Option<String>)
    ensures
        spec_lpoptions_value(haystack@, key@) is None ==> r is None,
        spec_lpoptions_value(haystack@, key@) matches Some(v) ==> (r matches Some(rv) && rv@ == v),
{
    let hay = str_chars(haystack);
    let _hl = hay.len();
    let mut needle = str_chars(key);
    needle.push('=');
    let m = match find_from(&hay, &needle, 0) {
        None => return None,
        Some(m) => m,
    };
    proof {
        lemma_first_match_from(hay@, needle@, 0);
    }
    let rest = sub_chars(&hay, m + needle.len(), hay.len());
    let value: Vec<char> = if rest.len() > 0 && rest[0] == '\'' {
        let inner = sub_chars(&rest, 1, rest.len());
        let q = find_char_from(&inner, '\'', 0);
        proof {
            lemma_char_index_from(inner@, '\'', 0);
        }
        sub_chars(&inner, 0, q)
    } else {
        first_word_chars(&rest)
    };
    let v = trim_chars(&value);
    if v.len() == 0 {
        None
    } else {
        Some(string_from_chars(&v))
    }
}

} // verus!

verus! {

/// The line starting at `i`, as `str::lines` yields it: up to the next `\n`,
/// with a `\r` before that `\n` removed.
pub open spec fn line_text(s: Seq<char>, i: int) -> Seq<char> {
    let e = char_index_from(s, '\n', i);
    let raw = s.subrange(i, e);
    if e < s.len() && raw.len() > 0 && raw.last() == '\r' {
        raw.drop_last()
    } else {
        raw
    }
}

/// Device entries of the lines from position `i` on, in order.
pub open spec fn device_entries_from(s: Seq<char>, i: int) -> Seq<(Seq<char>, Seq<char>)>
    decreases s.len() + 1 - i,
{
    if i < 0 || i >= s.len() {
        Seq::empty()
    } else {
        proof {
            lemma_char_index_from(s, '\n', i);
        }
        let rest = device_entries_from(s, char_index_from(s, '\n', i) + 1);
        match spec_device_line(line_text(s, i)) {
            Some(p) => seq![p] + rest,
            None => rest,
        }
    }
}

/// The default destination named by the first line that names one, from `i` on.
pub open spec fn default_from(s: Seq<char>, i: int) -> Option<Seq<char>>
    decreases s.len() + 1 - i,
{
    if i < 0 || i >= s.len() {
        None
    } else {
        proof {
            lemma_char_index_from(s, '\n', i);
        }
        match spec_default_line(line_text(s, i)) {
            Some(n) => Some(n),
            None => default_from(s, char_index_from(s, '\n', i) + 1),
        }
    }
}

/// The character views of parsed pairs.
pub open spec fn pair_views(v: Seq<(String, String)>) -> Seq<(Seq<char>, Seq<char>)> {
    v.map_values(|p: (String, String)| (p.0@, p.1@))
}

/// The line starting at `i` and the position of its `\n` (the length when
/// it is the last line).
fn next_line(s: &Vec<char>, i: usize) -> (r: (String, usize))
    requires
        i < s@.len(),
    ensures
        r.0@ == line_text(s@, i as int),
        r.1 == char_index_from(s@, '\n', i as int),
        i <= r.1 <= s@.len(),
{
    let n = s.len();
    let e = find_char_from(s, '\n', i);
    proof {
        lemma_char_index_from(s@, '\n', i as int);
    }
    let mut raw = sub_chars(s, i, e);
    if e < n && raw.len() > 0 && raw[raw.len() - 1] == '\r' {
        raw.pop();
        proof {
            assert(raw@ =~= s@.subrange(i as int, e as int).drop_last());
        }
    }
    (string_from_chars(&raw), e)
}

/// Configured CUPS queues in `lpstat -v` output, as `(queue name, device uri)`.
pub fn parse_lpstat_devices(stdout: &str) -> (r: Vec<(String, String)>)
    ensures
        pair_views(r@) == device_entries_from(stdout@, 0),
{
    let s = str_chars(stdout);
    let n = s.len();
    let mut out: Vec<(String, String)> = Vec::new();
    let mut i: usize = 0;
    while i < n
        invariant
            n == s@.len(),
            s@ == stdout@,
            pair_views(out@) + device_entries_from(s@, i as int) == device_entries_from(s@, 0),
        decreases n - i,
    {
        let (line, end) = next_line(&s, i);
        let ghost before = out@;
        match parse_lpstat_device_line(line.as_str()) {
            Some(pair) => {
                out.push(pair);
                proof {
                    assert(pair_views(out@) =~= pair_views(before) + seq![(pair.0@, pair.1@)]);
                }
            },
            None => {},
        }
        proof {
            assert(pair_views(out@) + device_entries_from(s@, end + 1) =~= pair_views(before)
                + device_entries_from(s@, i as int));
        }
        if end >= n {
            proof {
                assert(device_entries_from(s@, end + 1) =~= Seq::empty());
            }
            i = n;
        } else {
            i = end + 1;
        }
    }
    proof {
        assert(pair_views(out@) =~= pair_views(out@) + device_entries_from(s@, i as int));
    }
    out
}

/// The default destination in `lpstat -d` output (empty when none is set).
pub fn parse_lpstat_default(stdout: &str) -> (r: String)
    ensures
        default_from(stdout@, 0) matches Some(n) ==> r@ == n,
        default_from(stdout@, 0) is None ==> r@ == Seq::<char>::empty(),
{
    let s = str_chars(stdout);
    let n = s.len();
    let mut i: usize = 0;
    while i < n
        invariant
            n == s@.len(),
            s@ == stdout@,
            default_from(s@, i as int) == default_from(s@, 0),
        decreases n - i,
    {
        let (line, end) = next_line(&s, i);
        match parse_lpstat_default_line(line.as_str()) {
            Some(name) => {
                return name;
            },
            None => {},
        }
        proof {
            assert(default_from(s@, i as int) == default_from(s@, end + 1));
        }
        if end >= n {
            i = n;
        } else {
            i = end + 1;
        }
    }
    String::new()
}

} // verus!

verus! {

/// The driver text a CUPS queue is classified by: the make-and-model when it
/// is not blank, else the device URI when it is not empty.
pub open spec fn cups_driver(uri: Seq<char>, model: Option<Seq<char>>) -> Option<Seq<char>> {
    if model is Some && trim(model.unwrap()).len() > 0 {
        model
    } else if uri.len() > 0 {
        Some(uri)
    } else {
        None
    }
}

/// Two names are equal ignoring ASCII case.
pub open spec fn eq_ignore_ascii_case(a: Seq<char>, b: Seq<char>) -> bool {
    lower_all(a) == lower_all(b)
}

/// Whether two names are equal ignoring ASCII case.
pub fn names_match(a: &str, b: &str) -> (r: bool)
    ensures
        r == eq_ignore_ascii_case(a@, b@),
{
    let ac = str_chars(a);
    let bc = str_chars(b);
    let al = lower_chars(&ac);
    let bl = lower_chars(&bc);
    chars_eq(&al, &bl)
}

/// A CUPS queue as a listed printer. The class is read from the queue name
/// and URI together with the driver text, so `usb://Xprinter/...` resolves
/// to a thermal printer.
pub fn cups_printer_info(
    queue: &str,
    uri: &str,
    description: Option<&str>,
    model: Option<&str>,
    default_name: &str,
) -> (r: PrinterInfo)
    ensures
        r.id@ == queue@,
        r.system_name@ == queue@,
        r.name@ == match description {
            Some(d) => d@,
            None => queue@,
        },
        r.default == (default_name@.len() > 0 && eq_ignore_ascii_case(queue@, default_name@)),
        r.driver matches Some(d) ==> cups_driver(uri@, opt_str_view(model)) == Some(d@),
        r.driver is None ==> cups_driver(uri@, opt_str_view(model)) is None,
        r.printer_type@ == printer_class(
            printer_hay(queue@ + seq![' '] + uri@, cups_driver(uri@, opt_str_view(model))),
        ),
{
    let driver: Option<String> = match model {
        Some(m) => {
            let t = trimmed_chars(m);
            if t.len() > 0 {
                Some(String::from_str(m))
            } else if !uri.is_empty() {
                Some(String::from_str(uri))
            } else {
                None
            }
        },
        None => {
            if !uri.is_empty() {
                Some(String::from_str(uri))
            } else {
                None
            }
        },
    };
    let mut hint = String::from_str(queue);
    hint.append(" ");
    hint.append(uri);
    proof {
        reveal_strlit(" ");
        assert(hint@ =~= queue@ + seq![' '] + uri@);
    }
    let printer_type = match &driver {
        Some(d) => classify_printer(hint.as_str(), Some(d.as_str())),
        None => classify_printer(hint.as_str(), None),
    };
    let name = match description {
        Some(d) => String::from_str(d),
        None => String::from_str(queue),
    };
    let default = !default_name.is_empty() && names_match(queue, default_name);
    PrinterInfo {
        id: String::from_str(queue),
        name,
        system_name: String::from_str(queue),
        default,
        printer_type,
        driver,
    }
}

} // verus!

verus! {

/// ESC p 0 25 250: the cash-drawer pulse.
pub const ESCPOS_OPEN_DRAWER: [u8; 5] = [0x1b, 0x70, 0x00, 0x19, 0xfa];

/// A job for CUPS `lp`: its arguments and the bytes it reads on stdin.
#[derive(Debug, Clone)]
pub struct LpJob {
    pub args: Vec<String>,
    pub payload: Vec<u8>,
}

/// The texts of the arguments of a job.
pub open spec fn arg_views(args: Seq<String>) -> Seq<Seq<char>> {
    args.map_values(|a: String| a@)
}

/// `lp -d PRINTER -t Finvoroo`, with `-o raw` to skip every CUPS filter.
pub open spec fn lp_args(printer: Seq<char>, raw: bool) -> Seq<Seq<char>> {
    let base = seq!["-d"@, printer, "-t"@, "Finvoroo"@];
    if raw {
        base + seq!["-o"@, "raw"@]
    } else {
        base
    }
}

fn lp_arg_list(printer: &str, raw: bool) -> (r: Vec<String>)
    ensures
        arg_views(r@) == lp_args(printer@, raw),
{
    let mut args: Vec<String> = Vec::new();
    args.push(String::from_str("-d"));
    args.push(String::from_str(printer));
    args.push(String::from_str("-t"));
    args.push(String::from_str("Finvoroo"));
    if raw {
        args.push(String::from_str("-o"));
        args.push(String::from_str("raw"));
    }
    assert(arg_views(args@) =~= lp_args(printer@, raw));
    args
}

fn lp_submit(printer: &str, payload: &[u8], raw: bool) -> (r: Result<LpJob, PrintError>)
    ensures
        payload@.len() == 0 ==> r matches Err(PrintError::NothingToPrint),
        payload@.len() > 0 ==> (r matches Ok(job) && arg_views(job.args@) == lp_args(printer@, raw)
            && job.payload@ == payload@),
{
    if payload.len() == 0 {
        return Err(PrintError::NothingToPrint);
    }
    Ok(LpJob { args: lp_arg_list(printer, raw), payload: slice_to_vec(payload) })
}

/// The `lp` job that sends `payload` straight to the device, untouched.
pub fn print_raw(printer: &str, payload: &[u8]) -> (r: Result<LpJob, PrintError>)
    ensures
        payload@.len() == 0 ==> r matches Err(PrintError::NothingToPrint),
        payload@.len() > 0 ==> (r matches Ok(job) && arg_views(job.args@) == lp_args(printer@, true)
            && job.payload@ == payload@),
{
    lp_submit(printer, payload, true)
}

/// The `lp` job for a PDF document, which CUPS may filter for the destination.
pub fn print_pdf(printer: &str, pdf: &[u8]) -> (r: Result<LpJob, PrintError>)
    ensures
        pdf@.len() == 0 ==> r matches Err(PrintError::NothingToPrint),
        pdf@.len() > 0 ==> (r matches Ok(job) && arg_views(job.args@) == lp_args(printer@, false)
            && job.payload@ == pdf@),
{
    lp_submit(printer, pdf, false)
}

/// The `lp` job that pulses the cash drawer of a receipt printer.
pub fn open_cash_drawer(printer: &str) -> (r: LpJob)
    ensures
        arg_views(r.args@) == lp_args(printer@, true),
        r.payload@ == seq![0x1bu8, 0x70u8, 0x00u8, 0x19u8, 0xfau8],
{
    let pulse = ESCPOS_OPEN_DRAWER;
    assert(pulse@ == seq![0x1bu8, 0x70u8, 0x00u8, 0x19u8, 0xfau8]);
    LpJob { args: lp_arg_list(printer, true), payload: slice_to_vec(pulse.as_slice()) }
}

/// The job that follows a raw job sent to `lp`: the drawer pulse, when the
/// request asked for one and the raw job went through; else nothing.
pub fn drawer_job_after(printer: &str, open_drawer: bool, raw_job_printed: bool) -> (r: Option<LpJob>)
    ensures
        r is Some <==> (open_drawer && raw_job_printed),
        r matches Some(job) ==> arg_views(job.args@) == lp_args(printer@, true) && job.payload@ == seq![
            0x1bu8,
            0x70u8,
            0x00u8,
            0x19u8,
            0xfau8,
        ],
{
    if open_drawer && raw_job_printed {
        Some(open_cash_drawer(printer))
    } else {
        None
    }
}

} // verus!
