//! Print jobs: request types, job kinds, payload decoding, printer
//! classification, test payloads, and what each backend does with a request.

pub mod macos;
pub mod escpos_raster;
pub mod raster_bits;
pub mod stub;

use vstd::prelude::*;
use vstd::slice::slice_to_vec;
use vstd::string::StringSliceAdditionalSpecFns;
use vstd::utf8::encode_utf8;
use crate::external::{base64_decode_standard, base64_error_text, base64_standard_decoded};
use crate::text::{
    chars_eq_str, contains, contains_str, ends_with, is_whitespace, is_ws, lower_all, lower_chars,
    occurs_at, starts_with, starts_with_str, str_chars, string_from_chars, trim, trimmed_chars,
};

verus! {

/// Rendering options of a print request.
#[derive(Debug, Clone)]
pub struct PrintOptions {
    /// Thermal roll width, 58 or 80 (80 when absent).
    pub paper_mm: Option<u32>,
    /// Pulse the cash drawer after the job.
    pub open_drawer: Option<bool>,
}

/// A printer as the operating system lists it.
#[derive(Debug, Clone)]
pub struct PrinterInfo {
    pub id: String,
    pub name: String,
    pub system_name: String,
    pub default: bool,
    /// `zebra`, `thermal` or `windows`.
    pub printer_type: String,
    pub driver: Option<String>,
}

/// A print job as the HTTP API receives it.
#[derive(Debug, Clone)]
pub struct PrintRequest {
    pub printer_id: String,
    /// `pdf`, `html`, `zpl`, `escpos` (or `esc/pos`, `esc-pos`) or `raw`.
    pub job_type: String,
    pub data: String,
    /// `base64` or `plain`.
    pub encoding: Option<String>,
    pub options: Option<PrintOptions>,
}

/// Kinds of print job.
#[derive(Debug, Clone, Copy, PartialEq, Eq, Structural)]
pub enum JobKind {
    Pdf,
    Zpl,
    Raw,
    EscPos,
    Html,
}

/// Why a print request was refused.
#[derive(Debug, Clone)]
pub enum PrintError {
    /// The job type is none of the supported ones (the normalised type is kept).
    UnsupportedType(String),
    /// The payload was meant to be base64 and did not decode.
    InvalidBase64(String),
    /// `printer_id` is blank.
    MissingPrinter,
    /// The job data is blank.
    EmptyData,
    /// HTML jobs need the Windows renderer.
    HtmlUnavailable,
    /// A raw job decoded to no bytes (spooler).
    EmptyRawPayload,
    /// A job with no bytes for CUPS `lp`.
    NothingToPrint,
    /// A PDF job does not start with a PDF header.
    NotPdf,
    /// A test print names no printer.
    NoPrinterSelected,
    /// A test print names a printer the system does not list.
    UnknownPrinter(String),
    /// Printing is not available on this operating system (its name is kept).
    PlatformUnsupported(String),
    /// Test printing is not available on this operating system.
    TestPrintUnsupported,
}

/// The normalised job type: trimmed, ASCII lower case.
pub open spec fn job_type_key(value: Seq<char>) -> Seq<char> {
    lower_all(trim(value))
}

/// The job kind a type names, if any.
pub open spec fn spec_job_kind(key: Seq<char>) -> Option<JobKind> {
    if key == "pdf"@ {
        Some(JobKind::Pdf)
    } else if key == "zpl"@ {
        Some(JobKind::Zpl)
    } else if key == "raw"@ {
        Some(JobKind::Raw)
    } else if key == "escpos"@ || key == "esc/pos"@ || key == "esc-pos"@ {
        Some(JobKind::EscPos)
    } else if key == "html"@ {
        Some(JobKind::Html)
    } else {
        None
    }
}

impl JobKind {
    /// Parse a job type, case-insensitively and ignoring surrounding whitespace.
    pub fn parse(value: &str) -> (r: Result<JobKind, PrintError>)
        ensures
            spec_job_kind(job_type_key(value@)) matches Some(k) ==> r == Ok::<JobKind, PrintError>(k),
            spec_job_kind(job_type_key(value@)) is None ==> (r matches Err(PrintError::UnsupportedType(t))
                && t@ == job_type_key(value@)),
    {
        let t = trimmed_chars(value);
        let key = lower_chars(&t);
        if chars_eq_str(&key, "pdf") {
            Ok(JobKind::Pdf)
        } else if chars_eq_str(&key, "zpl") {
            Ok(JobKind::Zpl)
        } else if chars_eq_str(&key, "raw") {
            Ok(JobKind::Raw)
        } else if chars_eq_str(&key, "escpos") || chars_eq_str(&key, "esc/pos") || chars_eq_str(
            &key,
            "esc-pos",
        ) {
            Ok(JobKind::EscPos)
        } else if chars_eq_str(&key, "html") {
            Ok(JobKind::Html)
        } else {
            Err(PrintError::UnsupportedType(string_from_chars(&key)))
        }
    }

    /// Raw-spooler kinds: ZPL, raw bytes and ESC/POS go to the device untouched.
    pub fn is_raw_spooler(self) -> (r: bool)
        ensures
            r == (self == JobKind::Zpl || self == JobKind::Raw || self == JobKind::EscPos),
    {
        match self {
            JobKind::Zpl | JobKind::Raw | JobKind::EscPos => true,
            _ => false,
        }
    }
}

} // verus!

verus! {

/// The characters of an optional string slice.
pub open spec fn opt_str_view(o: Option<&str>) -> Option<Seq<char>> {
    match o {
        Some(s) => Some(s@),
        None => None,
    }
}

/// `s` with every whitespace character removed.
pub open spec fn remove_ws(s: Seq<char>) -> Seq<char>
    decreases s.len(),
{
    if s.len() == 0 {
        s
    } else if is_ws(s.last()) {
        remove_ws(s.drop_last())
    } else {
        remove_ws(s.drop_last()).push(s.last())
    }
}

/// Start of the last occurrence of `needle` in `hay` at or before `i`, or -1.
pub open spec fn last_match_from(hay: Seq<char>, needle: Seq<char>, i: int) -> int
    decreases i + 1,
{
    if i < 0 {
        -1
    } else if occurs_at(hay, needle, i) {
        i
    } else {
        last_match_from(hay, needle, i - 1)
    }
}

/// `str::rsplit_once(needle)` keeping the right part, or the whole text.
pub open spec fn after_last(hay: Seq<char>, needle: Seq<char>) -> Seq<char> {
    let j = last_match_from(hay, needle, hay.len() - needle.len());
    if j >= 0 {
        hay.subrange(j + needle.len(), hay.len() as int)
    } else {
        hay
    }
}

/// The encoding named by a request, normalised (blank when absent).
pub open spec fn encoding_key(encoding: Option<Seq<char>>) -> Seq<char> {
    match encoding {
        Some(e) => lower_all(trim(e)),
        None => Seq::empty(),
    }
}

/// Whether a payload is read as base64: it says so, or it is a PDF job whose
/// data is not blank and does not start with a PDF header.
pub open spec fn uses_base64(data: Seq<char>, encoding: Option<Seq<char>>, kind: JobKind) -> bool {
    ||| encoding_key(encoding) == "base64"@
    ||| (kind == JobKind::Pdf && !starts_with(trim(data), "%PDF"@) && trim(data).len() > 0)
}

/// The base64 text of a payload: whitespace dropped, and anything up to the
/// last `base64,` (a data URL prefix) cut off.
pub open spec fn base64_text(data: Seq<char>) -> Seq<char> {
    after_last(remove_ws(data), "base64,"@)
}

fn remove_whitespace(s: &Vec<char>) -> (r: Vec<char>)
    ensures
        r@ == remove_ws(s@),
{
    let mut r: Vec<char> = Vec::new();
    let mut i: usize = 0;
    while i < s.len()
        invariant
            i <= s@.len(),
            r@ == remove_ws(s@.take(i as int)),
        decreases s@.len() - i,
    {
        proof {
            assert(s@.take(i as int + 1).drop_last() =~= s@.take(i as int));
        }
        let c = s[i];
        if !is_whitespace(c) {
            r.push(c);
        }
        i = i + 1;
    }
    proof {
        assert(s@.take(s@.len() as int) =~= s@);
    }
    r
}

fn text_after_last(hay: &Vec<char>, needle: &Vec<char>) -> (r: Vec<char>)
    ensures
        r@ == after_last(hay@, needle@),
{
    let n = hay.len();
    let m = needle.len();
    if m > n {
        proof {
            assert(last_match_from(hay@, needle@, n - m) == -1);
        }
        return hay.clone();
    }
    let mut i: usize = n - m;
    let mut found = false;
    loop
        invariant_except_break
            !found,
            i <= n - m,
            m <= n,
            n == hay@.len(),
            m == needle@.len(),
            last_match_from(hay@, needle@, i as int) == last_match_from(hay@, needle@, n - m),
        ensures
            m <= n,
            n == hay@.len(),
            m == needle@.len(),
            found ==> last_match_from(hay@, needle@, n - m) == i,
            !found ==> last_match_from(hay@, needle@, n - m) == -1,
            i <= n - m,
        decreases i,
    {
        if crate::text::matches_at(hay, needle, i) {
            found = true;
            break;
        }
        if i == 0 {
            proof {
                assert(last_match_from(hay@, needle@, -1) == -1);
            }
            break;
        }
        i = i - 1;
    }
    if !found {
        return hay.clone();
    }
    let mut r: Vec<char> = Vec::new();
    let mut k: usize = i + m;
    while k < n
        invariant
            i + m <= k <= n,
            n == hay@.len(),
            r@ == hay@.subrange(i + m, k as int),
        decreases n - k,
    {
        r.push(hay[k]);
        k = k + 1;
        proof {
            assert(r@ =~= hay@.subrange(i + m, k as int));
        }
    }
    r
}

/// The text to base64-decode for a payload, or `None` when the payload is
/// taken as plain text.
pub fn base64_payload_text(data: &str, encoding: Option<&str>, kind: JobKind) -> (r: Option<String>)
    ensures
        uses_base64(data@, opt_str_view(encoding), kind) ==> (r matches Some(t) && t@ == base64_text(data@)),
        !uses_base64(data@, opt_str_view(encoding), kind) ==> r is None,
        says_base64(opt_str_view(encoding)) ==> (r matches Some(t) && t@ == base64_text(data@)),
        !says_base64(opt_str_view(encoding)) && kind != JobKind::Pdf ==> r is None,
{
    proof {
        law_encoding_decides_decoding(data@, opt_str_view(encoding), kind);
    }
    let key: Vec<char> = match encoding {
        Some(e) => {
            let t = trimmed_chars(e);
            lower_chars(&t)
        },
        None => Vec::new(),
    };
    let trimmed = trimmed_chars(data);
    let is_pdf_header = starts_with_str(&trimmed, "%PDF");
    let use_b64 = chars_eq_str(&key, "base64") || (kind == JobKind::Pdf && !is_pdf_header
        && trimmed.len() > 0);
    if !use_b64 {
        return None;
    }
    let all = str_chars(data);
    let cleaned = remove_whitespace(&all);
    let marker = str_chars("base64,");
    let payload = text_after_last(&cleaned, &marker);
    Some(string_from_chars(&payload))
}

/// The request names base64 as its encoding (surrounding whitespace and
/// letter case aside).
pub open spec fn says_base64(encoding: Option<Seq<char>>) -> bool {
    encoding matches Some(e) && lower_all(trim(e)) == "base64"@
}

/// A payload marked base64 is base64-decoded whatever the job kind: its
/// whitespace-free text after any data-URL prefix goes to the standard
/// decoder. Any other encoding, or none, leaves the payload as its UTF-8 bytes
/// unless the job is a PDF.
pub proof fn law_encoding_decides_decoding(data: Seq<char>, encoding: Option<Seq<char>>, kind: JobKind)
    ensures
        says_base64(encoding) ==> uses_base64(data, encoding, kind),
        !says_base64(encoding) && kind != JobKind::Pdf ==> !uses_base64(data, encoding, kind),
        says_base64(encoding) ==> spec_decoded(data, encoding, kind) == base64_standard_decoded(base64_text(data)),
        !says_base64(encoding) && kind != JobKind::Pdf ==> spec_decoded(data, encoding, kind) == Some(
            encode_utf8(data),
        ),
{
    reveal_strlit("base64");
    if !says_base64(encoding) && kind != JobKind::Pdf {
        match encoding {
            Some(e) => {
                assert(lower_all(trim(e)) != "base64"@);
                assert(encoding_key(encoding) != "base64"@);
            },
            None => {
                assert(Seq::<char>::empty().len() != "base64"@.len());
                assert(encoding_key(encoding) != "base64"@);
            },
        }
        assert(!uses_base64(data, encoding, kind));
    }
}

/// What a payload decodes to, `None` when its base64 text does not decode.
pub open spec fn spec_decoded(data: Seq<char>, encoding: Option<Seq<char>>, kind: JobKind) -> Option<Seq<u8>> {
    if uses_base64(data, encoding, kind) {
        base64_standard_decoded(base64_text(data))
    } else {
        Some(encode_utf8(data))
    }
}

/// Decode a job payload: base64 when [`uses_base64`] holds, otherwise the
/// UTF-8 bytes of the data.
pub fn decode_payload(data: &str, encoding: Option<&str>, kind: JobKind) -> (r: Result<Vec<u8>, PrintError>)
    ensures
        r is Ok <==> spec_decoded(data@, opt_str_view(encoding), kind) is Some,
        r matches Ok(b) ==> b@ == spec_decoded(data@, opt_str_view(encoding), kind).unwrap(),
        r matches Err(e) ==> e is InvalidBase64,
        says_base64(opt_str_view(encoding)) ==> {
            &&& r is Ok <==> base64_standard_decoded(base64_text(data@)) is Some
            &&& r matches Ok(b) ==> b@ == base64_standard_decoded(base64_text(data@)).unwrap()
        },
        !says_base64(opt_str_view(encoding)) && kind != JobKind::Pdf ==> (r matches Ok(b) && b@ == encode_utf8(
            data@,
        )),
{
    proof {
        law_encoding_decides_decoding(data@, opt_str_view(encoding), kind);
    }
    match base64_payload_text(data, encoding, kind) {
        Some(text) => match base64_decode_standard(text.as_str()) {
            Ok(bytes) => Ok(bytes),
            Err(e) => Err(PrintError::InvalidBase64(base64_error_text(&e))),
        },
        None => Ok(slice_to_vec(data.as_bytes())),
    }
}

} // verus!

verus! {

/// Printer class from its name and driver text (ASCII lower case): `zebra`,
/// `thermal` or `windows`.
pub open spec fn printer_class(hay: Seq<char>) -> Seq<char> {
    if contains(hay, "zebra"@) || contains(hay, "zdesigner"@) || contains(hay, "gk420"@)
        || contains(hay, "zd4"@) || contains(hay, "zt4"@) || contains(hay, "gc420"@) {
        "zebra"@
    } else if contains(hay, "epson"@) || contains(hay, "star "@) || contains(hay, "tm-t"@)
        || contains(hay, "escpos"@) || contains(hay, "thermal"@) || contains(hay, "receipt"@)
        || contains(hay, "pos-"@) || contains(hay, "pos 80"@) || contains(hay, "pos80"@)
        || contains(hay, "pos 58"@) || contains(hay, "pos58"@) || contains(hay, "bixolon"@)
        || contains(hay, "bc-95"@) || contains(hay, "bc95"@) || contains(hay, "xprinter"@)
        || contains(hay, "citizen"@) {
        "thermal"@
    } else {
        "windows"@
    }
}

/// The text a printer is classified by: name, a space, driver (or nothing), in
/// ASCII lower case.
pub open spec fn printer_hay(name: Seq<char>, driver: Option<Seq<char>>) -> Seq<char> {
    lower_all(
        name + seq![' '] + match driver {
            Some(d) => d,
            None => Seq::empty(),
        },
    )
}

/// The words that mark a Zebra label printer.
pub open spec fn zebra_keywords() -> Seq<Seq<char>> {
    seq![
        "zebra"@,
        "zdesigner"@,
        "gk420"@,
        "zd4"@,
        "zt4"@,
        "gc420"@,
    ]
}

/// The words that mark an ESC/POS thermal receipt printer.
pub open spec fn thermal_keywords() -> Seq<Seq<char>> {
    seq![
        "epson"@,
        "star "@,
        "tm-t"@,
        "escpos"@,
        "thermal"@,
        "receipt"@,
        "pos-"@,
        "pos 80"@,
        "pos80"@,
        "pos 58"@,
        "pos58"@,
        "bixolon"@,
        "bc-95"@,
        "bc95"@,
        "xprinter"@,
        "citizen"@,
    ]
}

/// The printer class a name-and-driver text gets: any Zebra word makes it
/// `zebra`; otherwise any thermal word makes it `thermal`; otherwise it is a
/// `windows` (document) printer.
pub proof fn law_printer_class_by_keywords(hay: Seq<char>)
    ensures
        forall|i: int| 0 <= i < zebra_keywords().len() && contains(hay, #[trigger] zebra_keywords()[i])
            ==> printer_class(hay) == "zebra"@,
        (forall|j: int| 0 <= j < zebra_keywords().len() ==> !contains(hay, #[trigger] zebra_keywords()[j]))
            ==> forall|i: int| 0 <= i < thermal_keywords().len() && contains(hay, #[trigger] thermal_keywords()[i])
            ==> printer_class(hay) == "thermal"@,
        (forall|j: int| 0 <= j < zebra_keywords().len() ==> !contains(hay, #[trigger] zebra_keywords()[j]))
            && (forall|i: int| 0 <= i < thermal_keywords().len() ==> !contains(hay, #[trigger] thermal_keywords()[i]))
            ==> printer_class(hay) == "windows"@,
{
    assert forall|i: int| 0 <= i < zebra_keywords().len() && contains(hay, #[trigger] zebra_keywords()[i])
        implies printer_class(hay) == "zebra"@ by {
        if i == 0 {
            assert(zebra_keywords()[0] == "zebra"@);
        } else if i == 1 {
            assert(zebra_keywords()[1] == "zdesigner"@);
        } else if i == 2 {
            assert(zebra_keywords()[2] == "gk420"@);
        } else if i == 3 {
            assert(zebra_keywords()[3] == "zd4"@);
        } else if i == 4 {
            assert(zebra_keywords()[4] == "zt4"@);
        } else if i == 5 {
            assert(zebra_keywords()[5] == "gc420"@);
        }
    }
    if forall|j: int| 0 <= j < zebra_keywords().len() ==> !contains(hay, #[trigger] zebra_keywords()[j]) {
        assert(zebra_keywords()[0] == "zebra"@);
        assert(!contains(hay, zebra_keywords()[0]));
        assert(zebra_keywords()[1] == "zdesigner"@);
        assert(!contains(hay, zebra_keywords()[1]));
        assert(zebra_keywords()[2] == "gk420"@);
        assert(!contains(hay, zebra_keywords()[2]));
        assert(zebra_keywords()[3] == "zd4"@);
        assert(!contains(hay, zebra_keywords()[3]));
        assert(zebra_keywords()[4] == "zt4"@);
        assert(!contains(hay, zebra_keywords()[4]));
        assert(zebra_keywords()[5] == "gc420"@);
        assert(!contains(hay, zebra_keywords()[5]));
        assert forall|i: int| 0 <= i < thermal_keywords().len() && contains(hay, #[trigger] thermal_keywords()[i])
            implies printer_class(hay) == "thermal"@ by {
            if i == 0 {
            assert(thermal_keywords()[0] == "epson"@);
        } else if i == 1 {
            assert(thermal_keywords()[1] == "star "@);
        } else if i == 2 {
            assert(thermal_keywords()[2] == "tm-t"@);
        } else if i == 3 {
            assert(thermal_keywords()[3] == "escpos"@);
        } else if i == 4 {
            assert(thermal_keywords()[4] == "thermal"@);
        } else if i == 5 {
            assert(thermal_keywords()[5] == "receipt"@);
        } else if i == 6 {
            assert(thermal_keywords()[6] == "pos-"@);
        } else if i == 7 {
            assert(thermal_keywords()[7] == "pos 80"@);
        } else if i == 8 {
            assert(thermal_keywords()[8] == "pos80"@);
        } else if i == 9 {
            assert(thermal_keywords()[9] == "pos 58"@);
        } else if i == 10 {
            assert(thermal_keywords()[10] == "pos58"@);
        } else if i == 11 {
            assert(thermal_keywords()[11] == "bixolon"@);
        } else if i == 12 {
            assert(thermal_keywords()[12] == "bc-95"@);
        } else if i == 13 {
            assert(thermal_keywords()[13] == "bc95"@);
        } else if i == 14 {
            assert(thermal_keywords()[14] == "xprinter"@);
        } else if i == 15 {
            assert(thermal_keywords()[15] == "citizen"@);
        }
        }
        if forall|i: int| 0 <= i < thermal_keywords().len() ==> !contains(hay, #[trigger] thermal_keywords()[i]) {
            assert(thermal_keywords()[0] == "epson"@);
            assert(!contains(hay, thermal_keywords()[0]));
            assert(thermal_keywords()[1] == "star "@);
            assert(!contains(hay, thermal_keywords()[1]));
            assert(thermal_keywords()[2] == "tm-t"@);
            assert(!contains(hay, thermal_keywords()[2]));
            assert(thermal_keywords()[3] == "escpos"@);
            assert(!contains(hay, thermal_keywords()[3]));
            assert(thermal_keywords()[4] == "thermal"@);
            assert(!contains(hay, thermal_keywords()[4]));
            assert(thermal_keywords()[5] == "receipt"@);
            assert(!contains(hay, thermal_keywords()[5]));
            assert(thermal_keywords()[6] == "pos-"@);
            assert(!contains(hay, thermal_keywords()[6]));
            assert(thermal_keywords()[7] == "pos 80"@);
            assert(!contains(hay, thermal_keywords()[7]));
            assert(thermal_keywords()[8] == "pos80"@);
            assert(!contains(hay, thermal_keywords()[8]));
            assert(thermal_keywords()[9] == "pos 58"@);
            assert(!contains(hay, thermal_keywords()[9]));
            assert(thermal_keywords()[10] == "pos58"@);
            assert(!contains(hay, thermal_keywords()[10]));
            assert(thermal_keywords()[11] == "bixolon"@);
            assert(!contains(hay, thermal_keywords()[11]));
            assert(thermal_keywords()[12] == "bc-95"@);
            assert(!contains(hay, thermal_keywords()[12]));
            assert(thermal_keywords()[13] == "bc95"@);
            assert(!contains(hay, thermal_keywords()[13]));
            assert(thermal_keywords()[14] == "xprinter"@);
            assert(!contains(hay, thermal_keywords()[14]));
            assert(thermal_keywords()[15] == "citizen"@);
            assert(!contains(hay, thermal_keywords()[15]));
        }
    }
}

/// Classify a printer by name and driver: Zebra label printers, ESC/POS
/// thermal receipt printers, or ordinary Windows (GDI/PDF) printers.
pub fn classify_printer(name: &str, driver: Option<&str>) -> (r: String)
    ensures
        r@ == printer_class(printer_hay(name@, opt_str_view(driver))),
        forall|i: int|
            0 <= i < zebra_keywords().len() && contains(
                printer_hay(name@, opt_str_view(driver)),
                #[trigger] zebra_keywords()[i],
            ) ==> r@ == "zebra"@,
        (forall|j: int|
            0 <= j < zebra_keywords().len() ==> !contains(
                printer_hay(name@, opt_str_view(driver)),
                #[trigger] zebra_keywords()[j],
            )) ==> forall|i: int|
            0 <= i < thermal_keywords().len() && contains(
                printer_hay(name@, opt_str_view(driver)),
                #[trigger] thermal_keywords()[i],
            ) ==> r@ == "thermal"@,
        (forall|j: int|
            0 <= j < zebra_keywords().len() ==> !contains(
                printer_hay(name@, opt_str_view(driver)),
                #[trigger] zebra_keywords()[j],
            )) && (forall|i: int|
            0 <= i < thermal_keywords().len() ==> !contains(
                printer_hay(name@, opt_str_view(driver)),
                #[trigger] thermal_keywords()[i],
            )) ==> r@ == "windows"@,
{
    proof {
        law_printer_class_by_keywords(printer_hay(name@, opt_str_view(driver)));
    }
    let mut raw = str_chars(name);
    raw.push(' ');
    let mut d = match driver {
        Some(d) => str_chars(d),
        None => Vec::new(),
    };
    raw.append(&mut d);
    let hay = lower_chars(&raw);
    proof {
        assert(raw@ =~= name@ + seq![' '] + match driver {
            Some(d) => d@,
            None => Seq::empty(),
        });
        assert(opt_str_view(driver) == match driver {
            Some(d) => Some(d@),
            None => None::<Seq<char>>,
        });
    }
    if contains_str(&hay, "zebra") || contains_str(&hay, "zdesigner") || contains_str(&hay, "gk420")
        || contains_str(&hay, "zd4") || contains_str(&hay, "zt4") || contains_str(&hay, "gc420") {
        return String::from_str("zebra");
    }
    if contains_str(&hay, "epson") || contains_str(&hay, "star ") || contains_str(&hay, "tm-t")
        || contains_str(&hay, "escpos") || contains_str(&hay, "thermal") || contains_str(
        &hay,
        "receipt",
    ) || contains_str(&hay, "pos-") || contains_str(&hay, "pos 80") || contains_str(&hay, "pos80")
        || contains_str(&hay, "pos 58") || contains_str(&hay, "pos58") || contains_str(
        &hay,
        "bixolon",
    ) || contains_str(&hay, "bc-95") || contains_str(&hay, "bc95") || contains_str(&hay, "xprinter")
        || contains_str(&hay, "citizen") {
        return String::from_str("thermal");
    }
    String::from_str("windows")
}

/// ZPL label for test prints on Zebra printers.
pub fn zebra_test_zpl() -> (r: &'static str)
    ensures
        r@ == ZEBRA_TEST_ZPL@,
{
    ZEBRA_TEST_ZPL
}

/// The Zebra test label.
pub const ZEBRA_TEST_ZPL: &'static str = "^XA\r\n^MMT\r\n^PW812\r\n^LL400\r\n^FO40,40^A0N,48,48^FDFinvoroo Print Agent^FS\r\n^FO40,110^A0N,28,28^FDSilent test print^FS\r\n^FO40,160^A0N,24,24^FDZebra / ZPL path OK^FS\r\n^XZ\r\n";

/// The ESC/POS test ticket: reset, centre, a short text, feed and full cut.
pub const THERMAL_TEST_ESCPOS: &'static str = "\x1b@\x1ba\x01\n\n*** Finvoroo ***\nPrint Agent test\n\nTest print OK\n\n\n\n\n\n\x1b\x64\x04\x1dVA\x00";

/// ESC/POS test for thermal receipt printers (Bixolon BC-95AC, Epson TM, etc.).
pub fn thermal_test_escpos() -> (r: &'static [u8])
    ensures
        r@ == THERMAL_TEST_ESCPOS.spec_bytes(),
{
    THERMAL_TEST_ESCPOS.as_bytes()
}

/// One-page PDF used for test prints on document printers.
pub const MINIMAL_TEST_PDF: &'static str = "%PDF-1.4
1 0 obj<</Type/Catalog/Pages 2 0 R>>endobj
2 0 obj<</Type/Pages/Count 1/Kids[3 0 R]>>endobj
3 0 obj<</Type/Page/Parent 2 0 R/MediaBox[0 0 612 792]/Contents 4 0 R/Resources<</Font<</F1 5 0 R>>>>>>endobj
4 0 obj<</Length 128>>stream
BT /F1 24 Tf 72 720 Td (Finvoroo Print Agent) Tj ET
BT /F1 12 Tf 72 680 Td (Silent test print - no browser dialog.) Tj ET
endstream
endobj
5 0 obj<</Type/Font/Subtype/Type1/BaseFont/Helvetica>>endobj
xref
0 6
0000000000 65535 f 
0000000009 00000 n 
0000000058 00000 n 
0000000115 00000 n 
0000000266 00000 n 
0000000446 00000 n 
trailer<</Size 6/Root 1 0 R>>
startxref
523
%%EOF
";

/// One-page A4 PDF used for test prints on Windows GDI printers.
pub fn build_test_pdf() -> (r: Vec<u8>)
    ensures
        r@ == MINIMAL_TEST_PDF.spec_bytes(),
{
    slice_to_vec(MINIMAL_TEST_PDF.as_bytes())
}

} // verus!

verus! {

/// Operating systems with a print backend.
#[derive(Debug, Clone, Copy, PartialEq, Eq, Structural)]
pub enum Platform {
    /// Spooler (raw), printer driver (PDF) and WebView2 (HTML).
    Windows,
    /// CUPS `lp`: raw and PDF; no HTML renderer.
    MacOs,
}

/// What a backend sends for an accepted job.
#[derive(Debug)]
pub enum PrintPlan {
    /// Bytes straight to the device, optionally followed by a drawer pulse.
    Raw { bytes: Vec<u8>, open_drawer: bool },
    /// A PDF document through the printer driver.
    Pdf { bytes: Vec<u8> },
    /// An HTML receipt through the renderer, at `paper_mm`.
    Html { html: String, paper_mm: u32, open_drawer: bool },
}

/// Roll width of a request (80 when absent).
pub open spec fn request_paper_mm(req: &PrintRequest) -> u32 {
    match req.options {
        Some(o) => match o.paper_mm {
            Some(p) => p,
            None => 80,
        },
        None => 80,
    }
}

/// Whether a request asks for a drawer pulse (no when absent).
pub open spec fn request_open_drawer(req: &PrintRequest) -> bool {
    match req.options {
        Some(o) => match o.open_drawer {
            Some(d) => d,
            None => false,
        },
        None => false,
    }
}

/// The PDF magic `%PDF`.
pub open spec fn pdf_magic() -> Seq<u8> {
    seq![0x25u8, 0x50u8, 0x44u8, 0x46u8]
}

/// Decide what a backend does with a print request.
///
/// Blank printer or data is refused, the type must parse, HTML needs Windows,
/// raw jobs need at least one byte, and a Windows PDF job must carry a PDF
/// header (on macOS any non-empty document goes to `lp`).
pub fn plan_print_job(req: &PrintRequest, platform: Platform) -> (r: Result<PrintPlan, PrintError>)
    ensures
        trim(req.printer_id@).len() == 0 ==> r matches Err(PrintError::MissingPrinter),
        trim(req.printer_id@).len() > 0 && trim(req.data@).len() == 0 ==> r matches Err(
            PrintError::EmptyData,
        ),
        trim(req.printer_id@).len() > 0 && trim(req.data@).len() > 0 ==> match spec_job_kind(
            job_type_key(req.job_type@),
        ) {
            None => (r matches Err(PrintError::UnsupportedType(t)) && t@ == job_type_key(req.job_type@)),
            Some(JobKind::Html) => if platform == Platform::MacOs {
                r matches Err(PrintError::HtmlUnavailable)
            } else {
                r matches Ok(PrintPlan::Html { html, paper_mm, open_drawer }) && html@ == req.data@
                    && paper_mm == request_paper_mm(req) && open_drawer == request_open_drawer(req)
            },
            Some(k) => match spec_decoded(req.data@, opt_string_view(req.encoding), k) {
                None => r matches Err(PrintError::InvalidBase64(_)),
                Some(b) => if k == JobKind::Pdf {
                    if platform == Platform::Windows && (b.len() < 8 || b.take(4) != pdf_magic()) {
                        r matches Err(PrintError::NotPdf)
                    } else if platform == Platform::MacOs && b.len() == 0 {
                        r matches Err(PrintError::NothingToPrint)
                    } else {
                        r matches Ok(PrintPlan::Pdf { bytes }) && bytes@ == b
                    }
                } else if b.len() == 0 {
                    if platform == Platform::MacOs {
                        r matches Err(PrintError::NothingToPrint)
                    } else {
                        r matches Err(PrintError::EmptyRawPayload)
                    }
                } else {
                    r matches Ok(PrintPlan::Raw { bytes, open_drawer }) && bytes@ == b && open_drawer
                        == (platform == Platform::MacOs && request_open_drawer(req))
                },
            },
        },
{
    let pid = trimmed_chars(req.printer_id.as_str());
    if pid.len() == 0 {
        return Err(PrintError::MissingPrinter);
    }
    let data = trimmed_chars(req.data.as_str());
    if data.len() == 0 {
        return Err(PrintError::EmptyData);
    }
    let kind = match JobKind::parse(req.job_type.as_str()) {
        Ok(k) => k,
        Err(e) => return Err(e),
    };
    let (paper_mm, open_drawer) = match &req.options {
        Some(o) => (
            match o.paper_mm {
                Some(p) => p,
                None => 80,
            },
            match o.open_drawer {
                Some(d) => d,
                None => false,
            },
        ),
        None => (80, false),
    };
    if kind == JobKind::Html {
        if platform == Platform::MacOs {
            return Err(PrintError::HtmlUnavailable);
        }
        return Ok(PrintPlan::Html { html: req.data.clone(), paper_mm, open_drawer });
    }
    let encoding: Option<&str> = match &req.encoding {
        Some(e) => Some(e.as_str()),
        None => None,
    };
    let bytes = match decode_payload(req.data.as_str(), encoding, kind) {
        Ok(b) => b,
        Err(e) => return Err(e),
    };
    if kind == JobKind::Pdf {
        if platform == Platform::Windows {
            if bytes.len() < 8 || !(bytes[0] == 0x25 && bytes[1] == 0x50 && bytes[2] == 0x44 && bytes[3]
                == 0x46) {
                proof {
                    if bytes@.len() >= 8 {
                        if bytes@.take(4) == pdf_magic() {
                            assert(bytes@.take(4)[0] == 0x25u8);
                            assert(bytes@.take(4)[1] == 0x50u8);
                            assert(bytes@.take(4)[2] == 0x44u8);
                            assert(bytes@.take(4)[3] == 0x46u8);
                        }
                    }
                }
                return Err(PrintError::NotPdf);
            }
            proof {
                assert(bytes@.take(4) =~= pdf_magic());
            }
        } else if bytes.len() == 0 {
            return Err(PrintError::NothingToPrint);
        }
        return Ok(PrintPlan::Pdf { bytes });
    }
    if bytes.len() == 0 {
        if platform == Platform::MacOs {
            return Err(PrintError::NothingToPrint);
        }
        return Err(PrintError::EmptyRawPayload);
    }
    Ok(PrintPlan::Raw { bytes, open_drawer: platform == Platform::MacOs && open_drawer })
}

/// The characters of an optional `String`.
pub open spec fn opt_string_view(o: Option<String>) -> Option<Seq<char>> {
    match o {
        Some(s) => Some(s@),
        None => None,
    }
}

} // verus!

verus! {

/// The payload of a test print.
#[derive(Debug)]
pub enum TestPrintPlan {
    /// Raw bytes for the spooler (ZPL label or ESC/POS ticket).
    Raw(Vec<u8>),
    /// A PDF page for the printer driver.
    Pdf(Vec<u8>),
}

/// Index of the first listed printer whose id matches `id` ignoring ASCII
/// case, at or after `i`; -1 when there is none.
pub open spec fn first_printer_index(printers: Seq<PrinterInfo>, id: Seq<char>, i: int) -> int
    decreases printers.len() - i,
{
    if i < 0 || i >= printers.len() {
        -1
    } else if lower_all(printers[i].id@) == lower_all(id) {
        i
    } else {
        first_printer_index(printers, id, i + 1)
    }
}

/// Class of the listed printer at index `j`, if there is one.
pub open spec fn listed_class(printers: Seq<PrinterInfo>, j: int) -> Option<Seq<char>> {
    if 0 <= j < printers.len() {
        Some(printers[j].printer_type@)
    } else {
        None
    }
}

/// Decide the test page for a printer: a ZPL label for Zebra printers, the
/// ESC/POS ticket for thermal printers on macOS, a PDF page otherwise. macOS
/// refuses printers that CUPS does not list; Windows treats them as document
/// printers.
pub fn plan_test_print(printer_id: &str, printers: &Vec<PrinterInfo>, platform: Platform) -> (r: Result<
    (String, TestPrintPlan),
    PrintError,
>)
    ensures
        trim(printer_id@).len() == 0 ==> r matches Err(PrintError::NoPrinterSelected),
        trim(printer_id@).len() > 0 ==> {
            let j = first_printer_index(printers@, trim(printer_id@), 0);
            let class = listed_class(printers@, j);
            if j < 0 && platform == Platform::MacOs {
                r matches Err(PrintError::UnknownPrinter(t)) && t@ == trim(printer_id@)
            } else if class == Some("zebra"@) {
                r matches Ok((id, TestPrintPlan::Raw(b))) && id@ == trim(printer_id@) && b@
                    == ZEBRA_TEST_ZPL.spec_bytes()
            } else if class == Some("thermal"@) && platform == Platform::MacOs {
                r matches Ok((id, TestPrintPlan::Raw(b))) && id@ == trim(printer_id@) && b@
                    == THERMAL_TEST_ESCPOS.spec_bytes()
            } else {
                r matches Ok((id, TestPrintPlan::Pdf(b))) && id@ == trim(printer_id@) && b@
                    == MINIMAL_TEST_PDF.spec_bytes()
            }
        },
{
    let id = trimmed_chars(printer_id);
    if id.len() == 0 {
        return Err(PrintError::NoPrinterSelected);
    }
    let wanted = lower_chars(&id);
    let mut j: usize = 0;
    let mut found = false;
    while j < printers.len()
        invariant_except_break
            !found,
            j <= printers@.len(),
            first_printer_index(printers@, id@, j as int) == first_printer_index(printers@, id@, 0),
        invariant
            wanted@ == lower_all(id@),
        ensures
            j <= printers@.len(),
            found ==> j < printers@.len() && first_printer_index(printers@, id@, 0) == j,
            !found ==> first_printer_index(printers@, id@, 0) == -1,
        decreases printers@.len() - j,
    {
        let cand_raw = str_chars(printers[j].id.as_str());
        let cand = lower_chars(&cand_raw);
        if crate::text::chars_eq(&cand, &wanted) {
            found = true;
            break;
        }
        j = j + 1;
    }
    let id_text = string_from_chars(&id);
    if !found {
        if platform == Platform::MacOs {
            return Err(PrintError::UnknownPrinter(id_text));
        }
        return Ok((id_text, TestPrintPlan::Pdf(build_test_pdf())));
    }
    let class = str_chars(printers[j].printer_type.as_str());
    if chars_eq_str(&class, "zebra") {
        return Ok((id_text, TestPrintPlan::Raw(slice_to_vec(zebra_test_zpl().as_bytes()))));
    }
    if platform == Platform::MacOs && chars_eq_str(&class, "thermal") {
        return Ok((id_text, TestPrintPlan::Raw(slice_to_vec(thermal_test_escpos()))));
    }
    Ok((id_text, TestPrintPlan::Pdf(build_test_pdf())))
}

/// The requested printer, or the fallback when the request is blank.
pub open spec fn chosen_printer(requested: Seq<char>, fallback: Option<Seq<char>>) -> Seq<char> {
    if trim(requested).len() == 0 {
        match fallback {
            Some(f) => f,
            None => Seq::empty(),
        }
    } else {
        requested
    }
}

/// The printer a test print goes to: the requested one, or the default when
/// none is requested; `None` when both are blank.
pub fn select_test_printer(requested: &str, fallback: Option<&str>) -> (r: Option<String>)
    ensures
        trim(chosen_printer(requested@, opt_str_view(fallback))).len() == 0 ==> r is None,
        trim(chosen_printer(requested@, opt_str_view(fallback))).len() > 0 ==> (r matches Some(id) && id@
            == chosen_printer(requested@, opt_str_view(fallback))),
{
    let req = trimmed_chars(requested);
    let chosen: Vec<char> = if req.len() == 0 {
        match fallback {
            Some(f) => str_chars(f),
            None => Vec::new(),
        }
    } else {
        str_chars(requested)
    };
    let t = crate::text::trim_chars(&chosen);
    if t.len() == 0 {
        return None;
    }
    Some(string_from_chars(&chosen))
}

} // verus!

verus! {

/// The message of a print error.
pub open spec fn error_text(e: PrintError) -> Seq<char> {
    match e {
        PrintError::UnsupportedType(t) => "unsupported print type '"@ + t@
            + "' (use pdf, html, zpl, escpos, or raw)"@,
        PrintError::InvalidBase64(detail) => detail@,
        PrintError::MissingPrinter => "printer_id is required"@,
        PrintError::EmptyData => "print data is empty"@,
        PrintError::HtmlUnavailable => "HTML printing needs the WebView2 renderer, which exists only on Windows. Send the receipt as 'escpos' (or 'pdf' for a document printer) on macOS."@,
        PrintError::EmptyRawPayload => "empty raw payload"@,
        PrintError::NothingToPrint => "nothing to print"@,
        PrintError::NotPdf => "data is not a PDF document"@,
        PrintError::NoPrinterSelected => "No printer selected"@,
        PrintError::UnknownPrinter(id) => "'"@ + id@
            + "' is not a CUPS printer on this Mac. Add it in System Settings → Printers & Scanners first — a USB device that only shows in `lpinfo -v` has no queue to print to yet."@,
        PrintError::PlatformUnsupported(os) => "Finvoroo Print Agent printing is implemented for Windows. This computer is running "@
            + os@ + "."@,
        PrintError::TestPrintUnsupported => "Test print requires Windows and an installed printer driver."@,
    }
}

impl PrintError {
    /// The human-readable message of the error.
    pub fn message(&self) -> (r: String)
        ensures
            r@ == error_text(*self),
    {
        match self {
            PrintError::UnsupportedType(t) => {
                let mut m = String::from_str("unsupported print type '");
                m.append(t.as_str());
                m.append("' (use pdf, html, zpl, escpos, or raw)");
                m
            },
            PrintError::InvalidBase64(detail) => detail.clone(),
            PrintError::MissingPrinter => String::from_str("printer_id is required"),
            PrintError::EmptyData => String::from_str("print data is empty"),
            PrintError::HtmlUnavailable => String::from_str(
                "HTML printing needs the WebView2 renderer, which exists only on Windows. Send the receipt as 'escpos' (or 'pdf' for a document printer) on macOS.",
            ),
            PrintError::EmptyRawPayload => String::from_str("empty raw payload"),
            PrintError::NothingToPrint => String::from_str("nothing to print"),
            PrintError::NotPdf => String::from_str("data is not a PDF document"),
            PrintError::NoPrinterSelected => String::from_str("No printer selected"),
            PrintError::UnknownPrinter(id) => {
                let mut m = String::from_str("'");
                m.append(id.as_str());
                m.append(
                    "' is not a CUPS printer on this Mac. Add it in System Settings → Printers & Scanners first — a USB device that only shows in `lpinfo -v` has no queue to print to yet.",
                );
                m
            },
            PrintError::PlatformUnsupported(os) => {
                let mut m = String::from_str(
                    "Finvoroo Print Agent printing is implemented for Windows. This computer is running ",
                );
                m.append(os.as_str());
                m.append(".");
                m
            },
            PrintError::TestPrintUnsupported => String::from_str(
                "Test print requires Windows and an installed printer driver.",
            ),
        }
    }
}

} // verus!

verus! {

/// A spooler printer entry as a listed printer; entries without a name are skipped.
pub fn windows_printer_info(name: &str, driver: &str, default_name: &str) -> (r: Option<PrinterInfo>)
    ensures
        name@.len() == 0 ==> r is None,
        name@.len() > 0 ==> (r matches Some(p) && p.id@ == name@ && p.name@ == name@
            && p.system_name@ == name@ && p.default == (default_name@.len() > 0
            && crate::print::macos::eq_ignore_ascii_case(name@, default_name@))
            && (driver@.len() == 0 ==> p.driver is None)
            && (driver@.len() > 0 ==> (p.driver matches Some(d) && d@ == driver@))
            && p.printer_type@ == printer_class(
                printer_hay(name@, if driver@.len() == 0 { None } else { Some(driver@) }),
            )),
{
    if name.is_empty() {
        return None;
    }
    let driver_opt: Option<String> = if driver.is_empty() {
        None
    } else {
        Some(String::from_str(driver))
    };
    let printer_type = if driver.is_empty() {
        classify_printer(name, None)
    } else {
        classify_printer(name, Some(driver))
    };
    let default = !default_name.is_empty() && crate::print::macos::names_match(name, default_name);
    Some(
        PrinterInfo {
            id: String::from_str(name),
            name: String::from_str(name),
            system_name: String::from_str(name),
            default,
            printer_type,
            driver: driver_opt,
        },
    )
}

} // verus!
