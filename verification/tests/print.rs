use finvoroo_print_agent::print::stub;
use finvoroo_print_agent::print::{
    base64_payload_text, build_test_pdf, classify_printer, decode_payload, plan_print_job, plan_test_print,
    select_test_printer, thermal_test_escpos, windows_printer_info, zebra_test_zpl, JobKind, Platform, PrintError,
    PrintOptions, PrintPlan, PrintRequest, PrinterInfo, TestPrintPlan,
};

#[test]
fn job_kind_aliases() {
    assert_eq!(JobKind::parse("pdf").unwrap(), JobKind::Pdf);
    assert_eq!(JobKind::parse("ZPL").unwrap(), JobKind::Zpl);
    assert_eq!(JobKind::parse("raw").unwrap(), JobKind::Raw);
    assert_eq!(JobKind::parse("escpos").unwrap(), JobKind::EscPos);
    assert_eq!(JobKind::parse("esc/pos").unwrap(), JobKind::EscPos);
    assert_eq!(JobKind::parse("html").unwrap(), JobKind::Html);
    assert!(JobKind::parse("shell").is_err());
    assert!(JobKind::EscPos.is_raw_spooler());
    assert!(!JobKind::Pdf.is_raw_spooler());
}

#[test]
fn decode_plain_zpl() {
    let bytes = decode_payload("^XA^XZ", Some("plain"), JobKind::Zpl).unwrap();
    assert_eq!(bytes, b"^XA^XZ");
}

#[test]
fn decode_base64_escpos() {
    let encoded = base64::Engine::encode(&base64::engine::general_purpose::STANDARD, b"\x1b@");
    let bytes = decode_payload(&encoded, Some("base64"), JobKind::EscPos).unwrap();
    assert_eq!(bytes, b"\x1b@");
}

#[test]
fn classify_does_not_hardcode_only_gk420d() {
    assert_eq!(classify_printer("HP LaserJet", None), "windows");
    assert_eq!(classify_printer("Zebra ZD421", Some("ZDesigner")), "zebra");
    assert_eq!(classify_printer("EPSON TM-T20", None), "thermal");
    assert_eq!(classify_printer("BC-95AC", Some("BIXOLON")), "thermal");
}

// ---- further cases ----------------------------------------------------------

fn request(printer: &str, kind: &str, data: &str, encoding: Option<&str>) -> PrintRequest {
    PrintRequest {
        printer_id: printer.to_string(),
        job_type: kind.to_string(),
        data: data.to_string(),
        encoding: encoding.map(|e| e.to_string()),
        options: None,
    }
}

#[test]
fn unsupported_type_keeps_the_normalised_name() {
    match JobKind::parse("  SHELL ") {
        Err(PrintError::UnsupportedType(t)) => assert_eq!(t, "shell"),
        other => panic!("unexpected {other:?}"),
    }
    assert_eq!(
        JobKind::parse("Shell").unwrap_err().message(),
        "unsupported print type 'shell' (use pdf, html, zpl, escpos, or raw)"
    );
    assert_eq!(JobKind::parse(" ESC-POS ").unwrap(), JobKind::EscPos);
}

#[test]
fn pdf_without_header_is_read_as_base64() {
    let encoded = base64::Engine::encode(&base64::engine::general_purpose::STANDARD, b"%PDF-1.4 x");
    let bytes = decode_payload(&format!("data:application/pdf;base64,{encoded}"), None, JobKind::Pdf).unwrap();
    assert_eq!(bytes, b"%PDF-1.4 x");
    let bytes = decode_payload("%PDF-1.4 raw", None, JobKind::Pdf).unwrap();
    assert_eq!(bytes, b"%PDF-1.4 raw");
}

#[test]
fn base64_ignores_whitespace_and_reports_bad_input() {
    let bytes = decode_payload(" G0 A\n=", Some(" BASE64 "), JobKind::Raw).unwrap();
    assert_eq!(bytes, b"\x1b@");
    assert!(matches!(decode_payload("***", Some("base64"), JobKind::Raw), Err(PrintError::InvalidBase64(_))));
    assert_eq!(base64_payload_text("a b", Some("base64"), JobKind::Raw).as_deref(), Some("ab"));
    assert_eq!(base64_payload_text("a b", None, JobKind::Raw), None);
}

#[test]
fn zebra_wins_over_thermal_words() {
    assert_eq!(classify_printer("Zebra receipt", None), "zebra");
    assert_eq!(classify_printer("Star TSP", None), "thermal");
    assert_eq!(classify_printer("POS80", Some("generic")), "thermal");
}

#[test]
fn test_payloads_are_the_fixed_documents() {
    assert!(zebra_test_zpl().starts_with("^XA"));
    assert!(zebra_test_zpl().ends_with("^XZ\r\n"));
    assert!(thermal_test_escpos().starts_with(b"\x1b@"));
    assert!(thermal_test_escpos().ends_with(b"\x1dVA\x00"));
    let pdf = build_test_pdf();
    assert!(pdf.starts_with(b"%PDF-1.4"));
    assert!(pdf.ends_with(b"%%EOF\n"));
}

#[test]
fn print_plans_check_fields_in_order() {
    assert!(matches!(plan_print_job(&request(" ", "pdf", "x", None), Platform::Windows), Err(PrintError::MissingPrinter)));
    assert!(matches!(plan_print_job(&request("P", "pdf", " ", None), Platform::Windows), Err(PrintError::EmptyData)));
    assert!(matches!(
        plan_print_job(&request("P", "shell", "x", None), Platform::Windows),
        Err(PrintError::UnsupportedType(_))
    ));
}

#[test]
fn html_prints_only_on_windows() {
    let mut req = request("POS 80", "html", "<html></html>", Some("plain"));
    req.options = Some(PrintOptions { paper_mm: Some(58), open_drawer: Some(true) });
    match plan_print_job(&req, Platform::Windows) {
        Ok(PrintPlan::Html { html, paper_mm, open_drawer }) => {
            assert_eq!(html, "<html></html>");
            assert_eq!(paper_mm, 58);
            assert!(open_drawer);
        }
        other => panic!("unexpected {other:?}"),
    }
    assert!(matches!(plan_print_job(&req, Platform::MacOs), Err(PrintError::HtmlUnavailable)));
}

#[test]
fn raw_plans_pulse_the_drawer_only_through_lp() {
    let mut req = request("POS", "escpos", "G0A=", Some("base64"));
    req.options = Some(PrintOptions { paper_mm: None, open_drawer: Some(true) });
    match plan_print_job(&req, Platform::MacOs) {
        Ok(PrintPlan::Raw { bytes, open_drawer }) => {
            assert_eq!(bytes, b"\x1b@");
            assert!(open_drawer);
        }
        other => panic!("unexpected {other:?}"),
    }
    match plan_print_job(&req, Platform::Windows) {
        Ok(PrintPlan::Raw { open_drawer, .. }) => assert!(!open_drawer),
        other => panic!("unexpected {other:?}"),
    }
    let empty = request("POS", "raw", "", Some("base64"));
    assert!(matches!(plan_print_job(&empty, Platform::Windows), Err(PrintError::EmptyData)));
}

#[test]
fn windows_pdf_jobs_need_a_pdf_header() {
    let req = request("Office", "pdf", "%PDF-1.4 hello", None);
    assert!(matches!(plan_print_job(&req, Platform::Windows), Ok(PrintPlan::Pdf { .. })));
    let encoded = base64::Engine::encode(&base64::engine::general_purpose::STANDARD, b"hello world");
    let req = request("Office", "pdf", &encoded, None);
    assert!(matches!(plan_print_job(&req, Platform::Windows), Err(PrintError::NotPdf)));
    assert!(matches!(plan_print_job(&req, Platform::MacOs), Ok(PrintPlan::Pdf { .. })));
}

fn printer(id: &str, class: &str) -> PrinterInfo {
    PrinterInfo {
        id: id.to_string(),
        name: id.to_string(),
        system_name: id.to_string(),
        default: false,
        printer_type: class.to_string(),
        driver: None,
    }
}

#[test]
fn test_print_picks_the_page_by_printer_class() {
    let printers = vec![printer("Zebra", "zebra"), printer("POS", "thermal"), printer("Office", "windows")];
    match plan_test_print(" zebra ", &printers, Platform::Windows) {
        Ok((id, TestPrintPlan::Raw(b))) => {
            assert_eq!(id, "zebra");
            assert_eq!(b, zebra_test_zpl().as_bytes());
        }
        other => panic!("unexpected {other:?}"),
    }
    assert!(matches!(plan_test_print("POS", &printers, Platform::Windows), Ok((_, TestPrintPlan::Pdf(_)))));
    match plan_test_print("pos", &printers, Platform::MacOs) {
        Ok((_, TestPrintPlan::Raw(b))) => assert_eq!(b, thermal_test_escpos()),
        other => panic!("unexpected {other:?}"),
    }
    assert!(matches!(plan_test_print("Unknown", &printers, Platform::Windows), Ok((_, TestPrintPlan::Pdf(_)))));
    assert!(matches!(plan_test_print("Unknown", &printers, Platform::MacOs), Err(PrintError::UnknownPrinter(_))));
    assert!(matches!(plan_test_print("  ", &printers, Platform::MacOs), Err(PrintError::NoPrinterSelected)));
}

#[test]
fn test_print_falls_back_to_the_default_printer() {
    assert_eq!(select_test_printer("", Some("POS 80")).as_deref(), Some("POS 80"));
    assert_eq!(select_test_printer("Office", Some("POS 80")).as_deref(), Some("Office"));
    assert_eq!(select_test_printer(" ", None), None);
    assert_eq!(select_test_printer("", Some("  ")), None);
}

#[test]
fn spooler_entries_become_listed_printers() {
    let p = windows_printer_info("ZDesigner GK420d", "ZDesigner GK420d (EPL)", "zdesigner gk420d").unwrap();
    assert_eq!(p.id, "ZDesigner GK420d");
    assert!(p.default);
    assert_eq!(p.printer_type, "zebra");
    assert_eq!(p.driver.as_deref(), Some("ZDesigner GK420d (EPL)"));
    let p = windows_printer_info("Microsoft Print to PDF", "", "").unwrap();
    assert_eq!(p.driver, None);
    assert!(!p.default);
    assert!(windows_printer_info("", "x", "").is_none());
}

#[test]
fn the_stub_backend_refuses_to_print() {
    assert!(stub::list_printers().unwrap().is_empty());
    assert!(stub::init_html_engine().is_ok());
    assert!(stub::prewarm_html_engine(80).is_ok());
    let req = request("P", "pdf", "x", None);
    match stub::print_job(&req, "linux") {
        Err(e) => assert_eq!(
            e.message(),
            "Finvoroo Print Agent printing is implemented for Windows. This computer is running linux."
        ),
        Ok(()) => panic!("the stub printed"),
    }
    assert!(matches!(stub::print_job(&request("P", "bogus", "x", None), "linux"), Err(PrintError::UnsupportedType(_))));
    assert_eq!(stub::test_print("P").unwrap_err().message(), "Test print requires Windows and an installed printer driver.");
}
