use finvoroo_print_agent::print::macos::drawer_job_after;
use finvoroo_print_agent::print::macos::{
    cups_printer_info, lpoptions_value, open_cash_drawer, parse_lpstat_default, parse_lpstat_default_line,
    parse_lpstat_device_line, parse_lpstat_devices, print_pdf, print_raw,
};
use finvoroo_print_agent::print::{classify_printer, JobKind, PrintError};

#[test]
fn parses_the_usb_thermal_queue() {
    let (name, uri) =
        parse_lpstat_device_line("device for BC-96AC: usb://Xprinter/USB%20Printer%20P?location=14110000").unwrap();
    assert_eq!(name, "BC-96AC");
    assert_eq!(uri, "usb://Xprinter/USB%20Printer%20P?location=14110000");
}

#[test]
fn parses_other_backends_too() {
    let (name, uri) = parse_lpstat_device_line("device for Office_HP: ipp://192.168.1.50/ipp/print").unwrap();
    assert_eq!(name, "Office_HP");
    assert_eq!(uri, "ipp://192.168.1.50/ipp/print");

    let (name, _) = parse_lpstat_device_line("device for Zebra_ZD421: usb://Zebra/ZD421").unwrap();
    assert_eq!(name, "Zebra_ZD421");
}

#[test]
fn ignores_lines_that_are_not_devices() {
    assert!(parse_lpstat_device_line("printer BC-96AC is idle.").is_none());
    assert!(parse_lpstat_device_line("").is_none());
    assert!(parse_lpstat_device_line("device for : usb://x").is_none());
}

#[test]
fn reads_the_default_destination() {
    assert_eq!(parse_lpstat_default_line("system default destination: BC-96AC").unwrap(), "BC-96AC");
    assert!(parse_lpstat_default_line("no system default destination").is_none());
}

#[test]
fn reads_quoted_and_bare_lpoptions_values() {
    let line = "copies=1 device-uri=usb://Xprinter/USB%20Printer%20P \
                printer-info='Black Copper BC-96AC' printer-is-shared=false \
                printer-make-and-model='Xprinter USB Printer P'";
    assert_eq!(lpoptions_value(line, "printer-info").unwrap(), "Black Copper BC-96AC");
    assert_eq!(lpoptions_value(line, "printer-make-and-model").unwrap(), "Xprinter USB Printer P");
    assert_eq!(lpoptions_value(line, "copies").unwrap(), "1");
    assert!(lpoptions_value(line, "not-present").is_none());
}

#[test]
fn the_usb_thermal_printer_classifies_as_thermal() {
    let hint = "BC-96AC usb://Xprinter/USB%20Printer%20P?location=14110000";
    assert_eq!(classify_printer(hint, None), "thermal");
    assert_eq!(classify_printer("BC-96AC", Some("Xprinter USB Printer P")), "thermal");
}

#[test]
fn raw_job_kinds_still_take_the_raw_path() {
    assert!(JobKind::EscPos.is_raw_spooler());
    assert!(JobKind::Raw.is_raw_spooler());
    assert!(JobKind::Zpl.is_raw_spooler());
    assert!(!JobKind::Pdf.is_raw_spooler());
}

// ---- further cases ----------------------------------------------------------

#[test]
fn device_lines_split_at_the_first_colon_and_trim() {
    let (name, uri) = parse_lpstat_device_line("  device for  Q1 : ipp://h:631/x  ").unwrap();
    assert_eq!(name, "Q1");
    assert_eq!(uri, "ipp://h:631/x");
    assert!(parse_lpstat_device_line("device for no-colon").is_none());
}

#[test]
fn lpstat_output_is_read_line_by_line() {
    let out = "device for A: usb://a\nnot a device\ndevice for B: ipp://b\n";
    assert_eq!(
        parse_lpstat_devices(out),
        vec![("A".to_string(), "usb://a".to_string()), ("B".to_string(), "ipp://b".to_string())]
    );
    assert_eq!(parse_lpstat_default("no system default destination\nsystem default destination: B\n"), "B");
    assert_eq!(parse_lpstat_default(""), "");
}

#[test]
fn quoted_lpoptions_value_without_closing_quote_runs_to_the_end() {
    assert_eq!(lpoptions_value("printer-info='Open ended", "printer-info").as_deref(), Some("Open ended"));
    assert_eq!(lpoptions_value("printer-info=''", "printer-info"), None);
}

#[test]
fn queue_info_prefers_make_and_model_then_uri() {
    let p = cups_printer_info("BC-96AC", "usb://Xprinter/x", Some("Front till"), Some("  "), "bc-96ac");
    assert_eq!(p.id, "BC-96AC");
    assert_eq!(p.name, "Front till");
    assert_eq!(p.system_name, "BC-96AC");
    assert!(p.default);
    assert_eq!(p.driver.as_deref(), Some("usb://Xprinter/x"));
    assert_eq!(p.printer_type, "thermal");

    let p = cups_printer_info("Office", "", None, Some("HP LaserJet"), "");
    assert_eq!(p.name, "Office");
    assert!(!p.default);
    assert_eq!(p.driver.as_deref(), Some("HP LaserJet"));
    assert_eq!(p.printer_type, "windows");

    let p = cups_printer_info("Bare", "", None, None, "Other");
    assert_eq!(p.driver, None);
}

#[test]
fn lp_jobs_carry_the_destination_and_raw_flag() {
    let job = print_raw("BC-96AC", &[1, 2, 3]).unwrap();
    assert_eq!(job.args, vec!["-d", "BC-96AC", "-t", "Finvoroo", "-o", "raw"]);
    assert_eq!(job.payload, vec![1, 2, 3]);
    let job = print_pdf("Office", b"%PDF-1.4").unwrap();
    assert_eq!(job.args, vec!["-d", "Office", "-t", "Finvoroo"]);
    assert!(matches!(print_raw("BC-96AC", &[]), Err(PrintError::NothingToPrint)));
    assert!(matches!(print_pdf("Office", &[]), Err(PrintError::NothingToPrint)));
    let drawer = open_cash_drawer("BC-96AC");
    assert_eq!(drawer.payload, vec![0x1b, 0x70, 0x00, 0x19, 0xfa]);
}

#[test]
fn the_drawer_pulses_only_after_a_printed_raw_job() {
    let job = drawer_job_after("POS", true, true).unwrap();
    assert_eq!(job.args, vec!["-d", "POS", "-t", "Finvoroo", "-o", "raw"]);
    assert_eq!(job.payload, vec![0x1b, 0x70, 0x00, 0x19, 0xfa]);
    assert!(drawer_job_after("POS", true, false).is_none());
    assert!(drawer_job_after("POS", false, true).is_none());
}
