//! The backend of systems without a print spooler integration: the HTTP API
//! and settings still run, printing reports that it is unavailable.

use vstd::prelude::*;
use crate::print::{job_type_key, spec_job_kind, JobKind, PrintError, PrintRequest, PrinterInfo};

verus! {

/// No printers are listed.
pub fn list_printers() -> (r: Result<Vec<PrinterInfo>, PrintError>)
    ensures
        r matches Ok(v) && v@.len() == 0,
{
    Ok(Vec::new())
}

/// There is no HTML renderer to start.
pub fn init_html_engine() -> (r: Result<(), PrintError>)
    ensures
        r is Ok,
{
    Ok(())
}

/// There is no HTML renderer to warm up.
pub fn prewarm_html_engine(_paper_mm: u32) -> (r: Result<(), PrintError>)
    ensures
        r is Ok,
{
    Ok(())
}

/// The job type is still checked; then printing is refused, naming the system.
pub fn print_job(req: &PrintRequest, os_name: &str) -> (r: Result<(), PrintError>)
    ensures
        spec_job_kind(job_type_key(req.job_type@)) is None ==> (r matches Err(
            PrintError::UnsupportedType(t),
        ) && t@ == job_type_key(req.job_type@)),
        spec_job_kind(job_type_key(req.job_type@)) is Some ==> (r matches Err(
            PrintError::PlatformUnsupported(os),
        ) && os@ == os_name@),
{
    match JobKind::parse(req.job_type.as_str()) {
        Err(e) => Err(e),
        Ok(_) => Err(PrintError::PlatformUnsupported(String::from_str(os_name))),
    }
}

/// Test printing is refused.
pub fn test_print(_printer_id: &str) -> (r: Result<(), PrintError>)
    ensures
        r matches Err(PrintError::TestPrintUnsupported),
{
    Err(PrintError::TestPrintUnsupported)
}

} // verus!
