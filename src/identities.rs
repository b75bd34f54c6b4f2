//! Identifier continuity: the high-water marks that a run continues from.
use vstd::prelude::*;

verus! {

/// Why a run stops.
#[derive(Clone, Copy, Debug, PartialEq, Eq)]
pub enum PipelineError {
    /// The store cannot be reached.
    StoreUnavailable,
    /// An identifier query or a constraint statement failed, or a query gave
    /// a value that no identifier can take.
    QueryFailed,
    /// An identifier sequence has never been initialized.
    SequenceMissing,
    /// The bulk channel could not be opened, written, or finished.
    IngestFailed,
    /// The process parameters are missing or malformed.
    InvalidArguments,
    /// The clock reads a time that generation cannot use.
    ClockOutOfRange,
}

/// The lowest invoice number that a run continues from.
pub const INVOICE_NUMBER_FLOOR: u64 = 97000000;

/// What the store reports of one identifier sequence: its last value, and
/// whether that value has been handed out yet.
#[derive(Clone, Copy, Debug)]
pub struct SequenceState {
    pub last_value: i64,
    pub is_called: bool,
}

/// What the store reports: the state of each identifier sequence, or `None`
/// for a sequence that is not there, and the largest invoice number issued,
/// or `None` when there is none.
#[derive(Clone, Copy, Debug)]
pub struct RawMarks {
    pub contract: Option<SequenceState>,
    pub participant: Option<SequenceState>,
    pub address: Option<SequenceState>,
    pub voip_number: Option<SequenceState>,
    pub price_list: Option<SequenceState>,
    pub invoice_item: Option<SequenceState>,
    pub call_record: Option<SequenceState>,
    pub max_invoice_number: Option<i64>,
}

/// The high-water mark of a sequence: its last value once handed out, and
/// zero for a sequence that has never been called.
pub open spec fn mark_value(s: SequenceState) -> int {
    if s.is_called {
        s.last_value as int
    } else {
        0
    }
}

/// The high-water mark of each identifier domain: generated rows take the
/// values above them.
#[derive(Clone, Copy, Debug, PartialEq, Eq)]
pub struct Identities {
    pub contract: u32,
    pub participant: u32,
    pub address: u32,
    pub voip_number: u32,
    pub price_list: u32,
    pub invoice_item: u32,
    pub call_record: u32,
    pub invoice_number: u64,
}

/// Whether every identifier sequence was reported.
pub open spec fn all_present(raw: RawMarks) -> bool {
    &&& raw.contract.is_some()
    &&& raw.participant.is_some()
    &&& raw.address.is_some()
    &&& raw.voip_number.is_some()
    &&& raw.price_list.is_some()
    &&& raw.invoice_item.is_some()
    &&& raw.call_record.is_some()
}

/// Whether a reported sequence's mark can be an identifier.
pub open spec fn fits(v: Option<SequenceState>) -> bool {
    v.is_some() && 0 <= mark_value(v.unwrap()) <= u32::MAX
}

/// Whether every identifier sequence value can be an identifier.
pub open spec fn all_fit(raw: RawMarks) -> bool {
    &&& fits(raw.contract)
    &&& fits(raw.participant)
    &&& fits(raw.address)
    &&& fits(raw.voip_number)
    &&& fits(raw.price_list)
    &&& fits(raw.invoice_item)
    &&& fits(raw.call_record)
}

/// The invoice number a run continues from: the largest issued, but never
/// below the floor.
pub open spec fn invoice_base(max_issued: Option<i64>) -> int {
    match max_issued {
        Some(n) => if n < INVOICE_NUMBER_FLOOR {
            INVOICE_NUMBER_FLOOR as int
        } else {
            n as int
        },
        None => INVOICE_NUMBER_FLOOR as int,
    }
}

fn sequence_value(v: Option<SequenceState>) -> (r: Result<u32, PipelineError>)
    ensures
        v.is_none() <==> r == Err::<u32, PipelineError>(PipelineError::SequenceMissing),
        (v.is_some() && !fits(v)) <==> r == Err::<u32, PipelineError>(PipelineError::QueryFailed),
        fits(v) <==> r.is_ok(),
        r.is_ok() ==> r.unwrap() == mark_value(v.unwrap()),
{
    match v {
        None => Err(PipelineError::SequenceMissing),
        Some(s) => if !s.is_called {
            Ok(0)
        } else if 0 <= s.last_value && s.last_value <= u32::MAX as i64 {
            Ok(s.last_value as u32)
        } else {
            Err(PipelineError::QueryFailed)
        },
    }
}

/// Turns what the store reported into high-water marks. A missing sequence
/// is `SequenceMissing`; otherwise a mark that no identifier can take is
/// `QueryFailed`. A sequence never called has mark zero; the invoice number
/// is raised to the floor.
pub fn resolve_identities(raw: &RawMarks) -> (r: Result<Identities, PipelineError>)
    ensures
        !all_present(*raw) <==> r == Err::<Identities, PipelineError>(
            PipelineError::SequenceMissing,
        ),
        (all_present(*raw) && !all_fit(*raw)) <==> r == Err::<Identities, PipelineError>(
            PipelineError::QueryFailed,
        ),
        all_fit(*raw) <==> r.is_ok(),
        r.is_ok() ==> {
            let ids = r.unwrap();
            &&& ids.contract == mark_value(raw.contract.unwrap())
            &&& ids.participant == mark_value(raw.participant.unwrap())
            &&& ids.address == mark_value(raw.address.unwrap())
            &&& ids.voip_number == mark_value(raw.voip_number.unwrap())
            &&& ids.price_list == mark_value(raw.price_list.unwrap())
            &&& ids.invoice_item == mark_value(raw.invoice_item.unwrap())
            &&& ids.call_record == mark_value(raw.call_record.unwrap())
            &&& ids.invoice_number == invoice_base(raw.max_invoice_number)
        },
{
    if !(raw.contract.is_some() && raw.participant.is_some() && raw.address.is_some()
        && raw.voip_number.is_some() && raw.price_list.is_some() && raw.invoice_item.is_some()
        && raw.call_record.is_some()) {
        return Err(PipelineError::SequenceMissing);
    }
    let contract = match sequence_value(raw.contract) {
        Ok(v) => v,
        Err(e) => return Err(e),
    };
    let participant = match sequence_value(raw.participant) {
        Ok(v) => v,
        Err(e) => return Err(e),
    };
    let address = match sequence_value(raw.address) {
        Ok(v) => v,
        Err(e) => return Err(e),
    };
    let voip_number = match sequence_value(raw.voip_number) {
        Ok(v) => v,
        Err(e) => return Err(e),
    };
    let price_list = match sequence_value(raw.price_list) {
        Ok(v) => v,
        Err(e) => return Err(e),
    };
    let invoice_item = match sequence_value(raw.invoice_item) {
        Ok(v) => v,
        Err(e) => return Err(e),
    };
    let call_record = match sequence_value(raw.call_record) {
        Ok(v) => v,
        Err(e) => return Err(e),
    };
    let invoice_number: u64 = match raw.max_invoice_number {
        Some(n) => if n < INVOICE_NUMBER_FLOOR as i64 {
            INVOICE_NUMBER_FLOOR
        } else {
            n as u64
        },
        None => INVOICE_NUMBER_FLOOR,
    };
    Ok(
        Identities {
            contract,
            participant,
            address,
            voip_number,
            price_list,
            invoice_item,
            call_record,
            invoice_number,
        },
    )
}

} // verus!
