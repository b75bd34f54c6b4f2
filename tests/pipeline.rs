use data_generation::config::parse_args;
use data_generation::entities::{Address, PriceList};
use data_generation::generators::gen_price_list;
use data_generation::identities::{resolve_identities, PipelineError, RawMarks, SequenceState};
use data_generation::loader::{copy_statement, load_plan, split_statements};

fn called(v: i64) -> Option<SequenceState> {
    Some(SequenceState { last_value: v, is_called: true })
}

fn raw(v: i64) -> RawMarks {
    RawMarks {
        contract: called(v),
        participant: called(v),
        address: called(v),
        voip_number: called(v),
        price_list: called(v),
        invoice_item: called(v),
        call_record: called(v),
        max_invoice_number: None,
    }
}

#[test]
fn resolves_marks_with_invoice_floor() {
    let ids = resolve_identities(&raw(12)).unwrap();
    assert_eq!(ids.contract, 12);
    assert_eq!(ids.call_record, 12);
    assert_eq!(ids.invoice_number, 97000000);
    let low = RawMarks { max_invoice_number: Some(5), ..raw(0) };
    assert_eq!(resolve_identities(&low).unwrap().invoice_number, 97000000);
    let high = RawMarks { max_invoice_number: Some(97000555), ..raw(0) };
    assert_eq!(resolve_identities(&high).unwrap().invoice_number, 97000555);
}

#[test]
fn missing_sequence_is_reported() {
    let m = RawMarks { address: None, ..raw(1) };
    assert_eq!(resolve_identities(&m), Err(PipelineError::SequenceMissing));
    let both = RawMarks { address: None, contract: called(-1), ..raw(1) };
    assert_eq!(resolve_identities(&both), Err(PipelineError::SequenceMissing));
}

#[test]
fn out_of_range_sequence_is_a_failed_query() {
    let neg = RawMarks { contract: called(-1), ..raw(1) };
    assert_eq!(resolve_identities(&neg), Err(PipelineError::QueryFailed));
    let big = RawMarks { call_record: called(u32::MAX as i64 + 1), ..raw(1) };
    assert_eq!(resolve_identities(&big), Err(PipelineError::QueryFailed));
    let max = RawMarks { call_record: called(u32::MAX as i64), ..raw(1) };
    assert_eq!(resolve_identities(&max).unwrap().call_record, u32::MAX);
}

#[test]
fn copy_statement_names_table_and_sentinel() {
    assert_eq!(
        copy_statement("t(a, b)"),
        "COPY t(a, b) FROM STDIN WITH DELIMITER AS ',' NULL AS 'nul_val'"
    );
}

#[test]
fn splits_constraint_script() {
    assert_eq!(
        split_statements(Some("ALTER A; ALTER B;;")),
        vec!["ALTER A", " ALTER B"]
    );
    assert!(split_statements(None).is_empty());
    assert!(split_statements(Some("")).is_empty());
}

#[test]
fn plans_a_load() {
    let lists: Vec<PriceList> = vec![gen_price_list(1, 49, 30, 60, 20), gen_price_list(2, 420, 10, 1, 1)];
    let plan = load_plan(&lists, Some("DROP X;DROP Y"), None);
    assert_eq!(plan.pre_load, vec!["DROP X", "DROP Y"]);
    assert!(plan.post_load.is_empty());
    assert_eq!(
        plan.copy_statement,
        "COPY price_list(price_list_id, tariffication_first, tariffication_second, price_per_second, phone_country_code) FROM STDIN WITH DELIMITER AS ',' NULL AS 'nul_val'"
    );
    assert_eq!(plan.lines, vec!["1,60,20,30,49\n", "2,1,1,10,420\n"]);
    let empty: Vec<Address> = vec![];
    let plan = load_plan(&empty, None, Some("ADD Z"));
    assert!(plan.lines.is_empty());
    assert_eq!(plan.post_load, vec!["ADD Z"]);
}

fn args(v: &[&str]) -> Vec<String> {
    v.iter().map(|s| s.to_string()).collect()
}

#[test]
fn parses_process_arguments() {
    let c = parse_args(&args(&["gen", "db", "u", "p", "billing", "3", "10"])).unwrap();
    assert_eq!(c.host, "db");
    assert_eq!(c.user, "u");
    assert_eq!(c.password, "p");
    assert_eq!(c.dbname, "billing");
    assert_eq!(c.contract_count, 3);
    assert_eq!(c.calls_count, 10);
}

#[test]
fn refuses_short_or_bad_arguments() {
    assert_eq!(
        parse_args(&args(&["gen", "db", "u", "p", "billing", "3"])).unwrap_err(),
        PipelineError::InvalidArguments
    );
    assert_eq!(
        parse_args(&args(&["gen", "db", "u", "p", "billing", "x", "10"])).unwrap_err(),
        PipelineError::InvalidArguments
    );
    assert_eq!(
        parse_args(&args(&["gen", "db", "u", "p", "billing", "3", ""])).unwrap_err(),
        PipelineError::InvalidArguments
    );
}

#[test]
fn sequence_never_called_has_mark_zero() {
    let fresh = Some(SequenceState { last_value: 1, is_called: false });
    let m = RawMarks { contract: fresh, participant: fresh, ..raw(30) };
    let ids = resolve_identities(&m).unwrap();
    assert_eq!(ids.contract, 0);
    assert_eq!(ids.participant, 0);
    assert_eq!(ids.address, 30);
    let odd = RawMarks { address: Some(SequenceState { last_value: -5, is_called: false }), ..raw(1) };
    assert_eq!(resolve_identities(&odd).unwrap().address, 0);
}
