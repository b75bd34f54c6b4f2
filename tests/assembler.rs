use std::collections::HashSet;

use data_generation::assembler::{assemble, check_counts, dataset_at, generate_dataset, Dataset};
use data_generation::codec::{encode_row, parse_rows};
use data_generation::entities::{CommaDelimited, SqlInsert};
use data_generation::loader::load_plan;
use data_generation::clock::{Timestamp, WINDOW_START};
use data_generation::entities::NumberOwner;
use data_generation::identities::{Identities, PipelineError};

const NOW: Timestamp = Timestamp { seconds: 1700000000 };

fn zero_marks() -> Identities {
    Identities {
        contract: 0,
        participant: 0,
        address: 0,
        voip_number: 0,
        price_list: 0,
        invoice_item: 0,
        call_record: 0,
        invoice_number: 97000000,
    }
}

fn check_dataset(d: &Dataset, m: &Identities, contracts: usize, calls: usize) {
    assert_eq!(d.contracts.len(), contracts);
    for (i, c) in d.contracts.iter().enumerate() {
        assert_eq!(c.contract_id, Some(m.contract + i as u32 + 1));
        assert_eq!(c.variable_symbol, 100001 + i as i32);
        assert_eq!(c.vat_identification_number.is_some(), c.identification_number.is_some());
    }
    let contract_ids: HashSet<u32> = d.contracts.iter().map(|c| c.contract_id.unwrap()).collect();
    assert_eq!(d.addresses.len(), contracts);
    for (i, a) in d.addresses.iter().enumerate() {
        assert_eq!(a.address_id, Some(m.address + i as u32 + 1));
        assert_eq!(Some(a.contract_id), d.contracts[i].contract_id);
    }
    assert!(contracts <= d.participants.len() && d.participants.len() <= 4 * contracts);
    for c in &contract_ids {
        let n = d.participants.iter().filter(|p| p.contract_id == *c).count();
        assert!((1..=4).contains(&n));
    }
    for (j, p) in d.participants.iter().enumerate() {
        assert_eq!(p.participant_id, Some(m.participant + j as u32 + 1));
        assert!(contract_ids.contains(&p.contract_id));
    }
    let participant_ids: HashSet<u32> =
        d.participants.iter().map(|p| p.participant_id.unwrap()).collect();
    let requested: HashSet<u32> = d.number_requests.iter().map(|r| r.number_id).collect();
    let unassigned = d
        .voip_numbers
        .iter()
        .filter(|v| v.participant_id == NumberOwner::Unassigned)
        .count();
    assert_eq!(unassigned, d.number_requests.len());
    assert!(d.voip_numbers.len() - unassigned >= d.participants.len());
    assert!(d.voip_numbers.len() - unassigned <= 4 * d.participants.len());
    for (k, v) in d.voip_numbers.iter().enumerate() {
        let id = m.voip_number + k as u32 + 1;
        assert_eq!(v.number_id, Some(id));
        match v.participant_id {
            NumberOwner::Assigned(p) => assert!(participant_ids.contains(&p)),
            NumberOwner::Unassigned => assert!(requested.contains(&id)),
        }
        assert!(WINDOW_START <= v.activated.seconds && v.activated.seconds < d.generated_at.seconds);
        if let Some(q) = v.quarantine_until {
            assert!(WINDOW_START <= q.seconds && q.seconds < d.generated_at.seconds);
        }
    }
    for r in &d.number_requests {
        assert!(participant_ids.contains(&r.participant_id));
    }
    assert_eq!(d.price_lists.len(), 5);
    let codes: Vec<u16> = d.price_lists.iter().map(|p| p.phone_country_code).collect();
    assert_eq!(codes, vec![49, 420, 421, 48, 43]);
    for (i, p) in d.price_lists.iter().enumerate() {
        assert_eq!(p.price_list_id, Some(m.price_list + i as u32 + 1));
    }
    assert_eq!(d.calls.len(), calls);
    for (n, c) in d.calls.iter().enumerate() {
        assert_eq!(c.call_id, Some(m.call_record + n as u32 + 1));
        let number = d
            .voip_numbers
            .iter()
            .find(|v| v.number_id == Some(c.number_id))
            .expect("call of a generated number");
        let known = if c.incoming_outgoing { &c.destination_num } else { &c.source_num };
        assert_eq!(*known, number.number.to_string());
        assert!(d.price_lists.iter().any(|p| p.price_list_id == c.price_list_id));
    }
    assert_eq!(d.invoice_items.len(), 6);
    let names: Vec<&str> = d.invoice_items.iter().map(|i| i.item_name.as_str()).collect();
    assert_eq!(
        names,
        vec!["Calls", "Phone 3CX", "Phone 4G", "Phone 10L", "Phone cable", "Phone 787FU"]
    );
    for c in &contract_ids {
        let n = d.invoices.iter().filter(|i| i.contract_id == *c).count();
        assert!(n <= 6);
    }
    for (k, inv) in d.invoices.iter().enumerate() {
        assert_eq!(inv.invoice_number, m.invoice_number + k as u64 + 1);
        assert!(contract_ids.contains(&inv.contract_id));
        assert_eq!(inv.maturity.seconds, inv.created_at.seconds + 14 * 86400);
        let lines: Vec<_> = d
            .invoice_lines
            .iter()
            .filter(|l| l.invoice_number == inv.invoice_number)
            .collect();
        assert!((1..=2).contains(&lines.len()));
        let ids: HashSet<u32> = lines.iter().map(|l| l.invoice_item_id).collect();
        assert_eq!(ids.len(), lines.len());
        let sum: u64 = lines.iter().map(|l| l.item_unit_cost as u64 * l.item_count as u64).sum();
        assert_eq!(sum, inv.amount);
        for l in &lines {
            let item = d
                .invoice_items
                .iter()
                .find(|i| i.item_id == Some(l.invoice_item_id))
                .expect("line of a catalog item");
            assert_eq!(item.unit_cost, l.item_unit_cost);
            assert_eq!(l.item_count, 1);
        }
    }
}

#[test]
fn three_contracts_ten_calls_from_zero_marks() {
    let m = zero_marks();
    for _ in 0..50 {
        let d = generate_dataset(&m, 3, 10).expect("a run of this size fits");
        check_dataset(&d, &m, 3, 10);
        let ids: Vec<u32> = d.contracts.iter().map(|c| c.contract_id.unwrap()).collect();
        assert_eq!(ids, vec![1, 2, 3]);
        let vs: Vec<i32> = d.contracts.iter().map(|c| c.variable_symbol).collect();
        assert_eq!(vs, vec![100001, 100002, 100003]);
        assert!((3..=12).contains(&d.participants.len()));
        let assigned = d
            .voip_numbers
            .iter()
            .filter(|v| v.participant_id != NumberOwner::Unassigned)
            .count();
        assert!((3..=48).contains(&assigned));
    }
}

#[test]
fn identifiers_continue_from_marks() {
    let m = Identities {
        contract: 41,
        participant: 500,
        address: 7,
        voip_number: 1000,
        price_list: 10,
        invoice_item: 60,
        call_record: 99,
        invoice_number: 97000123,
    };
    let d = assemble(&m, 5, 20, NOW);
    check_dataset(&d, &m, 5, 20);
    assert_eq!(d.contracts[0].contract_id, Some(42));
    assert_eq!(d.contracts[4].contract_id, Some(46));
    assert_eq!(d.addresses[0].address_id, Some(8));
    assert_eq!(d.participants[0].participant_id, Some(501));
    assert_eq!(d.voip_numbers[0].number_id, Some(1001));
    assert_eq!(d.price_lists[0].price_list_id, Some(11));
    assert_eq!(d.calls[0].call_id, Some(100));
    assert_eq!(d.invoice_items[0].item_id, Some(61));
    if let Some(inv) = d.invoices.first() {
        assert_eq!(inv.invoice_number, 97000124);
    }
}

#[test]
fn invoice_lines_never_repeat_an_item() {
    let m = zero_marks();
    for _ in 0..20 {
        let d = assemble(&m, 40, 0, NOW);
        check_dataset(&d, &m, 40, 0);
    }
}

#[test]
fn empty_run() {
    let d = assemble(&zero_marks(), 0, 0, NOW);
    assert!(d.contracts.is_empty());
    assert!(d.participants.is_empty());
    assert!(d.voip_numbers.is_empty());
    assert_eq!(d.price_lists.len(), 5);
    assert_eq!(d.invoice_items.len(), 6);
    assert!(d.invoices.is_empty());
}

#[test]
fn sizes_that_do_not_fit_are_refused() {
    let m = zero_marks();
    assert!(check_counts(&m, 3, 10));
    assert!(!check_counts(&m, 0, 1));
    let full = Identities { contract: u32::MAX - 2, ..m };
    assert!(!check_counts(&full, 3, 0));
    assert!(check_counts(&full, 2, 0));
    let numbers = Identities { voip_number: u32::MAX - 20, ..m };
    assert!(check_counts(&numbers, 1, 0));
    assert!(!check_counts(&numbers, 2, 0));
    assert_eq!(
        generate_dataset(&m, 0, 1).unwrap_err(),
        PipelineError::InvalidArguments
    );
}

fn round_trip<T: SqlInsert + CommaDelimited>(collection: &Vec<T>, columns: usize) {
    let plan = load_plan(collection, None, None);
    assert_eq!(plan.lines.len(), collection.len());
    let text: String = plan.lines.concat();
    let rows = parse_rows(&text);
    assert_eq!(rows.len(), collection.len());
    for (row, line) in rows.iter().zip(plan.lines.iter()) {
        assert_eq!(row.len(), columns);
        assert_eq!(encode_row(row), *line);
    }
}

#[test]
fn generated_collections_survive_the_bulk_format() {
    let d = assemble(&zero_marks(), 10, 30, NOW);
    round_trip(&d.contracts, 10);
    round_trip(&d.addresses, 7);
    round_trip(&d.participants, 7);
    round_trip(&d.voip_numbers, 10);
    round_trip(&d.number_requests, 3);
    round_trip(&d.price_lists, 5);
    round_trip(&d.calls, 9);
    round_trip(&d.invoice_items, 3);
    round_trip(&d.invoices, 8);
    round_trip(&d.invoice_lines, 4);
}

#[test]
fn dataset_at_decides_by_counts_then_clock() {
    let m = zero_marks();
    assert_eq!(dataset_at(&m, 0, 1, NOW).unwrap_err(), PipelineError::InvalidArguments);
    assert_eq!(
        dataset_at(&m, 0, 1, Timestamp { seconds: 0 }).unwrap_err(),
        PipelineError::InvalidArguments
    );
    assert_eq!(
        dataset_at(&m, 2, 3, Timestamp { seconds: WINDOW_START }).unwrap_err(),
        PipelineError::ClockOutOfRange
    );
    assert_eq!(
        dataset_at(&m, 2, 3, Timestamp { seconds: 253402300799 }).unwrap_err(),
        PipelineError::ClockOutOfRange
    );
    let d = dataset_at(&m, 2, 3, Timestamp { seconds: WINDOW_START + 60 }).unwrap();
    assert_eq!(d.generated_at.seconds, WINDOW_START + 60);
    check_dataset(&d, &m, 2, 3);
}

#[test]
fn each_unassigned_number_has_exactly_one_request() {
    for _ in 0..20 {
        let d = assemble(&zero_marks(), 20, 0, NOW);
        for v in &d.voip_numbers {
            let id = v.number_id.unwrap();
            let n = d.number_requests.iter().filter(|r| r.number_id == id).count();
            if v.participant_id == NumberOwner::Unassigned {
                assert_eq!(n, 1);
            } else {
                assert_eq!(n, 0);
            }
        }
    }
}
