use data_generation::clock::Timestamp;
use data_generation::codec::parse_row;
use data_generation::entities::{
    Address, CallDetailRecord, CommaDelimited, Contract, Disposition, Invoice, InvoiceHasItems,
    InvoiceItem, NumberOwner, NumberRequest, Participant, PriceList, SqlInsert, VoipNumber,
};

fn ts(seconds: i64) -> Timestamp {
    Timestamp { seconds }
}

#[test]
fn contract_row() {
    let c = Contract::new(
        7,
        "Acme Inc".to_string(),
        100007,
        "a@b.cz".to_string(),
        "+420 612 345 678".to_string(),
        Some(120),
        None,
        Some(1234567),
        Some("CZ1234567".to_string()),
    );
    assert_eq!(
        c.to_csv(),
        "7,Acme Inc,100007,1234567,CZ1234567,nul_val,nul_val,a@b.cz,+420 612 345 678,120\n"
    );
    assert!(Contract::insert_header().starts_with("contract(contract_id, contract_name"));
}

#[test]
fn address_row() {
    let a = Address::new(3, "Brno".to_string(), None, "Main".to_string(), 12, 60200, 7);
    assert_eq!(a.to_csv(), "3,Brno,nul_val,Main,12,60200,7\n");
    assert_eq!(
        Address::insert_header(),
        "address(address_id, city, district, street_name, house_number, zip_code, contract_id)"
    );
}

#[test]
fn participant_row() {
    let p = Participant::new(5, "Eva".to_string(), 2, 7, "ab12".to_string(), Some(50), None, None);
    assert_eq!(p.to_csv(), "5,Eva,2,7,ab12,50,nul_val\n");
}

#[test]
fn voip_number_row_renders_times() {
    let v = VoipNumber::new(
        Some(9),
        420,
        512345678,
        NumberOwner::Unassigned,
        "ff".to_string(),
        1,
        true,
        Some(ts(1577836800)),
        ts(1577923200),
        None,
    );
    assert_eq!(
        v.to_csv(),
        "9,420,512345678,nul_val,ff,1,true,2020-01-01T00:00:00+00:00,2020-01-02T00:00:00+00:00,nul_val\n"
    );
    let owned = VoipNumber::new(
        Some(10),
        420,
        500000000,
        NumberOwner::Assigned(5),
        "00".to_string(),
        3,
        false,
        None,
        ts(1577836800),
        None,
    );
    assert!(owned.to_csv().starts_with("10,420,500000000,5,00,3,false,nul_val,"));
}

#[test]
fn number_request_row() {
    let r = NumberRequest::new(5, 9, ts(1600000000));
    assert_eq!(r.to_csv(), "5,9,2020-09-13T12:26:40+00:00\n");
}

#[test]
fn price_list_row() {
    let p = PriceList::new(60, 20, 30, 49);
    assert_eq!(p.price_list_id, None);
    assert_eq!(p.to_csv(), "nul_val,60,20,30,49\n");
}

#[test]
fn call_record_row() {
    let c = CallDetailRecord::new(
        Some(1),
        Disposition::Answer,
        "+49123456789".to_string(),
        "512345678".to_string(),
        42,
        ts(1577836800),
        9,
        true,
        Some(2),
    );
    assert_eq!(
        c.to_csv(),
        "1,ANSWER,+49123456789,512345678,42,2020-01-01T00:00:00+00:00,9,true,2\n"
    );
    assert_eq!(Disposition::Hangup.as_text(), "HANGUP");
    assert_eq!(Disposition::Error.as_text(), "ERROR");
}

#[test]
fn invoice_rows() {
    let item = InvoiceItem::new("Calls".to_string(), 250);
    assert_eq!(item.to_csv(), "nul_val,Calls,250\n");
    let inv = Invoice::new(
        97000001,
        250,
        21,
        ts(1577836800),
        ts(1577836800),
        ts(1577836800 + 14 * 86400),
        None,
        7,
    );
    assert_eq!(
        inv.to_csv(),
        "97000001,250,21,2020-01-01T00:00:00+00:00,2020-01-01T00:00:00+00:00,2020-01-15T00:00:00+00:00,nul_val,7\n"
    );
    let line = InvoiceHasItems::new(97000001, 3, 250, 1);
    assert_eq!(line.to_csv(), "97000001,3,250,1\n");
}

#[test]
fn entity_row_round_trip() {
    let a = Address::new(3, "Brno".to_string(), None, "".to_string(), 12, 60200, 7);
    let fields = parse_row(&a.to_csv());
    assert_eq!(
        fields,
        vec![
            Some("3".to_string()),
            Some("Brno".to_string()),
            None,
            Some("".to_string()),
            Some("12".to_string()),
            Some("60200".to_string()),
            Some("7".to_string()),
        ]
    );
}

#[test]
fn contract_display_text() {
    let person = Contract::new(
        1,
        "Jan Novak".to_string(),
        100001,
        "jan@x.cz".to_string(),
        "+420 600 000 000".to_string(),
        None,
        None,
        None,
        None,
    );
    assert_eq!(
        person.display_text(),
        "100001,Jan Novak,0,'',0,jan@x.cz,+420 600 000 000,0"
    );
    let company = Contract::new(
        2,
        "Acme".to_string(),
        100002,
        "a@b.cz".to_string(),
        "+420 611 111 111".to_string(),
        Some(75),
        Some(300),
        Some(222222),
        Some("CZ222222".to_string()),
    );
    assert_eq!(
        company.display_text(),
        "100002,Acme,222222,CZ222222,300,a@b.cz,+420 611 111 111,75"
    );
}

#[test]
fn call_record_row_reads_back() {
    let c = CallDetailRecord::new(
        Some(4),
        Disposition::Hangup,
        "512345678".to_string(),
        "+420123456789".to_string(),
        7,
        ts(1577836800),
        9,
        false,
        None,
    );
    assert_eq!(
        parse_row(&c.to_csv()),
        vec![
            Some("4".to_string()),
            Some("HANGUP".to_string()),
            Some("512345678".to_string()),
            Some("+420123456789".to_string()),
            Some("7".to_string()),
            Some("2020-01-01T00:00:00+00:00".to_string()),
            Some("9".to_string()),
            Some("false".to_string()),
            None,
        ]
    );
}
