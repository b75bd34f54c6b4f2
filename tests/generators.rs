use data_generation::clock::{Timestamp, WINDOW_START};
use data_generation::entities::{CommaDelimited, NumberOwner};
use data_generation::generators::{
    gen_address, gen_cdr, gen_contract, gen_invoice, gen_invoice_item, gen_number_request,
    gen_participant, gen_price_list, gen_voip_number,
};

const NOW: Timestamp = Timestamp { seconds: 1700000000 };

fn in_window(t: Timestamp) -> bool {
    WINDOW_START <= t.seconds && t.seconds < NOW.seconds
}

#[test]
fn contract_company_fields_go_together() {
    for i in 0..300 {
        let c = gen_contract(i + 1, 100001 + i as i32);
        assert_eq!(c.contract_id, Some(i + 1));
        assert_eq!(c.variable_symbol, 100001 + i as i32);
        assert_eq!(
            c.vat_identification_number.is_some(),
            c.identification_number.is_some()
        );
        if let Some(n) = c.identification_number {
            assert!((111111..9999999).contains(&n));
            assert_eq!(c.vat_identification_number.unwrap(), format!("CZ{}", n));
        }
        if let Some(b) = c.bonus_amount {
            assert!((50..500).contains(&b));
        }
        if let Some(l) = c.notify_limit {
            assert!((20..500).contains(&l));
        }
        assert!(c.phone_number.starts_with("+420 6"));
        assert_eq!(c.phone_number.len(), 16);
        assert!(!c.phone_number.contains('#'));
    }
}

#[test]
fn address_numbers_are_parsed() {
    for _ in 0..100 {
        let a = gen_address(4, 2);
        assert_eq!(a.address_id, Some(4));
        assert_eq!(a.contract_id, 2);
        assert_eq!(a.district, None);
        assert!((0..100000).contains(&a.house_number));
        assert!((0..100000).contains(&a.zip_code));
    }
}

#[test]
fn participant_fields() {
    for _ in 0..100 {
        let p = gen_participant(11, 3);
        assert_eq!(p.participant_id, Some(11));
        assert_eq!(p.contract_id, 3);
        assert!((1..=3).contains(&p.access_level));
        assert_eq!(p.password.len(), 64);
        assert!(p.password.chars().all(|c| c.is_ascii_hexdigit() && !c.is_ascii_uppercase()));
        if let Some(l) = p.balance_limit {
            assert!((10..100).contains(&l));
        }
    }
}

#[test]
fn voip_number_times_lie_in_window() {
    for _ in 0..300 {
        let v = gen_voip_number(21, NumberOwner::Assigned(11), NOW);
        assert_eq!(v.number_id, Some(21));
        assert_eq!(v.participant_id, NumberOwner::Assigned(11));
        assert_eq!(v.phone_country_code, 420);
        assert!((500000000..600000000).contains(&v.number));
        assert_eq!(v.password.len(), 32);
        assert!((1..=3).contains(&v.current_state));
        assert!(in_window(v.activated));
        if let Some(q) = v.quarantine_until {
            assert!(in_window(q));
        }
        assert!(v.to_csv().starts_with("21,420,5"));
    }
}

#[test]
fn price_list_is_exact() {
    let p = gen_price_list(3, 421, 15, 60, 1);
    assert_eq!(p.price_list_id, Some(3));
    assert_eq!(p.phone_country_code, 421);
    assert_eq!(p.price_per_second, 15);
    assert_eq!(p.tariffication_first, 60);
    assert_eq!(p.tariffication_second, 1);
    assert_eq!(p.to_csv(), "3,60,1,15,421\n");
}

#[test]
fn call_direction_places_known_number() {
    for _ in 0..200 {
        let c = gen_cdr(8, 49, 2, "512345678".to_string(), 21, NOW);
        assert_eq!(c.call_id, Some(8));
        assert_eq!(c.number_id, 21);
        assert_eq!(c.price_list_id, Some(2));
        let (known, other) = if c.incoming_outgoing {
            (&c.destination_num, &c.source_num)
        } else {
            (&c.source_num, &c.destination_num)
        };
        assert_eq!(known, "512345678");
        assert!(other.starts_with("+49"));
        assert_eq!(other.len(), 12);
        assert!(other[3..].chars().all(|ch| ch.is_ascii_digit()));
        assert!((1..300).contains(&c.length));
        assert!(in_window(c.call_date));
    }
}

#[test]
fn invoice_matures_fourteen_days_after_issue() {
    for _ in 0..300 {
        let inv = gen_invoice(97000001, 1234, 5, NOW);
        assert_eq!(inv.invoice_number, 97000001);
        assert_eq!(inv.amount, 1234);
        assert_eq!(inv.contract_id, 5);
        assert_eq!(inv.tax_value_percent, 21);
        assert!(in_window(inv.created_at));
        assert_eq!(inv.taxable_period, inv.created_at);
        assert_eq!(inv.maturity.seconds, inv.created_at.seconds + 14 * 86400);
        if let Some(p) = inv.paid {
            assert!(in_window(p));
        }
    }
}

#[test]
fn invoice_item_and_request() {
    let item = gen_invoice_item(4, "Phone 4G".to_string());
    assert_eq!(item.item_id, Some(4));
    assert_eq!(item.item_name, "Phone 4G");
    assert!((1..10000).contains(&item.unit_cost));
    let r = gen_number_request(21, 11, NOW);
    assert_eq!(r.number_id, 21);
    assert_eq!(r.participant_id, 11);
    assert!(in_window(r.requested));
}

#[test]
fn drawn_text_fields_are_never_empty() {
    for i in 0..100 {
        let c = gen_contract(i + 1, 100001);
        assert!(!c.contract_name.is_empty());
        assert!(!c.email.is_empty());
        assert!(c.email.contains('@'));
        let p = gen_participant(i + 1, 1);
        assert!(!p.name.is_empty());
        let a = gen_address(i + 1, 1);
        assert!(!a.city.is_empty());
        assert!(!a.street_name.is_empty());
        assert!(!c.contract_name.contains(',') && !a.city.contains(',') && !a.street_name.contains(','));
    }
}
