//! Generators: each builds one entity from the identifiers and foreign keys
//! it is handed, with its other fields drawn at random.
use vstd::prelude::*;

use crate::clock::{in_window, Timestamp, LATEST_SECOND, SECONDS_PER_DAY, WINDOW_START};
use crate::entities::{
    CallDetailRecord, CommaDelimited, Contract, Disposition, Invoice, InvoiceItem, NumberOwner,
    NumberRequest, Participant, PriceList, VoipNumber,
};
use crate::random::{
    chance, draw_below, draw_building_number, draw_city_name, draw_company_name, draw_first_name,
    draw_free_email, draw_number_text, draw_person_name, draw_street_name, draw_string, draw_time,
    draw_zip_code, numerified,
};
use crate::codec::{make_delimiter_safe, text_safe, DELIMITER, LINE_END};
use crate::entities::{lemma_nat_text_digits, lemma_plain_text_safe};
use crate::text::{
    all_digits, i64_text, int_text, is_digit, lemma_digits_value_bound, lemma_leading_digit,
    nat_text, parse_decimal, pow10, u64_text,
};

verus! {

/// Percent of contracts that belong to a company.
pub const COMPANY_PERCENT: u8 = 25;

/// Percent of contracts with a bonus amount.
pub const BONUS_PERCENT: u8 = 25;

/// Percent of contracts and of participants with a notification or balance
/// limit.
pub const LIMIT_PERCENT: u8 = 25;

/// Percent of numbers in quarantine.
pub const QUARANTINE_PERCENT: u8 = 20;

/// Percent of numbers blocked for foreign calls.
pub const FOREIGN_BLOCK_PERCENT: u8 = 35;

/// Percent of calls that come in.
pub const INCOMING_PERCENT: u8 = 50;

/// Percent of invoices already paid.
pub const PAID_PERCENT: u8 = 80;

/// The country code of every generated number.
pub const HOME_COUNTRY_CODE: u16 = 420;

/// The tax rate of every invoice.
pub const TAX_PERCENT: u8 = 21;

/// Days from an invoice's issue to its maturity.
pub const MATURITY_DAYS: i64 = 14;

/// The clock readings that generation accepts: at least a minute past the
/// window's start, and early enough that every derived date still renders.
pub open spec fn usable_now(now: Timestamp) -> bool {
    WINDOW_START + 60 <= now.seconds <= LATEST_SECOND - MATURITY_DAYS * SECONDS_PER_DAY
}

/// Drawn free text as it is stored: no delimiter and no line end.
pub open spec fn free_text(s: Seq<char>) -> bool {
    !s.contains(DELIMITER) && !s.contains(LINE_END)
}

/// A lower-case hexadecimal digit.
pub open spec fn is_hex_digit(c: char) -> bool {
    ('0' <= c && c <= '9') || ('a' <= c && c <= 'f')
}

/// A password token of `len` hexadecimal digits.
pub open spec fn hex_token(s: Seq<char>, len: nat) -> bool {
    s.len() == len && forall|i: int| 0 <= i < s.len() ==> is_hex_digit(#[trigger] s[i])
}

proof fn lemma_hex_token_safe(s: Seq<char>, len: nat)
    requires
        hex_token(s, len),
        len > 0,
    ensures
        text_safe(s),
{
    assert(is_hex_digit(s[0]));
    assert forall|i: int| 0 <= i < s.len() implies (#[trigger] s[i]) != DELIMITER && s[i]
        != LINE_END by {
        assert(is_hex_digit(s[i]));
    }
    lemma_plain_text_safe(s);
}

proof fn lemma_foreign_number_safe(pcc: nat, s: Seq<char>)
    requires
        foreign_number(pcc, s),
    ensures
        text_safe(s),
{
    let c = nat_text(pcc);
    lemma_nat_text_digits(pcc);
    let tail = s.subrange(1 + c.len() as int, s.len() as int);
    assert forall|i: int| 0 <= i < s.len() implies (#[trigger] s[i]) != DELIMITER && s[i]
        != LINE_END by {
        if 1 <= i < 1 + c.len() {
            assert(s[i] == s.subrange(1, 1 + c.len() as int)[i - 1]);
            assert(is_digit(c[i - 1]));
        } else if i >= 1 + c.len() {
            assert(s[i] == tail[i - 1 - c.len()]);
            assert(is_digit(tail[i - 1 - c.len()]));
        }
    }
    lemma_plain_text_safe(s);
}

fn draw_hex(len: usize) -> (r: String)
    requires
        len < usize::MAX,
    ensures
        hex_token(r@, len as nat),
{
    proof {
        reveal_strlit("0123456789abcdef");
    }
    let digits = "0123456789abcdef";
    let r = draw_string(digits, len);
    assert forall|i: int| 0 <= i < r@.len() implies is_hex_digit(#[trigger] r@[i]) by {
        assert(digits@.contains(r@[i]));
        let k = choose|k: int| 0 <= k < digits@.len() && digits@[k] == r@[i];
    }
    r
}

fn draw_timestamp(now: Timestamp) -> (r: Timestamp)
    requires
        usable_now(now),
    ensures
        in_window(r, now),
{
    Timestamp { seconds: draw_time(WINDOW_START, now.seconds) }
}

/// Draws a contract with the given id and variable symbol. A company gets a
/// company name and both a national and a VAT identification number; a
/// person gets a person's name and neither.
pub fn gen_contract(cid: u32, vs: i32) -> (r: Contract)
    ensures
        r.contract_id == Some(cid),
        r.variable_symbol == vs,
        r.vat_identification_number.is_some() == r.identification_number.is_some(),
        r.identification_number.is_some() ==> {
            let n = r.identification_number.unwrap();
            &&& 111111 <= n < 9999999
            &&& r.vat_identification_number.unwrap()@ == seq!['C', 'Z'] + int_text(n as int)
        },
        r.bonus_amount.is_some() ==> 50 <= r.bonus_amount.unwrap() < 500,
        r.notify_limit.is_some() ==> 20 <= r.notify_limit.unwrap() < 500,
        r.created_at.is_none(),
        r.deleted_at.is_none(),
        free_text(r.contract_name@),
        free_text(r.email@),
        r.contract_name@.len() > 0,
        r.email@.len() > 0,
        numerified("+420 6## ### ###"@, r.phone_number@),
        r.valid(),
{
    let is_company = chance(COMPANY_PERCENT);
    let has_bonus = chance(BONUS_PERCENT);
    let has_limit = chance(LIMIT_PERCENT);
    let drawn_name = if is_company {
        draw_company_name()
    } else {
        draw_person_name()
    };
    let name = make_delimiter_safe(drawn_name.as_str());
    let bonus = if has_bonus {
        Some(draw_below(50, 500) as u32)
    } else {
        None
    };
    let limit = if has_limit {
        Some(draw_below(20, 500) as u32)
    } else {
        None
    };
    let (id, vat_id) = if is_company {
        let n = draw_below(111111, 9999999) as i32;
        let mut vat = String::from_str("CZ");
        let digits = i64_text(n as i64);
        vat.append(digits.as_str());
        proof {
            reveal_strlit("CZ");
        }
        (Some(n), Some(vat))
    } else {
        (None, None)
    };
    let phone = draw_number_text("+420 6## ### ###");
    let email = make_delimiter_safe(draw_free_email().as_str());
    Contract::new(cid, name, vs, email, phone, bonus, limit, id, vat_id)
}

/// Draws the address of a contract; it has no district.
pub fn gen_address(aid: u32, contract_id: u32) -> (r: crate::entities::Address)
    ensures
        r.address_id == Some(aid),
        r.contract_id == contract_id,
        r.district.is_none(),
        0 <= r.house_number < 100000,
        0 <= r.zip_code < 100000,
        free_text(r.city@),
        free_text(r.street_name@),
        r.city@.len() > 0,
        r.street_name@.len() > 0,
{
    let house = draw_building_number();
    let zip = draw_zip_code();
    proof {
        lemma_digits_value_bound(house@);
        lemma_digits_value_bound(zip@);
        lemma_pow10_five(house@.len());
        lemma_pow10_five(zip@.len());
    }
    let house_number = parse_decimal(house.as_str()).unwrap() as i32;
    let zip_code = parse_decimal(zip.as_str()).unwrap() as i32;
    crate::entities::Address::new(
        aid,
        make_delimiter_safe(draw_city_name().as_str()),
        None,
        make_delimiter_safe(draw_street_name().as_str()),
        house_number,
        zip_code,
        contract_id,
    )
}

proof fn lemma_pow10_five(n: nat)
    requires
        n <= 5,
    ensures
        pow10(n) <= 100000,
{
    reveal_with_fuel(pow10, 6);
}

/// Draws a participant of a contract: access level 1 to 3, a password of
/// 64 hexadecimal digits, sometimes a balance limit of 10 to 99.
pub fn gen_participant(pid: u32, contract_id: u32) -> (r: Participant)
    ensures
        r.participant_id == Some(pid),
        r.contract_id == contract_id,
        1 <= r.access_level <= 3,
        hex_token(r.password@, 64),
        r.balance_limit.is_some() ==> 10 <= r.balance_limit.unwrap() < 100,
        r.created_at.is_none(),
        r.deleted_at.is_none(),
        free_text(r.name@),
        r.name@.len() > 0,
        r.valid(),
{
    let has_limit = chance(LIMIT_PERCENT);
    let name = make_delimiter_safe(draw_first_name().as_str());
    let access = draw_below(1, 4) as u8;
    let password = draw_hex(64);
    let limit = if has_limit {
        Some(draw_below(10, 100) as u32)
    } else {
        None
    };
    Participant::new(pid, name, access, contract_id, password, limit, None, None)
}

/// Draws a number with the given id and owner: a nine-digit local number
/// starting with 5, state 1 to 3, and an activation time and, for one in
/// quarantine, a quarantine end, both within the window.
pub fn gen_voip_number(nid: u32, pid: NumberOwner, now: Timestamp) -> (r: VoipNumber)
    requires
        usable_now(now),
    ensures
        r.number_id == Some(nid),
        r.participant_id == pid,
        r.phone_country_code == HOME_COUNTRY_CODE,
        500000000 <= r.number < 600000000,
        hex_token(r.password@, 32),
        1 <= r.current_state <= 3,
        r.quarantine_until.is_some() ==> in_window(r.quarantine_until.unwrap(), now),
        in_window(r.activated, now),
        r.deleted_at.is_none(),
        r.valid(),
        r.texts_safe(),
{
    let is_in_quarantine = chance(QUARANTINE_PERCENT);
    let text = draw_number_text("5########");
    proof {
        reveal_strlit("5########");
        let f = "5########"@;
        assert(f.len() == 9);
        assert(f[0] == '5');
        assert(forall|i: int| 1 <= i < 9 ==> f[i] == '#');
        assert forall|i: int| 0 <= i < text@.len() implies is_digit(#[trigger] text@[i]) by {
            if i == 0 {
                assert(text@[0] == '5');
            } else {
                assert(f[i] == '#');
            }
        }
        lemma_digits_value_bound(text@);
        lemma_digits_value_bound(text@.subrange(1, 9));
        reveal_with_fuel(pow10, 10);
        lemma_leading_digit(text@);
    }
    let number = parse_decimal(text.as_str()).unwrap() as u32;
    let password = draw_hex(32);
    proof {
        lemma_hex_token_safe(password@, 32);
    }
    let state = draw_below(1, 4) as u8;
    let block = chance(FOREIGN_BLOCK_PERCENT);
    let quarantine = if is_in_quarantine {
        Some(draw_timestamp(now))
    } else {
        None
    };
    let activated = draw_timestamp(now);
    VoipNumber::new(
        Some(nid),
        HOME_COUNTRY_CODE,
        number,
        pid,
        password,
        state,
        block,
        quarantine,
        activated,
        None,
    )
}

/// Builds a price list row with exactly the given values.
pub fn gen_price_list(id: u32, pcc: u16, price: u16, t1: u8, t2: u8) -> (r: PriceList)
    ensures
        r.price_list_id == Some(id),
        r.phone_country_code == pcc,
        r.price_per_second == price,
        r.tariffication_first == t1,
        r.tariffication_second == t2,
{
    PriceList {
        phone_country_code: pcc,
        price_list_id: Some(id),
        price_per_second: price,
        tariffication_first: t1,
        tariffication_second: t2,
    }
}

} // verus!

verus! {

/// A number of the other party of a call: `+`, the country code, and nine
/// digits.
pub open spec fn foreign_number(pcc: nat, s: Seq<char>) -> bool {
    let c = nat_text(pcc);
    &&& s.len() == 1 + c.len() as int + 9
    &&& s[0] == '+'
    &&& s.subrange(1, 1 + c.len() as int) == c
    &&& all_digits(s.subrange(1 + c.len() as int, s.len() as int))
}

fn draw_foreign_number(pcc: u16) -> (r: String)
    ensures
        foreign_number(pcc as nat, r@),
{
    let mut s = String::from_str("+");
    let code = u64_text(pcc as u64);
    s.append(code.as_str());
    let digits = draw_number_text("#########");
    s.append(digits.as_str());
    proof {
        reveal_strlit("+");
        reveal_strlit("#########");
        let c = nat_text(pcc as nat);
        let f = "#########"@;
        assert(f.len() == 9);
        assert(s@ =~= seq!['+'] + c + digits@);
        assert(s@.subrange(1, 1 + c.len() as int) =~= c);
        assert(s@.subrange(1 + c.len() as int, s@.len() as int) =~= digits@);
        assert forall|i: int| 0 <= i < digits@.len() implies is_digit(#[trigger] digits@[i]) by {
            assert(f[i] == '#');
        }
    }
    s
}

/// Draws a call of the number `number_str` with id `number_id`, billed by
/// the price list `price_list_id` for country `pcc`. An incoming call has
/// the number as its destination and a drawn number of that country as its
/// source; an outgoing call the other way round.
pub fn gen_cdr(
    id: u32,
    pcc: u16,
    price_list_id: u32,
    number_str: String,
    number_id: u32,
    now: Timestamp,
) -> (r: CallDetailRecord)
    requires
        usable_now(now),
    ensures
        r.call_id == Some(id),
        r.number_id == number_id,
        r.price_list_id == Some(price_list_id),
        r.incoming_outgoing ==> r.destination_num@ == number_str@ && foreign_number(
            pcc as nat,
            r.source_num@,
        ),
        !r.incoming_outgoing ==> r.source_num@ == number_str@ && foreign_number(
            pcc as nat,
            r.destination_num@,
        ),
        1 <= r.length < 300,
        in_window(r.call_date, now),
        r.valid(),
        text_safe(number_str@) ==> r.texts_safe(),
{
    let pick = draw_below(0, 3);
    let disposition = if pick == 0 {
        Disposition::Hangup
    } else if pick == 1 {
        Disposition::Answer
    } else {
        Disposition::Error
    };
    let is_incoming = chance(INCOMING_PERCENT);
    let other = draw_foreign_number(pcc);
    proof {
        lemma_foreign_number_safe(pcc as nat, other@);
    }
    let (source, destination) = if is_incoming {
        (other, number_str)
    } else {
        (number_str, other)
    };
    let length = draw_below(1, 300) as u16;
    let date = draw_timestamp(now);
    CallDetailRecord::new(
        Some(id),
        disposition,
        source,
        destination,
        length,
        date,
        number_id,
        is_incoming,
        Some(price_list_id),
    )
}

/// Draws a catalog item with the given id and name, at a unit cost of 1 to
/// 9999.
pub fn gen_invoice_item(item_id: u32, item_name: String) -> (r: InvoiceItem)
    ensures
        r.item_id == Some(item_id),
        r.item_name@ == item_name@,
        1 <= r.unit_cost < 10000,
{
    let mut item = InvoiceItem::new(item_name, draw_below(1, 10000) as u32);
    item.item_id = Some(item_id);
    item
}

/// Draws an invoice of a contract for `amount`: issued within the window,
/// taxable in the period it was issued, due fourteen days later, and
/// sometimes paid.
pub fn gen_invoice(invoice_number: u64, amount: u64, contract_id: u32, now: Timestamp) -> (r:
    Invoice)
    requires
        usable_now(now),
    ensures
        r.invoice_number == invoice_number,
        r.amount == amount,
        r.contract_id == contract_id,
        r.tax_value_percent == TAX_PERCENT,
        in_window(r.created_at, now),
        r.taxable_period == r.created_at,
        r.maturity.seconds == r.created_at.seconds + MATURITY_DAYS * SECONDS_PER_DAY,
        r.paid.is_some() ==> in_window(r.paid.unwrap(), now),
        r.valid(),
{
    let is_paid = chance(PAID_PERCENT);
    let paid = if is_paid {
        Some(draw_timestamp(now))
    } else {
        None
    };
    let created_at = draw_timestamp(now);
    let maturity = Timestamp { seconds: created_at.seconds + MATURITY_DAYS * SECONDS_PER_DAY };
    Invoice::new(
        invoice_number,
        amount,
        TAX_PERCENT,
        created_at,
        created_at,
        maturity,
        paid,
        contract_id,
    )
}

/// Draws the request of participant `part_id` for the number `num_id`.
pub fn gen_number_request(num_id: u32, part_id: u32, now: Timestamp) -> (r: NumberRequest)
    requires
        usable_now(now),
    ensures
        r.number_id == num_id,
        r.participant_id == part_id,
        in_window(r.requested, now),
        r.valid(),
{
    NumberRequest::new(part_id, num_id, draw_timestamp(now))
}

} // verus!
