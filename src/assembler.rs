//! The dataset assembler: builds every collection in dependency order, so
//! that each foreign key names a row generated before it, and allocates
//! identifiers upward from the store's high-water marks.
use vstd::prelude::*;

use crate::clock::{in_window, Timestamp};
use crate::entities::{
    Address, CallDetailRecord, CommaDelimited, Contract, Invoice, InvoiceHasItems, InvoiceItem,
    NumberOwner, NumberRequest, Participant, PriceList, VoipNumber,
};
use crate::generators::{
    gen_address, gen_cdr, gen_contract, gen_invoice, gen_invoice_item, gen_number_request,
    gen_participant, gen_price_list, gen_voip_number, usable_now, MATURITY_DAYS,
};
use crate::random::{chance, draw_below};
use crate::text::{nat_text, u64_text};

verus! {

/// The variable symbol before the first contract's.
pub const VARIABLE_SYMBOL_BASE: i32 = 100000;

/// Most participants that one contract gets.
pub const MAX_PARTICIPANTS: u64 = 4;

/// Most numbers that one participant gets, not counting a requested one.
pub const MAX_NUMBERS: u64 = 4;

/// Percent of participants that also request an unassigned number.
pub const REQUEST_PERCENT: u8 = 10;

/// Whether some contract of `contracts` has the id `id`.
pub open spec fn has_contract(contracts: Seq<Contract>, id: u32) -> bool {
    exists|i: int| 0 <= i < contracts.len() && (#[trigger] contracts[i]).contract_id == Some(id)
}

/// Whether some participant of `participants` has the id `id`.
pub open spec fn has_participant(participants: Seq<Participant>, id: u32) -> bool {
    exists|i: int|
        0 <= i < participants.len() && (#[trigger] participants[i]).participant_id == Some(id)
}

/// Generates `count` contracts with the ids after `base` and the variable
/// symbols after `VARIABLE_SYMBOL_BASE`, both one apart.
pub fn gen_contracts(base: u32, count: usize) -> (r: Vec<Contract>)
    requires
        base + count <= u32::MAX,
        VARIABLE_SYMBOL_BASE + count <= i32::MAX,
    ensures
        r@.len() == count,
        forall|i: int|
            0 <= i < count ==> {
                &&& (#[trigger] r@[i]).contract_id == Some((base + i + 1) as u32)
                &&& r@[i].variable_symbol == VARIABLE_SYMBOL_BASE + i + 1
                &&& r@[i].vat_identification_number.is_some()
                    == r@[i].identification_number.is_some()
                &&& r@[i].valid()
            },
{
    let mut contracts: Vec<Contract> = Vec::new();
    let mut cid: u32 = base;
    let mut vs: i32 = VARIABLE_SYMBOL_BASE;
    let mut i: usize = 0;
    while i < count
        invariant
            base + count <= u32::MAX,
            VARIABLE_SYMBOL_BASE + count <= i32::MAX,
            0 <= i <= count,
            contracts@.len() == i,
            cid == base + i,
            vs == VARIABLE_SYMBOL_BASE + i,
            forall|j: int|
                0 <= j < i ==> {
                    &&& (#[trigger] contracts@[j]).contract_id == Some((base + j + 1) as u32)
                    &&& contracts@[j].variable_symbol == VARIABLE_SYMBOL_BASE + j + 1
                    &&& contracts@[j].vat_identification_number.is_some()
                        == contracts@[j].identification_number.is_some()
                    &&& contracts@[j].valid()
                },
        decreases count - i,
    {
        vs = vs + 1;
        cid = cid + 1;
        contracts.push(gen_contract(cid, vs));
        i = i + 1;
    }
    contracts
}

/// How many of `participants` belong to the contract `id`.
pub open spec fn participant_count(participants: Seq<Participant>, id: u32) -> nat
    decreases participants.len(),
{
    if participants.len() == 0 {
        0
    } else {
        participant_count(participants.drop_last(), id) + if participants.last().contract_id
            == id {
            1nat
        } else {
            0nat
        }
    }
}

proof fn lemma_participant_count_push(participants: Seq<Participant>, p: Participant, id: u32)
    ensures
        participant_count(participants.push(p), id) == participant_count(participants, id) + if p.contract_id == id {
            1nat
        } else {
            0nat
        },
{
    assert(participants.push(p).drop_last() =~= participants);
}

/// No two contracts share an id, and each has one.
pub open spec fn contract_ids_distinct(contracts: Seq<Contract>) -> bool {
    &&& forall|i: int| 0 <= i < contracts.len() ==> (#[trigger] contracts[i]).contract_id.is_some()
    &&& forall|i: int, j: int|
        0 <= i < j < contracts.len() ==> (#[trigger] contracts[i]).contract_id
            != (#[trigger] contracts[j]).contract_id
}

/// Generates one address and one to four participants for each contract,
/// with ids after `address_base` and `participant_base`.
pub fn gen_members(contracts: &Vec<Contract>, address_base: u32, participant_base: u32) -> (r: (
    Vec<Address>,
    Vec<Participant>,
))
    requires
        address_base + contracts@.len() <= u32::MAX,
        participant_base + MAX_PARTICIPANTS * contracts@.len() <= u32::MAX,
        contract_ids_distinct(contracts@),
    ensures
        r.0@.len() == contracts@.len(),
        forall|i: int|
            0 <= i < contracts@.len() ==> {
                &&& (#[trigger] r.0@[i]).address_id == Some((address_base + i + 1) as u32)
                &&& Some(r.0@[i].contract_id) == contracts@[i].contract_id
            },
        contracts@.len() <= r.1@.len() <= MAX_PARTICIPANTS * contracts@.len(),
        forall|j: int|
            0 <= j < r.1@.len() ==> {
                &&& (#[trigger] r.1@[j]).participant_id == Some((participant_base + j + 1) as u32)
                &&& has_contract(contracts@, r.1@[j].contract_id)
                &&& r.1@[j].valid()
            },
        forall|i: int|
            0 <= i < contracts@.len() ==> 1 <= participant_count(
                r.1@,
                (#[trigger] contracts@[i]).contract_id.unwrap(),
            ) <= MAX_PARTICIPANTS,
{
    let n = contracts.len();
    let mut addresses: Vec<Address> = Vec::new();
    let mut participants: Vec<Participant> = Vec::new();
    let mut aid: u32 = address_base;
    let mut pid: u32 = participant_base;
    let mut i: usize = 0;
    while i < n
        invariant
            n == contracts@.len(),
            address_base + n <= u32::MAX,
            participant_base + MAX_PARTICIPANTS * n <= u32::MAX,
            contract_ids_distinct(contracts@),
            0 <= i <= n,
            addresses@.len() == i,
            aid == address_base + i,
            i <= participants@.len() <= MAX_PARTICIPANTS * i,
            pid == participant_base + participants@.len(),
            forall|c: int|
                0 <= c < i ==> {
                    &&& (#[trigger] addresses@[c]).address_id == Some((address_base + c + 1) as u32)
                    &&& Some(addresses@[c].contract_id) == contracts@[c].contract_id
                },
            forall|j: int|
                0 <= j < participants@.len() ==> {
                    &&& (#[trigger] participants@[j]).participant_id == Some(
                        (participant_base + j + 1) as u32,
                    )
                    &&& has_contract(contracts@, participants@[j].contract_id)
                    &&& participants@[j].valid()
                },
            forall|c: int|
                0 <= c < n ==> {
                    let count = participant_count(
                        participants@,
                        (#[trigger] contracts@[c]).contract_id.unwrap(),
                    );
                    &&& c < i ==> 1 <= count <= MAX_PARTICIPANTS
                    &&& c >= i ==> count == 0
                },
        decreases n - i,
    {
        let contract_id = contracts[i].contract_id.unwrap();
        let participants_count = draw_below(1, MAX_PARTICIPANTS + 1);
        let first = participants.len();
        aid = aid + 1;
        let mut k: u64 = 0;
        while k < participants_count
            invariant
                n == contracts@.len(),
                participant_base + MAX_PARTICIPANTS * n <= u32::MAX,
                contract_ids_distinct(contracts@),
                0 <= i < n,
                contracts@[i as int].contract_id == Some(contract_id),
                1 <= participants_count <= MAX_PARTICIPANTS,
                0 <= k <= participants_count,
                i <= first <= MAX_PARTICIPANTS * i,
                participants@.len() == first + k,
                pid == participant_base + participants@.len(),
                forall|j: int|
                    0 <= j < participants@.len() ==> {
                        &&& (#[trigger] participants@[j]).participant_id == Some(
                            (participant_base + j + 1) as u32,
                        )
                        &&& has_contract(contracts@, participants@[j].contract_id)
                        &&& participants@[j].valid()
                    },
                forall|c: int|
                    0 <= c < n ==> {
                        let count = participant_count(
                            participants@,
                            (#[trigger] contracts@[c]).contract_id.unwrap(),
                        );
                        &&& c < i ==> 1 <= count <= MAX_PARTICIPANTS
                        &&& c > i ==> count == 0
                        &&& c == i ==> count == k
                    },
            decreases participants_count - k,
        {
            pid = pid + 1;
            let p = gen_participant(pid, contract_id);
            assert(has_contract(contracts@, p.contract_id)) by {
                assert(contracts@[i as int].contract_id == Some(p.contract_id));
            }
            let ghost before = participants@;
            participants.push(p);
            assert forall|c: int| 0 <= c < n implies {
                let count = participant_count(
                    participants@,
                    (#[trigger] contracts@[c]).contract_id.unwrap(),
                );
                &&& c < i ==> 1 <= count <= MAX_PARTICIPANTS
                &&& c > i ==> count == 0
                &&& c == i ==> count == k + 1
            } by {
                lemma_participant_count_push(before, p, contracts@[c].contract_id.unwrap());
                if c < i {
                    assert(contracts@[c].contract_id != contracts@[i as int].contract_id);
                } else if c > i {
                    assert(contracts@[i as int].contract_id != contracts@[c].contract_id);
                }
            }
            k = k + 1;
        }
        addresses.push(gen_address(aid, contract_id));
        i = i + 1;
    }
    (addresses, participants)
}

} // verus!

verus! {

/// What every generated number satisfies: it renders, its text survives the
/// bulk format, and its activation
/// and any quarantine end lie in the window before `now`.
pub open spec fn number_ok(v: VoipNumber, now: Timestamp) -> bool {
    &&& v.valid()
    &&& v.texts_safe()
    &&& in_window(v.activated, now)
    &&& v.quarantine_until.is_some() ==> in_window(v.quarantine_until.unwrap(), now)
}

/// Whether some request of `requests` is for the number `id`.
pub open spec fn has_request(requests: Seq<NumberRequest>, id: u32) -> bool {
    exists|q: int| 0 <= q < requests.len() && (#[trigger] requests[q]).number_id == id
}

/// The numbers generated from `base`, their owners among `participants`,
/// and the requests for the unassigned ones.
pub open spec fn numbers_ok(
    participants: Seq<Participant>,
    numbers: Seq<VoipNumber>,
    requests: Seq<NumberRequest>,
    base: u32,
    now: Timestamp,
) -> bool {
    &&& forall|k: int|
        0 <= k < numbers.len() ==> {
            &&& (#[trigger] numbers[k]).number_id == Some((base + k + 1) as u32)
            &&& number_ok(numbers[k], now)
            &&& match numbers[k].participant_id {
                NumberOwner::Assigned(p) => has_participant(participants, p),
                NumberOwner::Unassigned => has_request(requests, (base + k + 1) as u32),
            }
        }
    &&& forall|q: int|
        0 <= q < requests.len() ==> {
            &&& base < (#[trigger] requests[q]).number_id <= base + numbers.len()
            &&& numbers[requests[q].number_id - base - 1].participant_id == NumberOwner::Unassigned
            &&& has_participant(participants, requests[q].participant_id)
            &&& requests[q].valid()
            &&& in_window(requests[q].requested, now)
        }
    &&& forall|q1: int, q2: int|
        0 <= q1 < q2 < requests.len() ==> (#[trigger] requests[q1]).number_id
            != (#[trigger] requests[q2]).number_id
}

/// How many of `numbers` are held by some participant.
pub open spec fn assigned_total(numbers: Seq<VoipNumber>) -> nat
    decreases numbers.len(),
{
    if numbers.len() == 0 {
        0
    } else {
        assigned_total(numbers.drop_last()) + if numbers.last().participant_id is Assigned {
            1nat
        } else {
            0nat
        }
    }
}

proof fn lemma_assigned_total_push(numbers: Seq<VoipNumber>, v: VoipNumber)
    ensures
        assigned_total(numbers.push(v)) == assigned_total(numbers) + if v.participant_id is Assigned {
            1nat
        } else {
            0nat
        },
{
    assert(numbers.push(v).drop_last() =~= numbers);
}

/// How many of `numbers` the participant `id` holds.
pub open spec fn assigned_count(numbers: Seq<VoipNumber>, id: u32) -> nat
    decreases numbers.len(),
{
    if numbers.len() == 0 {
        0
    } else {
        assigned_count(numbers.drop_last(), id) + if numbers.last().participant_id
            == NumberOwner::Assigned(id) {
            1nat
        } else {
            0nat
        }
    }
}

proof fn lemma_assigned_count_push(numbers: Seq<VoipNumber>, v: VoipNumber, id: u32)
    ensures
        assigned_count(numbers.push(v), id) == assigned_count(numbers, id) + if v.participant_id
            == NumberOwner::Assigned(id) {
            1nat
        } else {
            0nat
        },
{
    assert(numbers.push(v).drop_last() =~= numbers);
}

/// No two participants share an id, and each has one.
pub open spec fn participant_ids_distinct(participants: Seq<Participant>) -> bool {
    &&& forall|j: int|
        0 <= j < participants.len() ==> (#[trigger] participants[j]).participant_id.is_some()
    &&& forall|i: int, j: int|
        0 <= i < j < participants.len() ==> (#[trigger] participants[i]).participant_id
            != (#[trigger] participants[j]).participant_id
}

/// Each participant holds from one to four numbers.
pub open spec fn holdings_ok(participants: Seq<Participant>, numbers: Seq<VoipNumber>) -> bool {
    forall|j: int|
        0 <= j < participants.len() ==> 1 <= assigned_count(
            numbers,
            (#[trigger] participants[j]).participant_id.unwrap(),
        ) <= MAX_NUMBERS
}

/// Generates one to four numbers for each participant, with ids after
/// `base`; after a participant's numbers, now and then one more number with
/// no owner and that participant's request for it.
pub fn gen_numbers(participants: &Vec<Participant>, base: u32, now: Timestamp) -> (r: (
    Vec<VoipNumber>,
    Vec<NumberRequest>,
))
    requires
        usable_now(now),
        base + (MAX_NUMBERS + 1) * participants@.len() <= u32::MAX,
        participant_ids_distinct(participants@),
    ensures
        participants@.len() <= r.0@.len() <= (MAX_NUMBERS + 1) * participants@.len(),
        numbers_ok(participants@, r.0@, r.1@, base, now),
        holdings_ok(participants@, r.0@),
        participants@.len() <= assigned_total(r.0@) <= MAX_NUMBERS * participants@.len(),
{
    let m = participants.len();
    let mut numbers: Vec<VoipNumber> = Vec::new();
    let mut requests: Vec<NumberRequest> = Vec::new();
    let mut vid: u32 = base;
    let mut i: usize = 0;
    while i < m
        invariant
            m == participants@.len(),
            usable_now(now),
            base + (MAX_NUMBERS + 1) * m <= u32::MAX,
            participant_ids_distinct(participants@),
            0 <= i <= m,
            i <= numbers@.len() <= (MAX_NUMBERS + 1) * i,
            vid == base + numbers@.len(),
            numbers_ok(participants@, numbers@, requests@, base, now),
            forall|j: int|
                0 <= j < m ==> {
                    let count = assigned_count(
                        numbers@,
                        (#[trigger] participants@[j]).participant_id.unwrap(),
                    );
                    &&& j < i ==> 1 <= count <= MAX_NUMBERS
                    &&& j >= i ==> count == 0
                },
            i <= assigned_total(numbers@) <= MAX_NUMBERS * i,
        decreases m - i,
    {
        let pid = participants[i].participant_id.unwrap();
        assert(has_participant(participants@, pid)) by {
            assert(participants@[i as int].participant_id == Some(pid));
        }
        let numbers_count = draw_below(1, MAX_NUMBERS + 1);
        let first = numbers.len();
        let ghost first_total = assigned_total(numbers@);
        assert((MAX_NUMBERS + 1) * (i + 1) <= (MAX_NUMBERS + 1) * m) by (nonlinear_arith)
            requires
                i < m,
        ;
        assert((MAX_NUMBERS + 1) * (i + 1) == (MAX_NUMBERS + 1) * i + MAX_NUMBERS + 1)
            by (nonlinear_arith);
        let mut k: u64 = 0;
        while k < numbers_count
            invariant
                m == participants@.len(),
                usable_now(now),
                base + (MAX_NUMBERS + 1) * m <= u32::MAX,
                0 <= i < m,
                has_participant(participants@, pid),
                1 <= numbers_count <= MAX_NUMBERS,
                0 <= k <= numbers_count,
                i <= first <= (MAX_NUMBERS + 1) * i,
                (MAX_NUMBERS + 1) * (i + 1) <= (MAX_NUMBERS + 1) * m,
                (MAX_NUMBERS + 1) * (i + 1) == (MAX_NUMBERS + 1) * i + MAX_NUMBERS + 1,
                numbers@.len() == first + k,
                vid == base + numbers@.len(),
                numbers_ok(participants@, numbers@, requests@, base, now),
                participant_ids_distinct(participants@),
                participants@[i as int].participant_id == Some(pid),
                forall|j: int|
                    0 <= j < m ==> {
                        let count = assigned_count(
                            numbers@,
                            (#[trigger] participants@[j]).participant_id.unwrap(),
                        );
                        &&& j < i ==> 1 <= count <= MAX_NUMBERS
                        &&& j > i ==> count == 0
                        &&& j == i ==> count == k
                    },
                i <= first_total <= MAX_NUMBERS * i,
                assigned_total(numbers@) == first_total + k,
            decreases numbers_count - k,
        {
            vid = vid + 1;
            let v = gen_voip_number(vid, NumberOwner::Assigned(pid), now);
            let ghost before = numbers@;
            numbers.push(v);
            proof {
                lemma_assigned_total_push(before, v);
            }
            assert forall|j: int| 0 <= j < m implies {
                let count = assigned_count(
                    numbers@,
                    (#[trigger] participants@[j]).participant_id.unwrap(),
                );
                &&& j < i ==> 1 <= count <= MAX_NUMBERS
                &&& j > i ==> count == 0
                &&& j == i ==> count == k + 1
            } by {
                lemma_assigned_count_push(before, v, participants@[j].participant_id.unwrap());
                if j < i {
                    assert(participants@[j].participant_id != participants@[i as int].participant_id);
                } else if j > i {
                    assert(participants@[i as int].participant_id != participants@[j].participant_id);
                }
            }
            k = k + 1;
        }
        if chance(REQUEST_PERCENT) {
            vid = vid + 1;
            let v = gen_voip_number(vid, NumberOwner::Unassigned, now);
            let req = gen_number_request(vid, pid, now);
            let ghost old_numbers = numbers@;
            let ghost old_requests = requests@;
            numbers.push(v);
            requests.push(req);
            proof {
                lemma_assigned_total_push(old_numbers, v);
                assert forall|q1: int, q2: int|
                    0 <= q1 < q2 < requests@.len() implies (#[trigger] requests@[q1]).number_id
                    != (#[trigger] requests@[q2]).number_id by {
                    assert(requests@[q1] == old_requests[q1]);
                    if q2 < old_requests.len() {
                        assert(requests@[q2] == old_requests[q2]);
                    }
                }
                assert forall|j: int| 0 <= j < m implies assigned_count(
                    numbers@,
                    (#[trigger] participants@[j]).participant_id.unwrap(),
                ) == assigned_count(old_numbers, participants@[j].participant_id.unwrap()) by {
                    lemma_assigned_count_push(
                        old_numbers,
                        v,
                        participants@[j].participant_id.unwrap(),
                    );
                }
                let q_new = requests@.len() - 1;
                assert(requests@[q_new].number_id == vid);
                assert forall|k: int| 0 <= k < numbers@.len() implies match (
                #[trigger] numbers@[k]).participant_id {
                    NumberOwner::Assigned(p) => has_participant(participants@, p),
                    NumberOwner::Unassigned => has_request(requests@, (base + k + 1) as u32),
                } by {
                    if k < old_numbers.len() {
                        assert(numbers@[k] == old_numbers[k]);
                        if numbers@[k].participant_id == NumberOwner::Unassigned {
                            assert(has_request(old_requests, (base + k + 1) as u32));
                            let q = choose|q: int|
                                0 <= q < old_requests.len() && (#[trigger] old_requests[q]).number_id
                                    == (base + k + 1) as u32;
                            assert(requests@[q] == old_requests[q]);
                        }
                    } else {
                        assert(requests@[q_new].number_id == (base + k + 1) as u32);
                    }
                }
                assert forall|q: int| 0 <= q < requests@.len() implies has_participant(
                    participants@,
                    (#[trigger] requests@[q]).participant_id,
                ) && numbers@[requests@[q].number_id - base - 1].participant_id
                    == NumberOwner::Unassigned by {
                    if q < old_requests.len() {
                        assert(requests@[q] == old_requests[q]);
                        assert(numbers@[requests@[q].number_id - base - 1]
                            == old_numbers[requests@[q].number_id - base - 1]);
                    }
                }
            }
        }
        i = i + 1;
    }
    (numbers, requests)
}

} // verus!

verus! {

/// The number of rows in the price list catalog.
pub const PRICE_LIST_COUNT: usize = 5;

/// The number of rows in the invoice item catalog.
pub const INVOICE_ITEM_COUNT: usize = 6;

/// Row `i` of the price list catalog: country code, price per second, and
/// the first and second tariffication granularities.
pub open spec fn price_entry(i: int) -> (u16, u16, u8, u8) {
    if i == 0 {
        (49, 30, 60, 20)
    } else if i == 1 {
        (420, 10, 1, 1)
    } else if i == 2 {
        (421, 15, 60, 1)
    } else if i == 3 {
        (48, 20, 60, 10)
    } else {
        (43, 35, 60, 20)
    }
}

/// Generates the price list catalog with ids after `base`.
pub fn gen_price_lists(base: u32) -> (r: Vec<PriceList>)
    requires
        base + PRICE_LIST_COUNT <= u32::MAX,
    ensures
        r@.len() == PRICE_LIST_COUNT,
        forall|i: int|
            0 <= i < PRICE_LIST_COUNT ==> {
                let (pcc, price, t1, t2) = price_entry(i);
                &&& (#[trigger] r@[i]).price_list_id == Some((base + i + 1) as u32)
                &&& r@[i].phone_country_code == pcc
                &&& r@[i].price_per_second == price
                &&& r@[i].tariffication_first == t1
                &&& r@[i].tariffication_second == t2
            },
{
    let r = vec![
        gen_price_list(base + 1, 49, 30, 60, 20),
        gen_price_list(base + 2, 420, 10, 1, 1),
        gen_price_list(base + 3, 421, 15, 60, 1),
        gen_price_list(base + 4, 48, 20, 60, 10),
        gen_price_list(base + 5, 43, 35, 60, 20),
    ];
    r
}

/// Whether `call` names a number of `numbers` and a price list of
/// `price_lists`: its known party is that number, its other party a number
/// of that price list's country.
pub open spec fn call_refs(
    call: CallDetailRecord,
    numbers: Seq<VoipNumber>,
    price_lists: Seq<PriceList>,
) -> bool {
    &&& exists|k: int|
        0 <= k < numbers.len() && (#[trigger] numbers[k]).number_id == Some(call.number_id) && (
        if call.incoming_outgoing {
            call.destination_num@ == nat_text(numbers[k].number as nat)
        } else {
            call.source_num@ == nat_text(numbers[k].number as nat)
        })
    &&& exists|j: int|
        0 <= j < price_lists.len() && (#[trigger] price_lists[j]).price_list_id
            == call.price_list_id && (if call.incoming_outgoing {
            crate::generators::foreign_number(
                price_lists[j].phone_country_code as nat,
                call.source_num@,
            )
        } else {
            crate::generators::foreign_number(
                price_lists[j].phone_country_code as nat,
                call.destination_num@,
            )
        })
}

/// Generates `count` calls with ids after `base`, each of a number drawn
/// from `numbers` and billed by a price list drawn from `price_lists`.
pub fn gen_calls(
    count: usize,
    base: u32,
    price_lists: &Vec<PriceList>,
    numbers: &Vec<VoipNumber>,
    now: Timestamp,
) -> (r: Vec<CallDetailRecord>)
    requires
        usable_now(now),
        base + count <= u32::MAX,
        count > 0 ==> numbers@.len() > 0,
        price_lists@.len() > 0,
        forall|k: int| 0 <= k < numbers@.len() ==> (#[trigger] numbers@[k]).number_id.is_some(),
        forall|j: int|
            0 <= j < price_lists@.len() ==> (#[trigger] price_lists@[j]).price_list_id.is_some(),
    ensures
        r@.len() == count,
        forall|n: int|
            0 <= n < count ==> {
                &&& (#[trigger] r@[n]).call_id == Some((base + n + 1) as u32)
                &&& call_refs(r@[n], numbers@, price_lists@)
                &&& in_window(r@[n].call_date, now)
                &&& 1 <= r@[n].length < 300
                &&& r@[n].valid()
                &&& r@[n].texts_safe()
            },
{
    let mut calls: Vec<CallDetailRecord> = Vec::new();
    let mut n: usize = 0;
    while n < count
        invariant
            usable_now(now),
            base + count <= u32::MAX,
            count > 0 ==> numbers@.len() > 0,
            price_lists@.len() > 0,
            forall|k: int| 0 <= k < numbers@.len() ==> (#[trigger] numbers@[k]).number_id.is_some(),
            forall|j: int|
                0 <= j < price_lists@.len() ==> (#[trigger] price_lists@[j]).price_list_id.is_some(),
            0 <= n <= count,
            calls@.len() == n,
            forall|c: int|
                0 <= c < n ==> {
                    &&& (#[trigger] calls@[c]).call_id == Some((base + c + 1) as u32)
                    &&& call_refs(calls@[c], numbers@, price_lists@)
                    &&& in_window(calls@[c].call_date, now)
                    &&& 1 <= calls@[c].length < 300
                    &&& calls@[c].valid()
                    &&& calls@[c].texts_safe()
                },
        decreases count - n,
    {
        let j = draw_below(0, price_lists.len() as u64) as usize;
        let k = draw_below(0, numbers.len() as u64) as usize;
        let price_list = &price_lists[j];
        let number = &numbers[k];
        proof {
            crate::entities::lemma_int_text_safe(number.number as int);
        }
        let call = gen_cdr(
            base + (n as u32) + 1,
            price_list.phone_country_code,
            price_list.price_list_id.unwrap(),
            u64_text(number.number as u64),
            number.number_id.unwrap(),
            now,
        );
        assert(call_refs(call, numbers@, price_lists@)) by {
            assert(numbers@[k as int].number_id == Some(call.number_id));
            assert(price_lists@[j as int].price_list_id == call.price_list_id);
        }
        calls.push(call);
        n = n + 1;
    }
    calls
}

/// Row `t` of the invoice item catalog: its name.
pub open spec fn item_name(t: int) -> Seq<char> {
    if t == 0 {
        "Calls"@
    } else if t == 1 {
        "Phone 3CX"@
    } else if t == 2 {
        "Phone 4G"@
    } else if t == 3 {
        "Phone 10L"@
    } else if t == 4 {
        "Phone cable"@
    } else {
        "Phone 787FU"@
    }
}

/// Generates the invoice item catalog with ids after `base`.
pub fn gen_invoice_items(base: u32) -> (r: Vec<InvoiceItem>)
    requires
        base + INVOICE_ITEM_COUNT <= u32::MAX,
    ensures
        r@.len() == INVOICE_ITEM_COUNT,
        forall|t: int|
            0 <= t < INVOICE_ITEM_COUNT ==> {
                &&& (#[trigger] r@[t]).item_id == Some((base + t + 1) as u32)
                &&& r@[t].item_name@ == item_name(t)
                &&& 1 <= r@[t].unit_cost < 10000
            },
{
    let r = vec![
        gen_invoice_item(base + 1, String::from_str("Calls")),
        gen_invoice_item(base + 2, String::from_str("Phone 3CX")),
        gen_invoice_item(base + 3, String::from_str("Phone 4G")),
        gen_invoice_item(base + 4, String::from_str("Phone 10L")),
        gen_invoice_item(base + 5, String::from_str("Phone cable")),
        gen_invoice_item(base + 6, String::from_str("Phone 787FU")),
    ];
    r
}

} // verus!

verus! {

/// Most random draws spent on finding an item not yet on an invoice.
pub const MAX_PICK_ATTEMPTS: u32 = 16;

/// The sum over the lines of invoice `number` of unit cost times count.
pub open spec fn line_total(lines: Seq<InvoiceHasItems>, number: u64) -> nat
    decreases lines.len(),
{
    if lines.len() == 0 {
        0
    } else {
        let l = lines.last();
        line_total(lines.drop_last(), number) + if l.invoice_number == number {
            (l.item_unit_cost * l.item_count) as nat
        } else {
            0
        }
    }
}

/// The number of lines of invoice `number`.
pub open spec fn line_count(lines: Seq<InvoiceHasItems>, number: u64) -> nat
    decreases lines.len(),
{
    if lines.len() == 0 {
        0
    } else {
        line_count(lines.drop_last(), number) + if lines.last().invoice_number == number {
            1nat
        } else {
            0nat
        }
    }
}

/// No item appears twice on one invoice.
pub open spec fn lines_distinct(lines: Seq<InvoiceHasItems>) -> bool {
    forall|a: int, b: int|
        0 <= a < b < lines.len() && (#[trigger] lines[a]).invoice_number
            == (#[trigger] lines[b]).invoice_number ==> lines[a].invoice_item_id
            != lines[b].invoice_item_id
}

/// A line bills one of an item of `items` at that item's unit cost.
pub open spec fn line_ok(line: InvoiceHasItems, items: Seq<InvoiceItem>) -> bool {
    &&& line.item_count == 1
    &&& exists|t: int|
        0 <= t < items.len() && (#[trigger] items[t]).item_id == Some(line.invoice_item_id)
            && line.item_unit_cost == items[t].unit_cost
}

/// Every item has an id, and no two share one.
pub open spec fn items_distinct(items: Seq<InvoiceItem>) -> bool {
    &&& forall|t: int| 0 <= t < items.len() ==> (#[trigger] items[t]).item_id.is_some()
    &&& forall|s: int, t: int|
        0 <= s < t < items.len() ==> (#[trigger] items[s]).item_id != (#[trigger] items[t]).item_id
}

proof fn lemma_push_line(lines: Seq<InvoiceHasItems>, l: InvoiceHasItems, number: u64)
    ensures
        l.invoice_number != number ==> line_total(lines.push(l), number) == line_total(
            lines,
            number,
        ),
        l.invoice_number != number ==> line_count(lines.push(l), number) == line_count(
            lines,
            number,
        ),
        l.invoice_number == number ==> line_total(lines.push(l), number) == line_total(
            lines,
            number,
        ) + l.item_unit_cost * l.item_count,
        l.invoice_number == number ==> line_count(lines.push(l), number) == line_count(
            lines,
            number,
        ) + 1,
{
    assert(lines.push(l).drop_last() =~= lines);
}

proof fn lemma_no_lines(lines: Seq<InvoiceHasItems>, number: u64)
    requires
        forall|a: int| 0 <= a < lines.len() ==> (#[trigger] lines[a]).invoice_number < number,
    ensures
        line_total(lines, number) == 0,
        line_count(lines, number) == 0,
    decreases lines.len(),
{
    if lines.len() > 0 {
        let init = lines.drop_last();
        assert forall|a: int| 0 <= a < init.len() implies (#[trigger] init[a]).invoice_number
            < number by {
            assert(init[a] == lines[a]);
        }
        lemma_no_lines(init, number);
        assert(lines.last() == lines[lines.len() - 1]);
    }
}

/// Picks an item index below `n` that `picked` does not hold: by drawing,
/// a bounded number of times, then by taking the lowest free index.
fn pick_item(picked: &Vec<usize>, n: usize) -> (r: usize)
    requires
        2 <= n,
        picked@.len() <= 1,
    ensures
        r < n,
        !picked@.contains(r),
{
    let mut attempts: u32 = 0;
    while attempts < MAX_PICK_ATTEMPTS
        invariant
            2 <= n,
            picked@.len() <= 1,
        decreases MAX_PICK_ATTEMPTS - attempts,
    {
        let c = draw_below(0, n as u64) as usize;
        if picked.len() == 0 || picked[0] != c {
            assert(!picked@.contains(c)) by {
                if picked@.len() == 1 {
                    assert(picked@ =~= seq![picked@[0]]);
                }
            }
            return c;
        }
        attempts = attempts + 1;
    }
    let r: usize = if picked.len() == 0 || picked[0] != 0 {
        0
    } else {
        1
    };
    assert(!picked@.contains(r)) by {
        if picked@.len() == 1 {
            assert(picked@ =~= seq![picked@[0]]);
        }
    }
    r
}

} // verus!

verus! {

/// Appends the lines of invoice `number` to `lines`: one or two distinct
/// items of `items`, each once at its unit cost. Returns the invoice's
/// amount.
fn add_invoice_lines(number: u64, items: &Vec<InvoiceItem>, lines: &mut Vec<InvoiceHasItems>) -> (r:
    u64)
    requires
        items@.len() == INVOICE_ITEM_COUNT,
        items_distinct(items@),
        forall|t: int| 0 <= t < items@.len() ==> (#[trigger] items@[t]).unit_cost < 10000,
        forall|a: int| 0 <= a < old(lines)@.len() ==> (#[trigger] old(lines)@[a]).invoice_number < number,
        lines_distinct(old(lines)@),
    ensures
        old(lines)@.len() + 1 <= final(lines)@.len() <= old(lines)@.len() + 2,
        final(lines)@.subrange(0, old(lines)@.len() as int) == old(lines)@,
        forall|a: int|
            old(lines)@.len() <= a < final(lines)@.len() ==> (#[trigger] final(lines)@[a]).invoice_number
                == number && line_ok(final(lines)@[a], items@),
        lines_distinct(final(lines)@),
        r == line_total(final(lines)@, number),
        1 <= line_count(final(lines)@, number) <= 2,
        forall|n: u64|
            n != number ==> line_total(#[trigger] final(lines)@, n) == line_total(old(lines)@, n)
                && line_count(final(lines)@, n) == line_count(old(lines)@, n),
{
    let ghost start_lines = lines@;
    let start = lines.len();
    proof {
        lemma_no_lines(lines@, number);
    }
    let items_count = draw_below(2, 4);
    let mut total: u64 = 0;
    let mut picked: Vec<usize> = Vec::new();
    let mut t: u64 = 1;
    while t < items_count
        invariant
            items@.len() == INVOICE_ITEM_COUNT,
            items_distinct(items@),
            forall|s: int| 0 <= s < items@.len() ==> (#[trigger] items@[s]).unit_cost < 10000,
            forall|a: int| 0 <= a < start_lines.len() ==> (#[trigger] start_lines[a]).invoice_number < number,
            lines_distinct(start_lines),
            start == start_lines.len(),
            2 <= items_count <= 3,
            1 <= t <= items_count,
            picked@.len() == t - 1,
            lines@.len() == start + picked@.len(),
            lines@.subrange(0, start as int) == start_lines,
            forall|q: int| 0 <= q < picked@.len() ==> (#[trigger] picked@[q]) < INVOICE_ITEM_COUNT,
            picked@.len() == 2 ==> picked@[0] != picked@[1],
            forall|q: int|
                0 <= q < picked@.len() ==> {
                    &&& (#[trigger] lines@[start + q]).invoice_number == number
                    &&& items@[picked@[q] as int].item_id == Some(lines@[start + q].invoice_item_id)
                    &&& line_ok(lines@[start + q], items@)
                },
            total == line_total(lines@, number),
            total <= 10000 * picked@.len(),
            line_count(lines@, number) == picked@.len(),
            forall|n: u64|
                n != number ==> line_total(#[trigger] lines@, n) == line_total(start_lines, n)
                    && line_count(lines@, n) == line_count(start_lines, n),
        decreases items_count - t,
    {
        let idx = pick_item(&picked, items.len());
        let item = &items[idx];
        let line = InvoiceHasItems::new(number, item.item_id.unwrap(), item.unit_cost, 1);
        let ghost before = lines@;
        total = total + item.unit_cost as u64;
        lines.push(line);
        let ghost before_picked = picked@;
        picked.push(idx);
        proof {
            lemma_push_line(before, line, number);
            assert forall|n: u64| n != number implies line_total(#[trigger] lines@, n)
                == line_total(start_lines, n) && line_count(lines@, n) == line_count(
                start_lines,
                n,
            ) by {
                lemma_push_line(before, line, n);
            }
            assert(lines@.subrange(0, start as int) =~= before.subrange(0, start as int));
            assert(line_ok(line, items@)) by {
                assert(items@[idx as int].item_id == Some(line.invoice_item_id));
            }
            assert forall|q: int| 0 <= q < picked@.len() implies {
                &&& (#[trigger] lines@[start + q]).invoice_number == number
                &&& items@[picked@[q] as int].item_id == Some(lines@[start + q].invoice_item_id)
                &&& line_ok(lines@[start + q], items@)
            } by {
                if q < before_picked.len() {
                    assert(lines@[start + q] == before[start + q]);
                    assert(picked@[q] == before_picked[q]);
                }
            }
            if picked@.len() == 2 {
                assert(before_picked.contains(before_picked[0]));
            }
        }
        t = t + 1;
    }
    proof {
        let end = lines@;
        assert(end.subrange(0, start as int) == start_lines);
        assert forall|a: int, b: int|
            0 <= a < b < end.len() && (#[trigger] end[a]).invoice_number
                == (#[trigger] end[b]).invoice_number implies end[a].invoice_item_id
            != end[b].invoice_item_id by {
            if b < start {
                assert(end[a] == start_lines[a]);
                assert(end[b] == start_lines[b]);
            } else if a < start {
                assert(end[a] == start_lines[a]);
                assert(start_lines[a].invoice_number < number);
                assert(end[start + (b - start)].invoice_number == number);
            } else {
                let qa = a - start;
                let qb = b - start;
                assert(end[start + qa].invoice_number == number);
                assert(end[start + qb].invoice_number == number);
                assert(picked@[qa] != picked@[qb]);
                let ia = picked@[qa] as int;
                let ib = picked@[qb] as int;
                if ia < ib {
                    assert(items@[ia].item_id != items@[ib].item_id);
                } else {
                    assert(items@[ib].item_id != items@[ia].item_id);
                }
            }
        }
        assert forall|a: int| start <= a < end.len() implies (#[trigger] end[a]).invoice_number
            == number && line_ok(end[a], items@) by {
            assert(end[start + (a - start)] == end[a]);
        }
    }
    total
}

} // verus!

verus! {

/// Most invoices that one contract gets.
pub const MAX_INVOICES: u64 = 6;

/// What every generated invoice satisfies: it is issued within the window,
/// due fourteen days later, paid (if at all) within the window, and renders.
pub open spec fn invoice_ok(inv: Invoice, now: Timestamp) -> bool {
    &&& in_window(inv.created_at, now)
    &&& inv.taxable_period == inv.created_at
    &&& inv.maturity.seconds == inv.created_at.seconds + MATURITY_DAYS
        * crate::clock::SECONDS_PER_DAY
    &&& inv.paid.is_some() ==> in_window(inv.paid.unwrap(), now)
    &&& inv.valid()
}

/// The invoices numbered from `base`, each of a contract of `contracts`,
/// with one or two lines of distinct items of `items` that sum to its
/// amount.
pub open spec fn invoices_ok(
    contracts: Seq<Contract>,
    items: Seq<InvoiceItem>,
    invoices: Seq<Invoice>,
    lines: Seq<InvoiceHasItems>,
    base: u64,
    now: Timestamp,
) -> bool {
    &&& forall|k: int|
        0 <= k < invoices.len() ==> {
            &&& (#[trigger] invoices[k]).invoice_number == base + k + 1
            &&& has_contract(contracts, invoices[k].contract_id)
            &&& invoice_ok(invoices[k], now)
            &&& invoices[k].amount == line_total(lines, invoices[k].invoice_number)
            &&& 1 <= line_count(lines, invoices[k].invoice_number) <= 2
        }
    &&& forall|a: int|
        0 <= a < lines.len() ==> {
            &&& base < (#[trigger] lines[a]).invoice_number <= base + invoices.len()
            &&& line_ok(lines[a], items)
        }
    &&& lines_distinct(lines)
}

/// How many of `invoices` bill the contract `id`.
pub open spec fn invoice_count(invoices: Seq<Invoice>, id: u32) -> nat
    decreases invoices.len(),
{
    if invoices.len() == 0 {
        0
    } else {
        invoice_count(invoices.drop_last(), id) + if invoices.last().contract_id == id {
            1nat
        } else {
            0nat
        }
    }
}

proof fn lemma_invoice_count_push(invoices: Seq<Invoice>, inv: Invoice, id: u32)
    ensures
        invoice_count(invoices.push(inv), id) == invoice_count(invoices, id) + if inv.contract_id
            == id {
            1nat
        } else {
            0nat
        },
{
    assert(invoices.push(inv).drop_last() =~= invoices);
}

/// Generates up to six invoices for each contract, numbered after `base`,
/// with their lines.
pub fn gen_invoices(
    contracts: &Vec<Contract>,
    items: &Vec<InvoiceItem>,
    base: u64,
    now: Timestamp,
) -> (r: (Vec<Invoice>, Vec<InvoiceHasItems>))
    requires
        usable_now(now),
        base + MAX_INVOICES * contracts@.len() <= u64::MAX,
        contract_ids_distinct(contracts@),
        items@.len() == INVOICE_ITEM_COUNT,
        items_distinct(items@),
        forall|t: int| 0 <= t < items@.len() ==> (#[trigger] items@[t]).unit_cost < 10000,
    ensures
        r.0@.len() <= MAX_INVOICES * contracts@.len(),
        invoices_ok(contracts@, items@, r.0@, r.1@, base, now),
        forall|i: int|
            0 <= i < contracts@.len() ==> invoice_count(
                r.0@,
                (#[trigger] contracts@[i]).contract_id.unwrap(),
            ) <= MAX_INVOICES,
{
    let n = contracts.len();
    let mut invoices: Vec<Invoice> = Vec::new();
    let mut lines: Vec<InvoiceHasItems> = Vec::new();
    let mut in_num: u64 = base;
    let mut i: usize = 0;
    while i < n
        invariant
            n == contracts@.len(),
            usable_now(now),
            base + MAX_INVOICES * n <= u64::MAX,
            contract_ids_distinct(contracts@),
            items@.len() == INVOICE_ITEM_COUNT,
            items_distinct(items@),
            forall|t: int| 0 <= t < items@.len() ==> (#[trigger] items@[t]).unit_cost < 10000,
            0 <= i <= n,
            invoices@.len() <= MAX_INVOICES * i,
            forall|c: int|
                0 <= c < n ==> {
                    let count = invoice_count(
                        invoices@,
                        (#[trigger] contracts@[c]).contract_id.unwrap(),
                    );
                    &&& c < i ==> count <= MAX_INVOICES
                    &&& c >= i ==> count == 0
                },
            in_num == base + invoices@.len(),
            invoices_ok(contracts@, items@, invoices@, lines@, base, now),
        decreases n - i,
    {
        let contract_id = contracts[i].contract_id.unwrap();
        assert(has_contract(contracts@, contract_id)) by {
            assert(contracts@[i as int].contract_id == Some(contract_id));
        }
        assert(MAX_INVOICES * (i + 1) <= MAX_INVOICES * n) by (nonlinear_arith)
            requires
                i < n,
        ;
        let first = invoices.len();
        let invoices_count = draw_below(0, MAX_INVOICES + 2);
        let mut k: u64 = 1;
        while k < invoices_count
            invariant
                n == contracts@.len(),
                usable_now(now),
                base + MAX_INVOICES * n <= u64::MAX,
                MAX_INVOICES * (i + 1) <= MAX_INVOICES * n,
                items@.len() == INVOICE_ITEM_COUNT,
                items_distinct(items@),
                forall|t: int| 0 <= t < items@.len() ==> (#[trigger] items@[t]).unit_cost < 10000,
                0 <= i < n,
                has_contract(contracts@, contract_id),
                invoices_count <= MAX_INVOICES + 1,
                1 <= k,
                k <= invoices_count || k == 1,
                first <= MAX_INVOICES * i,
                invoices@.len() == first + k - 1,
                in_num == base + invoices@.len(),
                contract_ids_distinct(contracts@),
                contracts@[i as int].contract_id == Some(contract_id),
                forall|c: int|
                    0 <= c < n ==> {
                        let count = invoice_count(
                            invoices@,
                            (#[trigger] contracts@[c]).contract_id.unwrap(),
                        );
                        &&& c < i ==> count <= MAX_INVOICES
                        &&& c > i ==> count == 0
                        &&& c == i ==> count == k - 1
                    },
                invoices_ok(contracts@, items@, invoices@, lines@, base, now),
            decreases invoices_count - k,
        {
            in_num = in_num + 1;
            let ghost before = lines@;
            let ghost before_invoices = invoices@;
            let amount = add_invoice_lines(in_num, items, &mut lines);
            let invoice = gen_invoice(in_num, amount, contract_id, now);
            invoices.push(invoice);
            proof {
                assert forall|c: int| 0 <= c < n implies {
                    let count = invoice_count(
                        invoices@,
                        (#[trigger] contracts@[c]).contract_id.unwrap(),
                    );
                    &&& c < i ==> count <= MAX_INVOICES
                    &&& c > i ==> count == 0
                    &&& c == i ==> count == k
                } by {
                    lemma_invoice_count_push(
                        before_invoices,
                        invoice,
                        contracts@[c].contract_id.unwrap(),
                    );
                    if c < i {
                        assert(contracts@[c].contract_id != contracts@[i as int].contract_id);
                    } else if c > i {
                        assert(contracts@[i as int].contract_id != contracts@[c].contract_id);
                    }
                }
                assert forall|q: int| 0 <= q < invoices@.len() implies {
                    &&& (#[trigger] invoices@[q]).invoice_number == base + q + 1
                    &&& has_contract(contracts@, invoices@[q].contract_id)
                    &&& invoice_ok(invoices@[q], now)
                    &&& invoices@[q].amount == line_total(lines@, invoices@[q].invoice_number)
                    &&& 1 <= line_count(lines@, invoices@[q].invoice_number) <= 2
                } by {
                    if q < before_invoices.len() {
                        assert(invoices@[q] == before_invoices[q]);
                        let num = invoices@[q].invoice_number;
                        assert(num != in_num);
                        assert(line_total(lines@, num) == line_total(before, num));
                    }
                }
                assert forall|a: int| 0 <= a < lines@.len() implies {
                    &&& base < (#[trigger] lines@[a]).invoice_number <= base + invoices@.len()
                    &&& line_ok(lines@[a], items@)
                } by {
                    if a < before.len() {
                        assert(lines@[a] == lines@.subrange(0, before.len() as int)[a]);
                    }
                }
            }
            k = k + 1;
        }
        assert(MAX_INVOICES * (i + 1) == MAX_INVOICES * i + MAX_INVOICES) by (nonlinear_arith);
        i = i + 1;
    }
    (invoices, lines)
}

} // verus!

verus! {

/// Every collection of one run, with the clock reading it was drawn
/// against.
#[derive(Debug)]
pub struct Dataset {
    pub contracts: Vec<Contract>,
    pub addresses: Vec<Address>,
    pub participants: Vec<Participant>,
    pub voip_numbers: Vec<VoipNumber>,
    pub number_requests: Vec<NumberRequest>,
    pub price_lists: Vec<PriceList>,
    pub calls: Vec<CallDetailRecord>,
    pub invoice_items: Vec<InvoiceItem>,
    pub invoices: Vec<Invoice>,
    pub invoice_lines: Vec<InvoiceHasItems>,
    pub generated_at: Timestamp,
}

/// Whether a run of `contract_count` contracts and `calls_count` calls fits
/// every identifier domain above `marks`, and has numbers to place its
/// calls on.
pub open spec fn counts_fit(
    marks: crate::identities::Identities,
    contract_count: usize,
    calls_count: usize,
) -> bool {
    let n = contract_count as int;
    &&& marks.contract + n <= u32::MAX
    &&& VARIABLE_SYMBOL_BASE + n <= i32::MAX
    &&& marks.address + n <= u32::MAX
    &&& marks.participant + MAX_PARTICIPANTS * n <= u32::MAX
    &&& marks.voip_number + (MAX_NUMBERS + 1) * MAX_PARTICIPANTS * n <= u32::MAX
    &&& marks.price_list + PRICE_LIST_COUNT <= u32::MAX
    &&& marks.call_record + calls_count <= u32::MAX
    &&& marks.invoice_item + INVOICE_ITEM_COUNT <= u32::MAX
    &&& marks.invoice_number + MAX_INVOICES * n <= u64::MAX
    &&& calls_count > 0 ==> contract_count > 0
}

/// What a run's dataset holds, collection by collection.
pub open spec fn dataset_ok(
    marks: crate::identities::Identities,
    contract_count: usize,
    calls_count: usize,
    d: Dataset,
) -> bool {
    let n = contract_count as int;
    let now = d.generated_at;
    let contracts = d.contracts@;
    let participants = d.participants@;
    &&& counts_fit(marks, contract_count, calls_count)
    &&& usable_now(now)
    // contracts
    &&& contracts.len() == n
    &&& forall|i: int|
        0 <= i < n ==> {
            &&& (#[trigger] contracts[i]).contract_id == Some((marks.contract + i + 1) as u32)
            &&& contracts[i].variable_symbol == VARIABLE_SYMBOL_BASE + i + 1
            &&& contracts[i].vat_identification_number.is_some()
                == contracts[i].identification_number.is_some()
            &&& contracts[i].valid()
        }
    // addresses
    &&& d.addresses@.len() == n
    &&& forall|i: int|
        0 <= i < n ==> {
            &&& (#[trigger] d.addresses@[i]).address_id == Some((marks.address + i + 1) as u32)
            &&& Some(d.addresses@[i].contract_id) == contracts[i].contract_id
        }
    // participants
    &&& n <= participants.len() <= MAX_PARTICIPANTS * n
    &&& forall|j: int|
        0 <= j < participants.len() ==> {
            &&& (#[trigger] participants[j]).participant_id == Some(
                (marks.participant + j + 1) as u32,
            )
            &&& has_contract(contracts, participants[j].contract_id)
            &&& participants[j].valid()
        }
    &&& forall|i: int|
        0 <= i < n ==> 1 <= participant_count(
            participants,
            (#[trigger] contracts[i]).contract_id.unwrap(),
        ) <= MAX_PARTICIPANTS
    // numbers and requests
    &&& participants.len() <= d.voip_numbers@.len() <= (MAX_NUMBERS + 1) * participants.len()
    &&& numbers_ok(participants, d.voip_numbers@, d.number_requests@, marks.voip_number, now)
    &&& holdings_ok(participants, d.voip_numbers@)
    &&& n <= assigned_total(d.voip_numbers@) <= MAX_PARTICIPANTS * MAX_NUMBERS * n
    // price lists
    &&& d.price_lists@.len() == PRICE_LIST_COUNT
    &&& forall|i: int|
        0 <= i < PRICE_LIST_COUNT ==> {
            let (pcc, price, t1, t2) = price_entry(i);
            &&& (#[trigger] d.price_lists@[i]).price_list_id == Some(
                (marks.price_list + i + 1) as u32,
            )
            &&& d.price_lists@[i].phone_country_code == pcc
            &&& d.price_lists@[i].price_per_second == price
            &&& d.price_lists@[i].tariffication_first == t1
            &&& d.price_lists@[i].tariffication_second == t2
        }
    // calls
    &&& d.calls@.len() == calls_count
    &&& forall|c: int|
        0 <= c < calls_count ==> {
            &&& (#[trigger] d.calls@[c]).call_id == Some((marks.call_record + c + 1) as u32)
            &&& call_refs(d.calls@[c], d.voip_numbers@, d.price_lists@)
            &&& in_window(d.calls@[c].call_date, now)
            &&& 1 <= d.calls@[c].length < 300
            &&& d.calls@[c].valid()
            &&& d.calls@[c].texts_safe()
        }
    // invoice items, invoices and their lines
    &&& d.invoice_items@.len() == INVOICE_ITEM_COUNT
    &&& forall|t: int|
        0 <= t < INVOICE_ITEM_COUNT ==> {
            &&& (#[trigger] d.invoice_items@[t]).item_id == Some(
                (marks.invoice_item + t + 1) as u32,
            )
            &&& d.invoice_items@[t].item_name@ == item_name(t)
            &&& 1 <= d.invoice_items@[t].unit_cost < 10000
        }
    &&& d.invoices@.len() <= MAX_INVOICES * n
    &&& forall|i: int|
        0 <= i < n ==> invoice_count(d.invoices@, (#[trigger] contracts[i]).contract_id.unwrap())
            <= MAX_INVOICES
    &&& invoices_ok(
        contracts,
        d.invoice_items@,
        d.invoices@,
        d.invoice_lines@,
        marks.invoice_number,
        now,
    )
}

/// Builds every collection of a run in dependency order, drawing times
/// against `now`: contracts; their addresses and participants; the
/// participants' numbers and requests; the price lists; the calls; the
/// invoice items; the invoices and their lines.
pub fn assemble(
    marks: &crate::identities::Identities,
    contract_count: usize,
    calls_count: usize,
    now: Timestamp,
) -> (r: Dataset)
    requires
        counts_fit(*marks, contract_count, calls_count),
        usable_now(now),
    ensures
        dataset_ok(*marks, contract_count, calls_count, r),
        r.generated_at == now,
{
    let contracts = gen_contracts(marks.contract, contract_count);
    let (addresses, participants) = gen_members(&contracts, marks.address, marks.participant);
    assert((MAX_NUMBERS + 1) * participants@.len() <= (MAX_NUMBERS + 1) * MAX_PARTICIPANTS
        * contract_count) by (nonlinear_arith)
        requires
            participants@.len() <= MAX_PARTICIPANTS * contract_count,
    ;
    let (voip_numbers, number_requests) = gen_numbers(&participants, marks.voip_number, now);
    assert(MAX_NUMBERS * participants@.len() <= MAX_PARTICIPANTS * MAX_NUMBERS * contract_count)
        by (nonlinear_arith)
        requires
            participants@.len() <= MAX_PARTICIPANTS * contract_count,
    ;
    let price_lists = gen_price_lists(marks.price_list);
    let calls = gen_calls(calls_count, marks.call_record, &price_lists, &voip_numbers, now);
    let invoice_items = gen_invoice_items(marks.invoice_item);
    let (invoices, invoice_lines) = gen_invoices(
        &contracts,
        &invoice_items,
        marks.invoice_number,
        now,
    );
    Dataset {
        contracts,
        addresses,
        participants,
        voip_numbers,
        number_requests,
        price_lists,
        calls,
        invoice_items,
        invoices,
        invoice_lines,
        generated_at: now,
    }
}

} // verus!

verus! {

/// Whether a run of these sizes fits the identifier domains above `marks`.
pub fn check_counts(
    marks: &crate::identities::Identities,
    contract_count: usize,
    calls_count: usize,
) -> (r: bool)
    ensures
        r == counts_fit(*marks, contract_count, calls_count),
{
    let n = contract_count as u128;
    let max32 = u32::MAX as u128;
    assert(n <= u64::MAX);
    let participants_needed: u128 = 4 * n;
    let numbers_needed: u128 = 20 * n;
    let invoices_needed: u128 = 6 * n;
    marks.contract as u128 + n <= max32 && VARIABLE_SYMBOL_BASE as u128 + n <= i32::MAX as u128
        && marks.address as u128 + n <= max32 && marks.participant as u128 + participants_needed
        <= max32 && marks.voip_number as u128 + numbers_needed <= max32 && marks.price_list as u128
        + PRICE_LIST_COUNT as u128 <= max32 && marks.call_record as u128 + calls_count as u128
        <= max32 && marks.invoice_item as u128 + INVOICE_ITEM_COUNT as u128 <= max32
        && marks.invoice_number as u128 + invoices_needed <= u64::MAX as u128 && (calls_count == 0
        || contract_count > 0)
}

/// Generates a run's dataset against the clock reading `now`. Sizes that
/// do not fit the identifier domains above `marks` give `InvalidArguments`;
/// otherwise a reading outside the usable range gives `ClockOutOfRange`;
/// otherwise the run succeeds.
pub fn dataset_at(
    marks: &crate::identities::Identities,
    contract_count: usize,
    calls_count: usize,
    now: Timestamp,
) -> (r: Result<Dataset, crate::identities::PipelineError>)
    ensures
        !counts_fit(*marks, contract_count, calls_count) <==> r == Err::<
            Dataset,
            crate::identities::PipelineError,
        >(crate::identities::PipelineError::InvalidArguments),
        (counts_fit(*marks, contract_count, calls_count) && !usable_now(now)) <==> r == Err::<
            Dataset,
            crate::identities::PipelineError,
        >(crate::identities::PipelineError::ClockOutOfRange),
        (counts_fit(*marks, contract_count, calls_count) && usable_now(now)) ==> {
            &&& r.is_ok()
            &&& dataset_ok(*marks, contract_count, calls_count, r.unwrap())
            &&& r.unwrap().generated_at == now
        },
{
    if !check_counts(marks, contract_count, calls_count) {
        return Err(crate::identities::PipelineError::InvalidArguments);
    }
    if now.seconds < crate::clock::WINDOW_START + 60 || now.seconds
        > crate::clock::LATEST_SECOND - MATURITY_DAYS * crate::clock::SECONDS_PER_DAY {
        return Err(crate::identities::PipelineError::ClockOutOfRange);
    }
    Ok(assemble(marks, contract_count, calls_count, now))
}

/// Generates a run's dataset against the current time, as `dataset_at`
/// does for the clock reading taken here.
pub fn generate_dataset(
    marks: &crate::identities::Identities,
    contract_count: usize,
    calls_count: usize,
) -> (r: Result<Dataset, crate::identities::PipelineError>)
    ensures
        !counts_fit(*marks, contract_count, calls_count) <==> r == Err::<
            Dataset,
            crate::identities::PipelineError,
        >(crate::identities::PipelineError::InvalidArguments),
        r.is_err() ==> r == Err::<Dataset, crate::identities::PipelineError>(
            crate::identities::PipelineError::InvalidArguments,
        ) || r == Err::<Dataset, crate::identities::PipelineError>(
            crate::identities::PipelineError::ClockOutOfRange,
        ),
        r == Err::<Dataset, crate::identities::PipelineError>(
            crate::identities::PipelineError::ClockOutOfRange,
        ) ==> counts_fit(*marks, contract_count, calls_count),
        r.is_ok() ==> dataset_ok(*marks, contract_count, calls_count, r.unwrap()),
{
    let now = Timestamp { seconds: crate::clock::unix_now() };
    dataset_at(marks, contract_count, calls_count, now)
}

/// Identifier continuity: the first contract of a run takes the id just
/// above the store's mark, and each next contract the id after its
/// predecessor's, so the run's ids are the `contract_count` values above
/// the mark, without gaps or repeats.
pub proof fn lemma_contract_ids_continue(
    marks: crate::identities::Identities,
    contract_count: usize,
    calls_count: usize,
    d: Dataset,
)
    requires
        dataset_ok(marks, contract_count, calls_count, d),
    ensures
        contract_count > 0 ==> d.contracts@[0].contract_id == Some((marks.contract + 1) as u32),
        forall|i: int|
            0 <= i < contract_count - 1 ==> (#[trigger] d.contracts@[i + 1]).contract_id.unwrap()
                == d.contracts@[i].contract_id.unwrap() + 1,
        forall|i: int, j: int|
            0 <= i < j < contract_count ==> (#[trigger] d.contracts@[i]).contract_id
                != (#[trigger] d.contracts@[j]).contract_id,
{
    assert forall|i: int| 0 <= i < contract_count - 1 implies (#[trigger] d.contracts@[i
        + 1]).contract_id.unwrap() == d.contracts@[i].contract_id.unwrap() + 1 by {
        assert(d.contracts@[i].contract_id == Some((marks.contract + i + 1) as u32));
        assert(d.contracts@[i + 1].contract_id == Some((marks.contract + (i + 1) + 1) as u32));
    }
    assert forall|i: int, j: int| 0 <= i < j < contract_count implies (
    #[trigger] d.contracts@[i]).contract_id != (#[trigger] d.contracts@[j]).contract_id by {
        assert(d.contracts@[i].contract_id == Some((marks.contract + i + 1) as u32));
        assert(d.contracts@[j].contract_id == Some((marks.contract + j + 1) as u32));
    }
}

} // verus!
