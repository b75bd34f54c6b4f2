//! The rows of the schema, and how each becomes a line of the bulk format.
use vstd::prelude::*;

use crate::clock::{render_rfc3339, rfc3339_shape, rfc3339_text, Timestamp, LATEST_SECOND};
use crate::codec::{
    encode_row, field_safe, fields_of_line, join, join_with_delimiter, lemma_row_round_trip,
    null_token, row_safe, row_text, text_safe, DELIMITER, LINE_END,
};
use crate::text::{i64_text, int_text, is_digit, nat_text, u64_text};

verus! {

/// A type whose values load as one line of the bulk format each.
pub trait CommaDelimited {
    /// The values that the type can render.
    spec fn valid(&self) -> bool;

    /// The fields of the value, in the order of its columns.
    spec fn row(&self) -> Seq<Option<Seq<char>>>;

    /// Whether the value's free-text fields are carried by the bulk format
    /// unchanged.
    spec fn texts_safe(&self) -> bool;

    /// The value as one line of the bulk format. When the free-text fields
    /// are safe, reading the line back gives every field of the value.
    fn to_csv(&self) -> (r: String)
        requires
            self.valid(),
        ensures
            r@ == row_text(self.row()),
            self.texts_safe() ==> fields_of_line(r@) == self.row(),
    ;
}

/// A type that names the table and the columns it loads into.
pub trait SqlInsert {
    /// The table with its column list, in the order of the row's fields.
    spec fn header() -> Seq<char>;

    fn insert_header() -> (r: String)
        ensures
            r@ == Self::header(),
    ;
}

/// A number field.
pub open spec fn num_field(n: int) -> Option<Seq<char>> {
    Some(int_text(n))
}

/// An optional number field.
pub open spec fn opt_num_field(n: Option<int>) -> Option<Seq<char>> {
    match n {
        Some(v) => Some(int_text(v)),
        None => None,
    }
}

/// An optional `u32` seen as an integer.
pub open spec fn opt_u32(n: Option<u32>) -> Option<int> {
    match n {
        Some(v) => Some(v as int),
        None => None,
    }
}

/// An optional text field.
pub open spec fn opt_text_field(s: Option<String>) -> Option<Seq<char>> {
    match s {
        Some(t) => Some(t@),
        None => None,
    }
}

/// A point in time as a field.
pub open spec fn time_field(t: Timestamp) -> Option<Seq<char>> {
    Some(rfc3339_text(t.seconds as int))
}

/// An optional point in time as a field.
pub open spec fn opt_time_field(t: Option<Timestamp>) -> Option<Seq<char>> {
    match t {
        Some(v) => time_field(v),
        None => None,
    }
}

/// A truth value as a field.
pub open spec fn bool_field(b: bool) -> Option<Seq<char>> {
    if b {
        Some("true"@)
    } else {
        Some("false"@)
    }
}

/// Whether `t` renders as a point in time.
pub open spec fn renderable(t: Timestamp) -> bool {
    0 <= t.seconds <= LATEST_SECOND
}

/// Whether an optional point in time renders.
pub open spec fn opt_renderable(t: Option<Timestamp>) -> bool {
    match t {
        Some(v) => renderable(v),
        None => true,
    }
}

/// A number's digits: at least one, and nothing else.
pub proof fn lemma_nat_text_digits(n: nat)
    ensures
        nat_text(n).len() > 0,
        forall|i: int| 0 <= i < nat_text(n).len() ==> is_digit(#[trigger] nat_text(n)[i]),
    decreases n,
{
    if n >= 10 {
        lemma_nat_text_digits(n / 10);
        let t = nat_text(n);
        assert forall|i: int| 0 <= i < t.len() implies is_digit(#[trigger] t[i]) by {
            if i < t.len() - 1 {
                assert(t[i] == nat_text(n / 10)[i]);
            }
        }
    }
}

/// Text that starts with anything but `n` and holds no delimiter or line end
/// is carried unchanged.
pub proof fn lemma_plain_text_safe(s: Seq<char>)
    requires
        s.len() > 0,
        s[0] != 'n',
        forall|i: int| 0 <= i < s.len() ==> (#[trigger] s[i]) != DELIMITER && s[i] != LINE_END,
    ensures
        text_safe(s),
{
    assert(s != null_token()) by {
        assert(null_token()[0] == 'n');
    }
    if s.contains(DELIMITER) {
        let k = choose|k: int| 0 <= k < s.len() && s[k] == DELIMITER;
    }
    if s.contains(LINE_END) {
        let k = choose|k: int| 0 <= k < s.len() && s[k] == LINE_END;
    }
}

/// A number's text is carried unchanged.
pub proof fn lemma_int_text_safe(i: int)
    ensures
        text_safe(int_text(i)),
{
    let n: nat = if i < 0 {
        (-i) as nat
    } else {
        i as nat
    };
    lemma_nat_text_digits(n);
    let s = int_text(i);
    assert forall|k: int| 0 <= k < s.len() implies (#[trigger] s[k]) != DELIMITER && s[k]
        != LINE_END && (k == 0 ==> s[k] != 'n') by {
        if i < 0 {
            if k > 0 {
                assert(s[k] == nat_text(n)[k - 1]);
            }
        } else {
            assert(is_digit(s[k]));
        }
    }
    lemma_plain_text_safe(s);
}

/// A rendered time is carried unchanged.
proof fn lemma_time_text_safe(s: Seq<char>)
    requires
        rfc3339_shape(s),
    ensures
        text_safe(s),
{
    assert forall|k: int| 0 <= k < s.len() implies (#[trigger] s[k]) != DELIMITER && s[k]
        != LINE_END by {
        assert(crate::clock::rfc3339_char(s[k]));
    }
    assert(crate::clock::rfc3339_char(s[0]));
    lemma_plain_text_safe(s);
}

/// Whether every present text of an optional field is carried unchanged.
pub open spec fn opt_text_safe(s: Option<String>) -> bool {
    field_safe(opt_text_field(s))
}

fn num_cell(n: i64) -> (r: Option<String>)
    ensures
        r.deep_view() == num_field(n as int),
        field_safe(r.deep_view()),
{
    proof {
        lemma_int_text_safe(n as int);
    }
    Some(i64_text(n))
}

fn unsigned_cell(n: u64) -> (r: Option<String>)
    ensures
        r.deep_view() == num_field(n as int),
        field_safe(r.deep_view()),
{
    proof {
        lemma_int_text_safe(n as int);
    }
    Some(u64_text(n))
}

fn opt_u32_cell(n: Option<u32>) -> (r: Option<String>)
    ensures
        r.deep_view() == opt_num_field(opt_u32(n)),
        field_safe(r.deep_view()),
{
    proof {
        if n.is_some() {
            lemma_int_text_safe(n.unwrap() as int);
        }
    }
    match n {
        Some(v) => Some(u64_text(v as u64)),
        None => None,
    }
}

fn text_cell(s: &String) -> (r: Option<String>)
    ensures
        r.deep_view() == Some(s@),
{
    Some(s.clone())
}

fn opt_text_cell(s: &Option<String>) -> (r: Option<String>)
    ensures
        r.deep_view() == opt_text_field(*s),
{
    match s {
        Some(t) => Some(t.clone()),
        None => None,
    }
}

fn time_cell(t: Timestamp) -> (r: Option<String>)
    requires
        renderable(t),
    ensures
        r.deep_view() == time_field(t),
        field_safe(r.deep_view()),
{
    let s = render_rfc3339(t.seconds);
    proof {
        lemma_time_text_safe(s@);
    }
    Some(s)
}

fn opt_time_cell(t: Option<Timestamp>) -> (r: Option<String>)
    requires
        opt_renderable(t),
    ensures
        r.deep_view() == opt_time_field(t),
        field_safe(r.deep_view()),
{
    match t {
        Some(v) => time_cell(v),
        None => None,
    }
}

fn bool_cell(b: bool) -> (r: Option<String>)
    ensures
        r.deep_view() == bool_field(b),
        field_safe(r.deep_view()),
{
    proof {
        reveal_strlit("true");
        reveal_strlit("false");
        lemma_plain_text_safe("true"@);
        lemma_plain_text_safe("false"@);
    }
    if b {
        Some(String::from_str("true"))
    } else {
        Some(String::from_str("false"))
    }
}

} // verus!

verus! {

/// A customer contract.
#[derive(Debug)]
pub struct Contract {
    pub contract_id: Option<u32>,
    pub contract_name: String,
    pub variable_symbol: i32,
    pub identification_number: Option<i32>,
    pub vat_identification_number: Option<String>,
    pub created_at: Option<Timestamp>,
    pub deleted_at: Option<Timestamp>,
    pub notify_limit: Option<u32>,
    pub email: String,
    pub phone_number: String,
    pub bonus_amount: Option<u32>,
}

impl Contract {
    pub fn new(
        cid: u32,
        cn: String,
        vs: i32,
        email: String,
        pn: String,
        bonus: Option<u32>,
        notify: Option<u32>,
        id: Option<i32>,
        vat_id: Option<String>,
    ) -> (r: Contract)
        ensures
            r.contract_id == Some(cid),
            r.contract_name == cn,
            r.variable_symbol == vs,
            r.email == email,
            r.phone_number == pn,
            r.bonus_amount == bonus,
            r.notify_limit == notify,
            r.identification_number == id,
            r.vat_identification_number == vat_id,
            r.created_at.is_none(),
            r.deleted_at.is_none(),
    {
        Contract {
            contract_id: Some(cid),
            contract_name: cn,
            variable_symbol: vs,
            email,
            phone_number: pn,
            created_at: None,
            deleted_at: None,
            bonus_amount: bonus,
            notify_limit: notify,
            identification_number: id,
            vat_identification_number: vat_id,
        }
    }
}

impl SqlInsert for Contract {
    open spec fn header() -> Seq<char> {
        "contract(contract_id, contract_name, variable_symbol, identification_number, vat_identification_number, deleted_at, notify_limit, email, phone_number, bonus_amount)"@
    }

    fn insert_header() -> (r: String) {
        String::from_str(
            "contract(contract_id, contract_name, variable_symbol, identification_number, vat_identification_number, deleted_at, notify_limit, email, phone_number, bonus_amount)",
        )
    }
}

impl CommaDelimited for Contract {
    open spec fn texts_safe(&self) -> bool {
        &&& text_safe(self.contract_name@)
        &&& text_safe(self.email@)
        &&& text_safe(self.phone_number@)
        &&& opt_text_safe(self.vat_identification_number)
    }

    open spec fn valid(&self) -> bool {
        opt_renderable(self.deleted_at)
    }

    open spec fn row(&self) -> Seq<Option<Seq<char>>> {
        seq![
            opt_num_field(opt_u32(self.contract_id)),
            Some(self.contract_name@),
            num_field(self.variable_symbol as int),
            opt_num_field(
                match self.identification_number {
                    Some(v) => Some(v as int),
                    None => None,
                },
            ),
            opt_text_field(self.vat_identification_number),
            opt_time_field(self.deleted_at),
            opt_num_field(opt_u32(self.notify_limit)),
            Some(self.email@),
            Some(self.phone_number@),
            opt_num_field(opt_u32(self.bonus_amount)),
        ]
    }

    fn to_csv(&self) -> (r: String) {
        let id_number = match self.identification_number {
            Some(v) => num_cell(v as i64),
            None => None,
        };
        let fields = vec![
            opt_u32_cell(self.contract_id),
            text_cell(&self.contract_name),
            num_cell(self.variable_symbol as i64),
            id_number,
            opt_text_cell(&self.vat_identification_number),
            opt_time_cell(self.deleted_at),
            opt_u32_cell(self.notify_limit),
            text_cell(&self.email),
            text_cell(&self.phone_number),
            opt_u32_cell(self.bonus_amount),
        ];
        assert(fields.deep_view() =~= self.row());
        let r = encode_row(&fields);
        proof {
            if self.texts_safe() {
                assert forall|i: int| 0 <= i < self.row().len() implies field_safe(
                    #[trigger] self.row()[i],
                ) by {
                    assert(self.row()[i] == fields@[i].deep_view());
                }
                lemma_row_round_trip(self.row());
            }
        }
        r
    }
}

/// The postal address of a contract.
#[derive(Debug)]
pub struct Address {
    pub address_id: Option<u32>,
    pub city: String,
    pub district: Option<String>,
    pub street_name: String,
    pub house_number: i32,
    pub zip_code: i32,
    pub contract_id: u32,
}

impl Address {
    pub fn new(
        aid: u32,
        city: String,
        district: Option<String>,
        street_name: String,
        house_number: i32,
        zip_code: i32,
        contract_id: u32,
    ) -> (r: Address)
        ensures
            r.address_id == Some(aid),
            r.city == city,
            r.district == district,
            r.street_name == street_name,
            r.house_number == house_number,
            r.zip_code == zip_code,
            r.contract_id == contract_id,
    {
        Address {
            address_id: Some(aid),
            city,
            district,
            street_name,
            house_number,
            zip_code,
            contract_id,
        }
    }
}

impl SqlInsert for Address {
    open spec fn header() -> Seq<char> {
        "address(address_id, city, district, street_name, house_number, zip_code, contract_id)"@
    }

    fn insert_header() -> (r: String) {
        String::from_str(
            "address(address_id, city, district, street_name, house_number, zip_code, contract_id)",
        )
    }
}

impl CommaDelimited for Address {
    open spec fn texts_safe(&self) -> bool {
        &&& text_safe(self.city@)
        &&& opt_text_safe(self.district)
        &&& text_safe(self.street_name@)
    }

    open spec fn valid(&self) -> bool {
        true
    }

    open spec fn row(&self) -> Seq<Option<Seq<char>>> {
        seq![
            opt_num_field(opt_u32(self.address_id)),
            Some(self.city@),
            opt_text_field(self.district),
            Some(self.street_name@),
            num_field(self.house_number as int),
            num_field(self.zip_code as int),
            num_field(self.contract_id as int),
        ]
    }

    fn to_csv(&self) -> (r: String) {
        let fields = vec![
            opt_u32_cell(self.address_id),
            text_cell(&self.city),
            opt_text_cell(&self.district),
            text_cell(&self.street_name),
            num_cell(self.house_number as i64),
            num_cell(self.zip_code as i64),
            unsigned_cell(self.contract_id as u64),
        ];
        assert(fields.deep_view() =~= self.row());
        let r = encode_row(&fields);
        proof {
            if self.texts_safe() {
                assert forall|i: int| 0 <= i < self.row().len() implies field_safe(
                    #[trigger] self.row()[i],
                ) by {
                    assert(self.row()[i] == fields@[i].deep_view());
                }
                lemma_row_round_trip(self.row());
            }
        }
        r
    }
}

/// A person who may act for a contract.
#[derive(Debug)]
pub struct Participant {
    pub participant_id: Option<u32>,
    pub name: String,
    pub access_level: u8,
    pub contract_id: u32,
    pub password: String,
    pub balance_limit: Option<u32>,
    pub created_at: Option<Timestamp>,
    pub deleted_at: Option<Timestamp>,
}

impl Participant {
    pub fn new(
        pid: u32,
        name: String,
        access_level: u8,
        contract_id: u32,
        password: String,
        balance_limit: Option<u32>,
        created_at: Option<Timestamp>,
        deleted_at: Option<Timestamp>,
    ) -> (r: Participant)
        ensures
            r.participant_id == Some(pid),
            r.name == name,
            r.access_level == access_level,
            r.contract_id == contract_id,
            r.password == password,
            r.balance_limit == balance_limit,
            r.created_at == created_at,
            r.deleted_at == deleted_at,
    {
        Participant {
            participant_id: Some(pid),
            name,
            access_level,
            contract_id,
            balance_limit,
            password,
            created_at,
            deleted_at,
        }
    }
}

impl SqlInsert for Participant {
    open spec fn header() -> Seq<char> {
        "participant(participant_id, name, access_level, contract_id, password, balance_limit, deleted_at)"@
    }

    fn insert_header() -> (r: String) {
        String::from_str(
            "participant(participant_id, name, access_level, contract_id, password, balance_limit, deleted_at)",
        )
    }
}

impl CommaDelimited for Participant {
    open spec fn texts_safe(&self) -> bool {
        &&& text_safe(self.name@)
        &&& text_safe(self.password@)
    }

    open spec fn valid(&self) -> bool {
        opt_renderable(self.deleted_at)
    }

    open spec fn row(&self) -> Seq<Option<Seq<char>>> {
        seq![
            opt_num_field(opt_u32(self.participant_id)),
            Some(self.name@),
            num_field(self.access_level as int),
            num_field(self.contract_id as int),
            Some(self.password@),
            opt_num_field(opt_u32(self.balance_limit)),
            opt_time_field(self.deleted_at),
        ]
    }

    fn to_csv(&self) -> (r: String) {
        let fields = vec![
            opt_u32_cell(self.participant_id),
            text_cell(&self.name),
            unsigned_cell(self.access_level as u64),
            unsigned_cell(self.contract_id as u64),
            text_cell(&self.password),
            opt_u32_cell(self.balance_limit),
            opt_time_cell(self.deleted_at),
        ];
        assert(fields.deep_view() =~= self.row());
        let r = encode_row(&fields);
        proof {
            if self.texts_safe() {
                assert forall|i: int| 0 <= i < self.row().len() implies field_safe(
                    #[trigger] self.row()[i],
                ) by {
                    assert(self.row()[i] == fields@[i].deep_view());
                }
                lemma_row_round_trip(self.row());
            }
        }
        r
    }
}

} // verus!

verus! {

/// Who holds a phone number.
#[derive(Clone, Copy, Debug, PartialEq, Eq)]
pub enum NumberOwner {
    /// Held by the participant with this id.
    Assigned(u32),
    /// Requested and not handed out yet.
    Unassigned,
}

impl NumberOwner {
    /// The owner's id, if any.
    pub open spec fn id(self) -> Option<int> {
        match self {
            NumberOwner::Assigned(p) => Some(p as int),
            NumberOwner::Unassigned => None,
        }
    }
}

/// A phone number.
#[derive(Debug)]
pub struct VoipNumber {
    pub number_id: Option<u32>,
    pub phone_country_code: u16,
    pub number: u32,
    pub participant_id: NumberOwner,
    pub password: String,
    pub current_state: u8,
    pub foreign_block: bool,
    pub quarantine_until: Option<Timestamp>,
    pub activated: Timestamp,
    pub deleted_at: Option<Timestamp>,
}

impl VoipNumber {
    pub fn new(
        number_id: Option<u32>,
        phone_country_code: u16,
        number: u32,
        participant_id: NumberOwner,
        password: String,
        current_state: u8,
        foreign_block: bool,
        quarantine_until: Option<Timestamp>,
        activated: Timestamp,
        deleted_at: Option<Timestamp>,
    ) -> (r: VoipNumber)
        ensures
            r.number_id == number_id,
            r.phone_country_code == phone_country_code,
            r.number == number,
            r.participant_id == participant_id,
            r.password == password,
            r.current_state == current_state,
            r.foreign_block == foreign_block,
            r.quarantine_until == quarantine_until,
            r.activated == activated,
            r.deleted_at == deleted_at,
    {
        VoipNumber {
            number_id,
            phone_country_code,
            number,
            participant_id,
            password,
            current_state,
            foreign_block,
            quarantine_until,
            activated,
            deleted_at,
        }
    }
}

impl SqlInsert for VoipNumber {
    open spec fn header() -> Seq<char> {
        "voip_number(number_id, phone_country_code, number, participant_id, password, current_state, foreign_block, quarantine_until, activated, deleted_at)"@
    }

    fn insert_header() -> (r: String) {
        String::from_str(
            "voip_number(number_id, phone_country_code, number, participant_id, password, current_state, foreign_block, quarantine_until, activated, deleted_at)",
        )
    }
}

impl CommaDelimited for VoipNumber {
    open spec fn texts_safe(&self) -> bool {
        text_safe(self.password@)
    }

    open spec fn valid(&self) -> bool {
        &&& opt_renderable(self.quarantine_until)
        &&& renderable(self.activated)
        &&& opt_renderable(self.deleted_at)
    }

    open spec fn row(&self) -> Seq<Option<Seq<char>>> {
        seq![
            opt_num_field(opt_u32(self.number_id)),
            num_field(self.phone_country_code as int),
            num_field(self.number as int),
            opt_num_field(self.participant_id.id()),
            Some(self.password@),
            num_field(self.current_state as int),
            bool_field(self.foreign_block),
            opt_time_field(self.quarantine_until),
            time_field(self.activated),
            opt_time_field(self.deleted_at),
        ]
    }

    fn to_csv(&self) -> (r: String) {
        let owner = match self.participant_id {
            NumberOwner::Assigned(p) => Some(p),
            NumberOwner::Unassigned => None,
        };
        let fields = vec![
            opt_u32_cell(self.number_id),
            unsigned_cell(self.phone_country_code as u64),
            unsigned_cell(self.number as u64),
            opt_u32_cell(owner),
            text_cell(&self.password),
            unsigned_cell(self.current_state as u64),
            bool_cell(self.foreign_block),
            opt_time_cell(self.quarantine_until),
            time_cell(self.activated),
            opt_time_cell(self.deleted_at),
        ];
        assert(fields.deep_view() =~= self.row());
        let r = encode_row(&fields);
        proof {
            if self.texts_safe() {
                assert forall|i: int| 0 <= i < self.row().len() implies field_safe(
                    #[trigger] self.row()[i],
                ) by {
                    assert(self.row()[i] == fields@[i].deep_view());
                }
                lemma_row_round_trip(self.row());
            }
        }
        r
    }
}

/// A participant's request for a number that is not handed out yet.
#[derive(Debug)]
pub struct NumberRequest {
    pub participant_id: u32,
    pub number_id: u32,
    pub requested: Timestamp,
}

impl NumberRequest {
    pub fn new(participant_id: u32, number_id: u32, requested: Timestamp) -> (r: NumberRequest)
        ensures
            r.participant_id == participant_id,
            r.number_id == number_id,
            r.requested == requested,
    {
        NumberRequest { participant_id, number_id, requested }
    }
}

impl SqlInsert for NumberRequest {
    open spec fn header() -> Seq<char> {
        "number_request(participant_id, number_id, requested)"@
    }

    fn insert_header() -> (r: String) {
        String::from_str("number_request(participant_id, number_id, requested)")
    }
}

impl CommaDelimited for NumberRequest {
    open spec fn texts_safe(&self) -> bool {
        true
    }

    open spec fn valid(&self) -> bool {
        renderable(self.requested)
    }

    open spec fn row(&self) -> Seq<Option<Seq<char>>> {
        seq![
            num_field(self.participant_id as int),
            num_field(self.number_id as int),
            time_field(self.requested),
        ]
    }

    fn to_csv(&self) -> (r: String) {
        let fields = vec![
            unsigned_cell(self.participant_id as u64),
            unsigned_cell(self.number_id as u64),
            time_cell(self.requested),
        ];
        assert(fields.deep_view() =~= self.row());
        let r = encode_row(&fields);
        proof {
            if self.texts_safe() {
                assert forall|i: int| 0 <= i < self.row().len() implies field_safe(
                    #[trigger] self.row()[i],
                ) by {
                    assert(self.row()[i] == fields@[i].deep_view());
                }
                lemma_row_round_trip(self.row());
            }
        }
        r
    }
}

/// The tariff for calls to one country.
#[derive(Debug)]
pub struct PriceList {
    pub price_list_id: Option<u32>,
    pub tariffication_first: u8,
    pub tariffication_second: u8,
    pub price_per_second: u16,
    pub phone_country_code: u16,
}

impl PriceList {
    pub fn new(
        tariffication_first: u8,
        tariffication_second: u8,
        price_per_second: u16,
        phone_country_code: u16,
    ) -> (r: PriceList)
        ensures
            r.price_list_id.is_none(),
            r.tariffication_first == tariffication_first,
            r.tariffication_second == tariffication_second,
            r.price_per_second == price_per_second,
            r.phone_country_code == phone_country_code,
    {
        PriceList {
            price_list_id: None,
            tariffication_first,
            tariffication_second,
            price_per_second,
            phone_country_code,
        }
    }
}

impl SqlInsert for PriceList {
    open spec fn header() -> Seq<char> {
        "price_list(price_list_id, tariffication_first, tariffication_second, price_per_second, phone_country_code)"@
    }

    fn insert_header() -> (r: String) {
        String::from_str(
            "price_list(price_list_id, tariffication_first, tariffication_second, price_per_second, phone_country_code)",
        )
    }
}

impl CommaDelimited for PriceList {
    open spec fn texts_safe(&self) -> bool {
        true
    }

    open spec fn valid(&self) -> bool {
        true
    }

    open spec fn row(&self) -> Seq<Option<Seq<char>>> {
        seq![
            opt_num_field(opt_u32(self.price_list_id)),
            num_field(self.tariffication_first as int),
            num_field(self.tariffication_second as int),
            num_field(self.price_per_second as int),
            num_field(self.phone_country_code as int),
        ]
    }

    fn to_csv(&self) -> (r: String) {
        let fields = vec![
            opt_u32_cell(self.price_list_id),
            unsigned_cell(self.tariffication_first as u64),
            unsigned_cell(self.tariffication_second as u64),
            unsigned_cell(self.price_per_second as u64),
            unsigned_cell(self.phone_country_code as u64),
        ];
        assert(fields.deep_view() =~= self.row());
        let r = encode_row(&fields);
        proof {
            if self.texts_safe() {
                assert forall|i: int| 0 <= i < self.row().len() implies field_safe(
                    #[trigger] self.row()[i],
                ) by {
                    assert(self.row()[i] == fields@[i].deep_view());
                }
                lemma_row_round_trip(self.row());
            }
        }
        r
    }
}

} // verus!

verus! {

/// How a call ended.
#[derive(Clone, Copy, Debug, PartialEq, Eq)]
pub enum Disposition {
    Hangup,
    Answer,
    Error,
}

impl Disposition {
    /// The name the schema stores.
    pub open spec fn name(self) -> Seq<char> {
        match self {
            Disposition::Hangup => "HANGUP"@,
            Disposition::Answer => "ANSWER"@,
            Disposition::Error => "ERROR"@,
        }
    }

    /// The name the schema stores.
    pub fn as_text(&self) -> (r: String)
        ensures
            r@ == self.name(),
            text_safe(r@),
    {
        proof {
            reveal_strlit("HANGUP");
            reveal_strlit("ANSWER");
            reveal_strlit("ERROR");
            lemma_plain_text_safe("HANGUP"@);
            lemma_plain_text_safe("ANSWER"@);
            lemma_plain_text_safe("ERROR"@);
        }
        match self {
            Disposition::Hangup => String::from_str("HANGUP"),
            Disposition::Answer => String::from_str("ANSWER"),
            Disposition::Error => String::from_str("ERROR"),
        }
    }
}

/// One call made from or to a number.
#[derive(Debug)]
pub struct CallDetailRecord {
    pub call_id: Option<u32>,
    pub disposition: Disposition,
    pub source_num: String,
    pub destination_num: String,
    pub length: u16,
    pub call_date: Timestamp,
    pub number_id: u32,
    pub incoming_outgoing: bool,
    pub price_list_id: Option<u32>,
}

impl CallDetailRecord {
    pub fn new(
        call_id: Option<u32>,
        disposition: Disposition,
        source_num: String,
        destination_num: String,
        length: u16,
        call_date: Timestamp,
        number_id: u32,
        incoming_outgoing: bool,
        price_list_id: Option<u32>,
    ) -> (r: CallDetailRecord)
        ensures
            r.call_id == call_id,
            r.disposition == disposition,
            r.source_num == source_num,
            r.destination_num == destination_num,
            r.length == length,
            r.call_date == call_date,
            r.number_id == number_id,
            r.incoming_outgoing == incoming_outgoing,
            r.price_list_id == price_list_id,
    {
        CallDetailRecord {
            call_id,
            disposition,
            source_num,
            destination_num,
            length,
            call_date,
            number_id,
            incoming_outgoing,
            price_list_id,
        }
    }
}

impl SqlInsert for CallDetailRecord {
    open spec fn header() -> Seq<char> {
        "call_detail_record(call_id, disposition, source_num, destination_num, length, call_date, number_id, incoming_outgoing, price_list_id)"@
    }

    fn insert_header() -> (r: String) {
        String::from_str(
            "call_detail_record(call_id, disposition, source_num, destination_num, length, call_date, number_id, incoming_outgoing, price_list_id)",
        )
    }
}

impl CommaDelimited for CallDetailRecord {
    open spec fn texts_safe(&self) -> bool {
        &&& text_safe(self.source_num@)
        &&& text_safe(self.destination_num@)
    }

    open spec fn valid(&self) -> bool {
        renderable(self.call_date)
    }

    open spec fn row(&self) -> Seq<Option<Seq<char>>> {
        seq![
            opt_num_field(opt_u32(self.call_id)),
            Some(self.disposition.name()),
            Some(self.source_num@),
            Some(self.destination_num@),
            num_field(self.length as int),
            time_field(self.call_date),
            num_field(self.number_id as int),
            bool_field(self.incoming_outgoing),
            opt_num_field(opt_u32(self.price_list_id)),
        ]
    }

    fn to_csv(&self) -> (r: String) {
        let fields = vec![
            opt_u32_cell(self.call_id),
            Some(self.disposition.as_text()),
            text_cell(&self.source_num),
            text_cell(&self.destination_num),
            unsigned_cell(self.length as u64),
            time_cell(self.call_date),
            unsigned_cell(self.number_id as u64),
            bool_cell(self.incoming_outgoing),
            opt_u32_cell(self.price_list_id),
        ];
        assert(fields.deep_view() =~= self.row());
        let r = encode_row(&fields);
        proof {
            if self.texts_safe() {
                assert forall|i: int| 0 <= i < self.row().len() implies field_safe(
                    #[trigger] self.row()[i],
                ) by {
                    assert(self.row()[i] == fields@[i].deep_view());
                }
                lemma_row_round_trip(self.row());
            }
        }
        r
    }
}

/// Something an invoice can bill, with its price in whole currency units.
#[derive(Debug)]
pub struct InvoiceItem {
    pub item_id: Option<u32>,
    pub item_name: String,
    pub unit_cost: u32,
}

impl InvoiceItem {
    pub fn new(item_name: String, unit_cost: u32) -> (r: InvoiceItem)
        ensures
            r.item_id.is_none(),
            r.item_name == item_name,
            r.unit_cost == unit_cost,
    {
        InvoiceItem { item_id: None, item_name, unit_cost }
    }
}

impl SqlInsert for InvoiceItem {
    open spec fn header() -> Seq<char> {
        "invoice_item(item_id, item_name, unit_cost)"@
    }

    fn insert_header() -> (r: String) {
        String::from_str("invoice_item(item_id, item_name, unit_cost)")
    }
}

impl CommaDelimited for InvoiceItem {
    open spec fn texts_safe(&self) -> bool {
        text_safe(self.item_name@)
    }

    open spec fn valid(&self) -> bool {
        true
    }

    open spec fn row(&self) -> Seq<Option<Seq<char>>> {
        seq![
            opt_num_field(opt_u32(self.item_id)),
            Some(self.item_name@),
            num_field(self.unit_cost as int),
        ]
    }

    fn to_csv(&self) -> (r: String) {
        let fields = vec![
            opt_u32_cell(self.item_id),
            text_cell(&self.item_name),
            unsigned_cell(self.unit_cost as u64),
        ];
        assert(fields.deep_view() =~= self.row());
        let r = encode_row(&fields);
        proof {
            if self.texts_safe() {
                assert forall|i: int| 0 <= i < self.row().len() implies field_safe(
                    #[trigger] self.row()[i],
                ) by {
                    assert(self.row()[i] == fields@[i].deep_view());
                }
                lemma_row_round_trip(self.row());
            }
        }
        r
    }
}

/// A bill issued to a contract; amounts are in whole currency units.
#[derive(Debug)]
pub struct Invoice {
    pub invoice_number: u64,
    pub amount: u64,
    pub tax_value_percent: u8,
    pub created_at: Timestamp,
    pub taxable_period: Timestamp,
    pub maturity: Timestamp,
    pub paid: Option<Timestamp>,
    pub contract_id: u32,
}

impl Invoice {
    pub fn new(
        invoice_number: u64,
        amount: u64,
        tax_value_percent: u8,
        created_at: Timestamp,
        taxable_period: Timestamp,
        maturity: Timestamp,
        paid: Option<Timestamp>,
        contract_id: u32,
    ) -> (r: Invoice)
        ensures
            r.invoice_number == invoice_number,
            r.amount == amount,
            r.tax_value_percent == tax_value_percent,
            r.created_at == created_at,
            r.taxable_period == taxable_period,
            r.maturity == maturity,
            r.paid == paid,
            r.contract_id == contract_id,
    {
        Invoice {
            invoice_number,
            amount,
            tax_value_percent,
            created_at,
            taxable_period,
            maturity,
            paid,
            contract_id,
        }
    }
}

impl SqlInsert for Invoice {
    open spec fn header() -> Seq<char> {
        "invoice(invoice_number, amount, tax_value_percent, created_at, taxable_period, maturity, paid, contract_id)"@
    }

    fn insert_header() -> (r: String) {
        String::from_str(
            "invoice(invoice_number, amount, tax_value_percent, created_at, taxable_period, maturity, paid, contract_id)",
        )
    }
}

impl CommaDelimited for Invoice {
    open spec fn texts_safe(&self) -> bool {
        true
    }

    open spec fn valid(&self) -> bool {
        &&& renderable(self.created_at)
        &&& renderable(self.taxable_period)
        &&& renderable(self.maturity)
        &&& opt_renderable(self.paid)
    }

    open spec fn row(&self) -> Seq<Option<Seq<char>>> {
        seq![
            num_field(self.invoice_number as int),
            num_field(self.amount as int),
            num_field(self.tax_value_percent as int),
            time_field(self.created_at),
            time_field(self.taxable_period),
            time_field(self.maturity),
            opt_time_field(self.paid),
            num_field(self.contract_id as int),
        ]
    }

    fn to_csv(&self) -> (r: String) {
        let fields = vec![
            unsigned_cell(self.invoice_number),
            unsigned_cell(self.amount),
            unsigned_cell(self.tax_value_percent as u64),
            time_cell(self.created_at),
            time_cell(self.taxable_period),
            time_cell(self.maturity),
            opt_time_cell(self.paid),
            unsigned_cell(self.contract_id as u64),
        ];
        assert(fields.deep_view() =~= self.row());
        let r = encode_row(&fields);
        proof {
            if self.texts_safe() {
                assert forall|i: int| 0 <= i < self.row().len() implies field_safe(
                    #[trigger] self.row()[i],
                ) by {
                    assert(self.row()[i] == fields@[i].deep_view());
                }
                lemma_row_round_trip(self.row());
            }
        }
        r
    }
}

/// One line of an invoice: an item, the unit cost it was billed at, and
/// how many.
#[derive(Debug)]
pub struct InvoiceHasItems {
    pub invoice_number: u64,
    pub invoice_item_id: u32,
    pub item_unit_cost: u32,
    pub item_count: u16,
}

impl InvoiceHasItems {
    pub fn new(
        invoice_number: u64,
        invoice_item_id: u32,
        item_unit_cost: u32,
        item_count: u16,
    ) -> (r: InvoiceHasItems)
        ensures
            r.invoice_number == invoice_number,
            r.invoice_item_id == invoice_item_id,
            r.item_unit_cost == item_unit_cost,
            r.item_count == item_count,
    {
        InvoiceHasItems { invoice_number, invoice_item_id, item_unit_cost, item_count }
    }
}

impl SqlInsert for InvoiceHasItems {
    open spec fn header() -> Seq<char> {
        "invoice_has_items(invoice_number, invoice_item_id, item_unit_cost, item_count)"@
    }

    fn insert_header() -> (r: String) {
        String::from_str(
            "invoice_has_items(invoice_number, invoice_item_id, item_unit_cost, item_count)",
        )
    }
}

impl CommaDelimited for InvoiceHasItems {
    open spec fn texts_safe(&self) -> bool {
        true
    }

    open spec fn valid(&self) -> bool {
        true
    }

    open spec fn row(&self) -> Seq<Option<Seq<char>>> {
        seq![
            num_field(self.invoice_number as int),
            num_field(self.invoice_item_id as int),
            num_field(self.item_unit_cost as int),
            num_field(self.item_count as int),
        ]
    }

    fn to_csv(&self) -> (r: String) {
        let fields = vec![
            unsigned_cell(self.invoice_number),
            unsigned_cell(self.invoice_item_id as u64),
            unsigned_cell(self.item_unit_cost as u64),
            unsigned_cell(self.item_count as u64),
        ];
        assert(fields.deep_view() =~= self.row());
        let r = encode_row(&fields);
        proof {
            if self.texts_safe() {
                assert forall|i: int| 0 <= i < self.row().len() implies field_safe(
                    #[trigger] self.row()[i],
                ) by {
                    assert(self.row()[i] == fields@[i].deep_view());
                }
                lemma_row_round_trip(self.row());
            }
        }
        r
    }
}

} // verus!

verus! {

impl Contract {
    /// A one-line summary: variable symbol, name, identification number,
    /// VAT id, notification limit, e-mail, phone number and bonus, with
    /// `0` for an absent number and `''` for an absent VAT id.
    pub open spec fn display_spec(&self) -> Seq<char> {
        join(
            seq![
                int_text(self.variable_symbol as int),
                self.contract_name@,
                int_text(
                    match self.identification_number {
                        Some(n) => n as int,
                        None => 0,
                    },
                ),
                match self.vat_identification_number {
                    Some(v) => v@,
                    None => "''"@,
                },
                int_text(
                    match self.notify_limit {
                        Some(n) => n as int,
                        None => 0,
                    },
                ),
                self.email@,
                self.phone_number@,
                int_text(
                    match self.bonus_amount {
                        Some(n) => n as int,
                        None => 0,
                    },
                ),
            ],
            DELIMITER,
        )
    }

    /// The one-line summary of `display_spec`.
    pub fn display_text(&self) -> (r: String)
        ensures
            r@ == self.display_spec(),
    {
        let id_number: i64 = match self.identification_number {
            Some(n) => n as i64,
            None => 0,
        };
        let vat = match &self.vat_identification_number {
            Some(v) => v.clone(),
            None => String::from_str("''"),
        };
        let notify: u64 = match self.notify_limit {
            Some(n) => n as u64,
            None => 0,
        };
        let bonus: u64 = match self.bonus_amount {
            Some(n) => n as u64,
            None => 0,
        };
        let parts = vec![
            i64_text(self.variable_symbol as i64),
            self.contract_name.clone(),
            i64_text(id_number),
            vat,
            u64_text(notify),
            self.email.clone(),
            self.phone_number.clone(),
            u64_text(bonus),
        ];
        assert(parts.deep_view() =~= seq![
            int_text(self.variable_symbol as int),
            self.contract_name@,
            int_text(
                match self.identification_number {
                    Some(n) => n as int,
                    None => 0,
                },
            ),
            match self.vat_identification_number {
                Some(v) => v@,
                None => "''"@,
            },
            int_text(
                match self.notify_limit {
                    Some(n) => n as int,
                    None => 0,
                },
            ),
            self.email@,
            self.phone_number@,
            int_text(
                match self.bonus_amount {
                    Some(n) => n as int,
                    None => 0,
                },
            ),
        ]);
        join_with_delimiter(&parts)
    }
}

} // verus!
