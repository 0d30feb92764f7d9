//! Tickets: the address of a superpeer, as JSON, in URL-safe base64 without padding.

use base64::Engine;
use vstd::prelude::*;

use crate::protocol::ALPN;

verus! {

/// The character of the URL-safe alphabet for a value below 64.
pub open spec fn base64_char(n: int) -> char {
    if n < 26 {
        (n + 65) as char
    } else if n < 52 {
        (n + 71) as char
    } else if n < 62 {
        (n - 4) as char
    } else if n == 62 {
        '-'
    } else {
        '_'
    }
}

/// The byte of `data` at `i`, and zero behind its end.
pub open spec fn byte_or_zero(data: Seq<u8>, i: int) -> int {
    if i < data.len() {
        data[i] as int
    } else {
        0
    }
}

/// The `i`th group of six bits of `data`.
pub open spec fn sextet(data: Seq<u8>, i: int) -> int {
    let a = byte_or_zero(data, i / 4 * 3);
    let b = byte_or_zero(data, i / 4 * 3 + 1);
    let c = byte_or_zero(data, i / 4 * 3 + 2);
    if i % 4 == 0 {
        a / 4
    } else if i % 4 == 1 {
        a % 4 * 16 + b / 16
    } else if i % 4 == 2 {
        b % 16 * 4 + c / 64
    } else {
        c % 64
    }
}

/// The length of the base64 text of `n` bytes.
pub open spec fn base64_len(n: nat) -> nat {
    if n % 3 == 0 {
        n / 3 * 4
    } else {
        n / 3 * 4 + n % 3 + 1
    }
}

/// `data` in URL-safe base64 without padding.
pub open spec fn base64_text(data: Seq<u8>) -> Seq<char> {
    Seq::new(base64_len(data.len()), |i: int| base64_char(sextet(data, i)))
}

/// The bytes are too many for a ticket.
#[derive(Clone, Copy, Debug, PartialEq, Eq, Structural)]
pub struct TooLong;

/// The ticket is not URL-safe base64 without padding.
#[derive(Clone, Copy, Debug, PartialEq, Eq, Structural)]
pub struct NotBase64;

/// Why an address has no ticket, or a ticket no address.
#[derive(Clone, Copy, Debug, PartialEq, Eq, Structural)]
pub enum TicketError {
    /// The ticket is not URL-safe base64 without padding.
    NotBase64,
    /// What the ticket holds is not the JSON of an address.
    NotAnAddress,
    /// The address cannot be written as JSON.
    Unwritable,
    /// The JSON of the address is too long for a ticket.
    TooLong,
}

/// The error of `base64`'s decoding.
#[verifier::external_type_specification]
#[verifier::external_body]
pub struct ExDecodeError(base64::DecodeError);

/// Calls `encode` of `base64`'s `URL_SAFE_NO_PAD` engine: the result is the base64 text of
/// `data`. The bound keeps that text within what a `String` can hold.
#[verifier::external_body]
fn base64_encode(data: &[u8]) -> (r: String)
    requires
        data@.len() <= usize::MAX / 4,
    ensures
        r@ == base64_text(data@),
{
    base64::engine::general_purpose::URL_SAFE_NO_PAD.encode(data)
}

/// Calls `decode` of `base64`'s `URL_SAFE_NO_PAD` engine: it gives the bytes whose base64 text
/// is `text`, and fails where there are none. The engine takes no padding, and no last
/// character with bits that belong to no byte.
#[verifier::external_body]
fn base64_decode(text: &str) -> (r: Result<Vec<u8>, base64::DecodeError>)
    ensures
        r matches Ok(v) ==> base64_text(v@) == text@,
        r is Err ==> forall|data: Seq<u8>| #[trigger] base64_text(data) != text@,
{
    base64::engine::general_purpose::URL_SAFE_NO_PAD.decode(text)
}

proof fn lemma_base64_char_injective(m: int, n: int)
    requires
        0 <= m < 64,
        0 <= n < 64,
        base64_char(m) == base64_char(n),
    ensures
        m == n,
{
}

proof fn lemma_sextet_range(data: Seq<u8>, i: int)
    requires
        0 <= i,
    ensures
        0 <= sextet(data, i) < 64,
{
}

proof fn lemma_byte_from_sextets(data: Seq<u8>, i: int)
    requires
        0 <= i < data.len(),
    ensures
        i % 3 == 0 ==> data[i] == sextet(data, i / 3 * 4) * 4 + sextet(data, i / 3 * 4 + 1) / 16,
        i % 3 == 1 ==> data[i] == sextet(data, i / 3 * 4 + 1) % 16 * 16 + sextet(
            data,
            i / 3 * 4 + 2,
        ) / 4,
        i % 3 == 2 ==> data[i] == sextet(data, i / 3 * 4 + 2) % 4 * 64 + sextet(
            data,
            i / 3 * 4 + 3,
        ),
{
    let g = i / 3;
    assert((g * 4) / 4 == g && (g * 4 + 1) / 4 == g && (g * 4 + 2) / 4 == g && (g * 4 + 3) / 4
        == g);
}

/// No two byte sequences have the same base64 text.
pub proof fn base64_text_injective(a: Seq<u8>, b: Seq<u8>)
    requires
        base64_text(a) == base64_text(b),
    ensures
        a == b,
{
    assert(base64_text(a).len() == base64_len(a.len()));
    assert(base64_text(b).len() == base64_len(b.len()));
    assert(a.len() == b.len());
    assert forall|i: int| 0 <= i < base64_text(a).len() implies sextet(a, i) == #[trigger] sextet(
        b,
        i,
    ) by {
        assert(base64_text(a)[i] == base64_char(sextet(a, i)));
        assert(base64_text(b)[i] == base64_char(sextet(b, i)));
        lemma_sextet_range(a, i);
        lemma_sextet_range(b, i);
        lemma_base64_char_injective(sextet(a, i), sextet(b, i));
    }
    assert forall|i: int| 0 <= i < a.len() implies a[i] == b[i] by {
        lemma_byte_from_sextets(a, i);
        lemma_byte_from_sextets(b, i);
        let k = i / 3 * 4;
        assert(sextet(a, k) == sextet(b, k));
        assert(sextet(a, k + 1) == sextet(b, k + 1));
        if i % 3 >= 1 {
            assert(sextet(a, k + 2) == sextet(b, k + 2));
        }
        if i % 3 == 2 {
            assert(sextet(a, k + 3) == sextet(b, k + 3));
        }
    }
    assert(a =~= b);
}

/// The ticket that holds these bytes. It fails exactly where they are too many.
pub fn encode_ticket_bytes(json: &[u8]) -> (r: Result<String, TooLong>)
    ensures
        r is Ok <==> json@.len() <= usize::MAX / 4,
        r matches Ok(ticket) ==> ticket@ == base64_text(json@),
{
    if json.len() <= usize::MAX / 4 {
        Ok(base64_encode(json))
    } else {
        Err(TooLong)
    }
}

/// The bytes that the ticket holds. Every ticket that `encode_ticket_bytes` made gives back the
/// bytes it was made of, and nothing else decodes.
pub fn decode_ticket_bytes(ticket: &str) -> (r: Result<Vec<u8>, NotBase64>)
    ensures
        forall|json: Seq<u8>| #[trigger]
            base64_text(json) == ticket@ ==> (r matches Ok(v) && v@ == json),
        r matches Ok(v) ==> base64_text(v@) == ticket@,
{
    match base64_decode(ticket) {
        Ok(v) => {
            proof {
                assert forall|json: Seq<u8>| #[trigger] base64_text(json) == ticket@ implies v@
                    == json by {
                    base64_text_injective(json, v@);
                }
            }
            Ok(v)
        },
        Err(_) => Err(NotBase64),
    }
}

/// The address of an endpoint, as `iroh` holds it.
#[verifier::external_type_specification]
#[verifier::external_body]
pub struct ExEndpointAddr(iroh::EndpointAddr);

/// The error of `serde_json`.
#[verifier::external_type_specification]
#[verifier::external_body]
pub struct ExJsonError(serde_json::Error);

/// The address that `json` spells, which `serde_json` reads; none where it does not read one.
pub uninterp spec fn address_of(json: Seq<u8>) -> Option<iroh::EndpointAddr>;

/// The JSON of an address, which `serde_json` writes; none where it cannot be written.
pub uninterp spec fn json_of(address: iroh::EndpointAddr) -> Option<Seq<u8>>;

/// Calls `serde_json::from_slice`: it gives the address that `json` spells, and fails where it
/// spells none.
#[verifier::external_body]
fn parse_address(json: &[u8]) -> (r: Result<iroh::EndpointAddr, serde_json::Error>)
    ensures
        r matches Ok(address) ==> address_of(json@) == Some(address),
        r is Err ==> address_of(json@) is None,
{
    serde_json::from_slice(json)
}

/// Calls `serde_json::to_vec`: it gives the JSON of the address, and fails where there is none.
///
/// Nothing is said of reading that JSON again: a socket address is written without its IPv6 flow
/// label, so not every address comes back as it was.
#[verifier::external_body]
fn write_address(address: &iroh::EndpointAddr) -> (r: Result<Vec<u8>, serde_json::Error>)
    ensures
        r matches Ok(json) ==> json_of(*address) == Some(json@),
        r is Err ==> json_of(*address) is None,
{
    serde_json::to_vec(address)
}

/// The ticket of the address whose JSON is given, or why it has none.
pub open spec fn ticket_text(json: Option<Seq<u8>>) -> Result<Seq<char>, TicketError> {
    match json {
        None => Err(TicketError::Unwritable),
        Some(bytes) => if bytes.len() <= usize::MAX / 4 {
            Ok(base64_text(bytes))
        } else {
            Err(TicketError::TooLong)
        },
    }
}

/// The address that a ticket leads to if the JSON in it spells this address, or none.
pub open spec fn address_result(address: Option<iroh::EndpointAddr>) -> Result<
    iroh::EndpointAddr,
    TicketError,
> {
    match address {
        Some(a) => Ok(a),
        None => Err(TicketError::NotAnAddress),
    }
}

/// The text of a ticket, if there is one.
pub open spec fn ticket_view(ticket: Result<String, TicketError>) -> Result<
    Seq<char>,
    TicketError,
> {
    match ticket {
        Ok(s) => Ok(s@),
        Err(e) => Err(e),
    }
}

/// The ticket of an address: the base64 text of its JSON.
pub fn encode_ticket(address: &iroh::EndpointAddr) -> (r: Result<String, TicketError>)
    ensures
        ticket_view(r) == ticket_text(json_of(*address)),
        json_of(*address) matches Some(json) ==> (if json.len() <= usize::MAX / 4 {
            r matches Ok(ticket) && ticket@ == base64_text(json)
        } else {
            r matches Err(e) && e == TicketError::TooLong
        }),
        json_of(*address) is None ==> (r matches Err(e) && e == TicketError::Unwritable),
{
    match write_address(address) {
        Ok(json) => match encode_ticket_bytes(json.as_slice()) {
            Ok(ticket) => Ok(ticket),
            Err(_) => Err(TicketError::TooLong),
        },
        Err(_) => Err(TicketError::Unwritable),
    }
}

/// The address that a ticket leads to: the one that the JSON in it spells.
pub fn decode_ticket(ticket: &str) -> (r: Result<iroh::EndpointAddr, TicketError>)
    ensures
        forall|json: Seq<u8>| #[trigger]
            base64_text(json) == ticket@ ==> r == address_result(address_of(json)),
        forall|json: Seq<u8>| #[trigger]
            base64_text(json) == ticket@ ==> (match address_of(json) {
                Some(address) => r == Ok::<iroh::EndpointAddr, TicketError>(address),
                None => r == Err::<iroh::EndpointAddr, TicketError>(TicketError::NotAnAddress),
            }),
        (forall|json: Seq<u8>| #[trigger] base64_text(json) != ticket@) ==> r == Err::<
            iroh::EndpointAddr,
            TicketError,
        >(TicketError::NotBase64),
{
    match decode_ticket_bytes(ticket) {
        Ok(json) => match parse_address(json.as_slice()) {
            Ok(address) => Ok(address),
            Err(_) => Err(TicketError::NotAnAddress),
        },
        Err(_) => Err(TicketError::NotBase64),
    }
}

/// What to connect to for a ticket.
pub struct ConnectPlan {
    pub address: iroh::EndpointAddr,
    pub alpn: [u8; 16],
}

/// What to connect to for a ticket: the address it leads to, with the blob protocol.
pub fn plan_connect(ticket: &str) -> (r: Result<ConnectPlan, TicketError>)
    ensures
        r matches Ok(plan) ==> plan.alpn == ALPN,
        forall|json: Seq<u8>| #[trigger]
            base64_text(json) == ticket@ ==> plan_address(r) == address_result(address_of(json)),
        forall|json: Seq<u8>| #[trigger]
            base64_text(json) == ticket@ ==> (match address_of(json) {
                Some(address) => r matches Ok(plan) && plan.address == address,
                None => r matches Err(e) && e == TicketError::NotAnAddress,
            }),
        (forall|json: Seq<u8>| #[trigger] base64_text(json) != ticket@) ==> (r matches Err(e) && e
            == TicketError::NotBase64),
        (forall|json: Seq<u8>| #[trigger] base64_text(json) != ticket@) ==> plan_address(r)
            == Err::<
            iroh::EndpointAddr,
            TicketError,
        >(TicketError::NotBase64),
{
    match decode_ticket(ticket) {
        Ok(address) => Ok(ConnectPlan { address, alpn: ALPN }),
        Err(e) => Err(e),
    }
}

/// The address of a plan, if there is one.
pub open spec fn plan_address(plan: Result<ConnectPlan, TicketError>) -> Result<
    iroh::EndpointAddr,
    TicketError,
> {
    match plan {
        Ok(p) => Ok(p.address),
        Err(e) => Err(e),
    }
}

/// Why a connection was not made.
#[derive(Debug)]
pub enum ConnectError {
    /// No endpoint could be bound.
    Bind(String),
    /// The superpeer could not be reached.
    Connect(String),
}

impl ConnectError {
    /// The text of the error.
    pub open spec fn text(self) -> Seq<char> {
        match self {
            ConnectError::Bind(cause) => "client bind: "@ + cause@,
            ConnectError::Connect(cause) => "connect: "@ + cause@,
        }
    }

    /// The text of the error.
    pub fn message(&self) -> (r: String)
        ensures
            r@ == self.text(),
    {
        match self {
            ConnectError::Bind(cause) => "client bind: ".to_owned().concat(cause.as_str()),
            ConnectError::Connect(cause) => "connect: ".to_owned().concat(cause.as_str()),
        }
    }
}

/// The text of an error begins in one way exactly if no endpoint could be bound, and in another
/// exactly if the superpeer could not be reached.
pub proof fn connect_errors_are_told_apart(error: ConnectError)
    ensures
        error is Bind <==> "client bind: "@.is_prefix_of(error.text()),
        error is Connect <==> "connect: "@.is_prefix_of(error.text()),
        error matches ConnectError::Bind(cause) ==> error.text().skip(13) == cause@,
        error matches ConnectError::Connect(cause) ==> error.text().skip(9) == cause@,
{
    reveal_strlit("client bind: ");
    reveal_strlit("connect: ");
    let bind = "client bind: "@;
    let connect = "connect: "@;
    assert(bind[1] == 'l' && connect[1] == 'o');
    assert(error is Bind ==> error.text().take(bind.len() as int) =~= bind && error.text()[1]
        == 'l');
    assert(error is Connect ==> error.text().take(connect.len() as int) =~= connect
        && error.text()[1] == 'o');
    match error {
        ConnectError::Bind(cause) => assert(error.text().skip(13) =~= cause@),
        ConnectError::Connect(cause) => assert(error.text().skip(9) =~= cause@),
    }
}

/// A ticket of an address holds the JSON of that address and nothing else; it leads to the address
/// if that JSON reads back as it.
pub proof fn ticket_leads_to_its_address(address: iroh::EndpointAddr, ticket: Seq<char>)
    requires
        ticket_text(json_of(address)) == Ok::<Seq<char>, TicketError>(ticket),
    ensures
        base64_text(json_of(address)->0) == ticket,
        forall|json: Seq<u8>| #[trigger]
            base64_text(json) == ticket ==> json_of(address) == Some(json),
        address_of(json_of(address)->0) == Some(address) ==> forall|json: Seq<u8>| #[trigger]
            base64_text(json) == ticket ==> address_result(address_of(json)) == Ok::<
                iroh::EndpointAddr,
                TicketError,
            >(address),
{
    assert forall|json: Seq<u8>| #[trigger] base64_text(json) == ticket implies json_of(address)
        == Some(json) by {
        base64_text_injective(json, json_of(address)->0);
    }
}

/// Every address that can be written as JSON has a ticket, the base64 text of that JSON, as long
/// as the text fits in memory; it fails only where one of these does not hold.
pub proof fn every_address_has_a_ticket(address: iroh::EndpointAddr, json: Seq<u8>)
    ensures
        json_of(address) == Some(json) && json.len() <= usize::MAX / 4 ==> ticket_text(
            json_of(address),
        ) == Ok::<Seq<char>, TicketError>(base64_text(json)),
        json_of(address) == Some(json) && json.len() > usize::MAX / 4 ==> ticket_text(
            json_of(address),
        ) == Err::<Seq<char>, TicketError>(TicketError::TooLong),
        json_of(address) is None ==> ticket_text(json_of(address)) == Err::<Seq<char>, TicketError>(
            TicketError::Unwritable,
        ),
{
}

/// A ticket leads to the address that its JSON spells, whatever that is, and to none where it
/// spells none.
pub proof fn every_spelled_address_is_led_to(json: Seq<u8>, address: iroh::EndpointAddr)
    ensures
        address_of(json) == Some(address) ==> address_result(address_of(json)) == Ok::<
            iroh::EndpointAddr,
            TicketError,
        >(address),
        address_of(json) is None ==> address_result(address_of(json)) == Err::<
            iroh::EndpointAddr,
            TicketError,
        >(TicketError::NotAnAddress),
{
}

/// The alphabet of tickets: capitals, small letters, digits, hyphen and underscore.
pub proof fn ticket_alphabet(n: int)
    requires
        0 <= n < 64,
    ensures
        base64_char(n)
            == "ABCDEFGHIJKLMNOPQRSTUVWXYZabcdefghijklmnopqrstuvwxyz0123456789-_"@[n],
{
    reveal_strlit("ABCDEFGHIJKLMNOPQRSTUVWXYZabcdefghijklmnopqrstuvwxyz0123456789-_");
}

/// Three bytes become four characters of six bits each, and what follows them is written as it is
/// on its own; one byte at the end becomes two characters and two become three.
pub proof fn three_bytes_are_four_characters(a: u8, b: u8, c: u8, rest: Seq<u8>)
    ensures
        base64_text(Seq::empty()) == Seq::<char>::empty(),
        base64_text(seq![a]) == seq![base64_char(a as int / 4), base64_char(a as int % 4 * 16)],
        base64_text(seq![a, b]) == seq![
            base64_char(a as int / 4),
            base64_char(a as int % 4 * 16 + b as int / 16),
            base64_char(b as int % 16 * 4),
        ],
        base64_text(seq![a, b, c] + rest) == seq![
            base64_char(a as int / 4),
            base64_char(a as int % 4 * 16 + b as int / 16),
            base64_char(b as int % 16 * 4 + c as int / 64),
            base64_char(c as int % 64),
        ] + base64_text(rest),
{
    let one = base64_text(seq![a]);
    let two = base64_text(seq![a, b]);
    assert(base64_text(Seq::empty()) =~= Seq::<char>::empty());
    assert(one =~= seq![base64_char(a as int / 4), base64_char(a as int % 4 * 16)]);
    assert(two =~= seq![
        base64_char(a as int / 4),
        base64_char(a as int % 4 * 16 + b as int / 16),
        base64_char(b as int % 16 * 4),
    ]);
    let data = seq![a, b, c] + rest;
    let head = seq![
        base64_char(a as int / 4),
        base64_char(a as int % 4 * 16 + b as int / 16),
        base64_char(b as int % 16 * 4 + c as int / 64),
        base64_char(c as int % 64),
    ];
    assert(base64_len(data.len()) == 4 + base64_len(rest.len()));
    assert forall|i: int| 0 <= i < base64_len(rest.len()) implies sextet(data, i + 4)
        == #[trigger] sextet(rest, i) by {
        assert((i + 4) / 4 == i / 4 + 1 && (i + 4) % 4 == i % 4);
        assert(forall|k: int| 0 <= k ==> #[trigger] byte_or_zero(rest, k) == byte_or_zero(
            data,
            k + 3,
        ));
    }
    assert forall|i: int| 0 <= i < base64_len(data.len()) implies #[trigger] base64_text(data)[i]
        == (head + base64_text(rest))[i] by {
        if i >= 4 {
            assert(sextet(data, i - 4 + 4) == sextet(rest, i - 4));
        } else {
            assert(i / 4 == 0);
        }
    }
    assert(base64_text(data) =~= head + base64_text(rest));
}

} // verus!
