use iroh::{EndpointAddr, SecretKey};
use lbry_superpeer::ticket::{
    decode_ticket_bytes, encode_ticket_bytes, plan_connect, ConnectError, NotBase64, TicketError,
};
use lbry_superpeer::{decode_ticket, encode_ticket, ALPN};

fn address(seed: u8) -> EndpointAddr {
    EndpointAddr::new(SecretKey::from_bytes(&[seed; 32]).public())
}

fn addresses() -> Vec<EndpointAddr> {
    vec![
        address(1),
        address(2).with_ip_addr("127.0.0.1:8787".parse().unwrap()),
        address(3)
            .with_ip_addr("[::1]:1".parse().unwrap())
            .with_ip_addr("10.0.0.1:65535".parse().unwrap())
            .with_relay_url("https://relay.example/".parse().unwrap()),
    ]
}

fn ticket_of_text(json: &str) -> String {
    encode_ticket_bytes(json.as_bytes()).unwrap()
}

#[test]
fn known_tickets() {
    let known: [(&[u8], &str); 7] = [
        (b"", ""),
        (b"f", "Zg"),
        (b"fo", "Zm8"),
        (b"foo", "Zm9v"),
        (b"foobar", "Zm9vYmFy"),
        (&[0xfb, 0xff, 0xbf], "-_-_"),
        (br#"{"id":1}"#, "eyJpZCI6MX0"),
    ];
    for (json, ticket) in known {
        assert_eq!(encode_ticket_bytes(json), Ok(ticket.to_string()));
        assert_eq!(decode_ticket_bytes(ticket), Ok(json.to_vec()));
    }
}

#[test]
fn tickets_give_back_what_they_hold() {
    for len in 0..70u8 {
        let json: Vec<u8> = (0..len).map(|i| i.wrapping_mul(37).wrapping_add(len)).collect();
        assert_eq!(decode_ticket_bytes(&encode_ticket_bytes(&json).unwrap()), Ok(json));
    }
}

#[test]
fn every_byte_survives_a_ticket() {
    let json: Vec<u8> = (0..=255).collect();
    assert_eq!(decode_ticket_bytes(&encode_ticket_bytes(&json).unwrap()), Ok(json));
}

#[test]
fn what_no_encoder_writes_is_no_ticket() {
    for bad in ["Z", "Zg==", "Zh", "Zm9", "+/+/", "Zm9v ", " Zm9v", "Zm9vé", "Zm\n9v"] {
        assert_eq!(decode_ticket_bytes(bad), Err(NotBase64), "{bad:?}");
        assert_eq!(decode_ticket(bad), Err(TicketError::NotBase64), "{bad:?}");
        assert_eq!(plan_connect(bad).err(), Some(TicketError::NotBase64), "{bad:?}");
    }
}

#[test]
fn a_ticket_leads_to_its_address() {
    let all = addresses();
    for a in &all {
        let ticket = encode_ticket(a).unwrap();
        assert_eq!(decode_ticket(&ticket).as_ref(), Ok(a));
        for b in &all {
            assert_eq!(a == b, encode_ticket(b).unwrap() == ticket);
        }
    }
}

#[test]
fn a_ticket_holds_the_json_of_its_address() {
    let a = address(2).with_ip_addr("127.0.0.1:8787".parse().unwrap());
    let json = format!(r#"{{"id":"{}","addrs":[{{"Ip":"127.0.0.1:8787"}}]}}"#, a.id);
    let ticket = encode_ticket(&a).unwrap();
    assert_eq!(decode_ticket_bytes(&ticket), Ok(json.clone().into_bytes()));
    assert_eq!(ticket, ticket_of_text(&json));
    assert_eq!(decode_ticket(&ticket_of_text(&format!(" {json}\n"))), Ok(a));
}

#[test]
fn json_of_something_else_is_no_address() {
    for json in ["", "{}", "[]", "null", r#"{"id":1}"#, r#"{"id":"zz","addrs":[]}"#, "{"] {
        let ticket = ticket_of_text(json);
        assert_eq!(decode_ticket(&ticket), Err(TicketError::NotAnAddress), "{json:?}");
        assert_eq!(plan_connect(&ticket).err(), Some(TicketError::NotAnAddress), "{json:?}");
    }
}

#[test]
fn what_a_ticket_connects_to() {
    for a in addresses() {
        let plan = match plan_connect(&encode_ticket(&a).unwrap()) {
            Ok(plan) => plan,
            Err(_) => panic!("the ticket is one of an address"),
        };
        assert_eq!(plan.address, a);
        assert_eq!(plan.alpn, ALPN);
        assert_eq!(&plan.alpn, b"lbry-blob-iroh/1");
    }
}

#[test]
fn failed_connections_in_words() {
    assert_eq!(ConnectError::Bind("no port".to_string()).message(), "client bind: no port");
    assert_eq!(ConnectError::Connect("timed out".to_string()).message(), "connect: timed out");
}
