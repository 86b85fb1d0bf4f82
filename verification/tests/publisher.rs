use amqp_cli::classify::{classify, Outcome};
use amqp_cli::publish::{PublishRequest, Publisher};

#[test]
fn request_carries_destination_and_line_bytes() {
    let publisher = Publisher::new("logs".to_string(), "app.info".to_string());
    assert_eq!(
        publisher.request("hello"),
        PublishRequest {
            exchange: "logs".to_string(),
            routing_key: "app.info".to_string(),
            payload: b"hello".to_vec(),
        }
    );
}

#[test]
fn default_destination_is_empty() {
    let publisher = Publisher::new(String::new(), String::new());
    let request = publisher.request("x");
    assert_eq!(request.exchange, "");
    assert_eq!(request.routing_key, "");
    assert_eq!(request.payload, vec![0x78]);
}

#[test]
fn payload_is_utf8_encoding_of_the_line() {
    let publisher = Publisher::new(String::new(), "q".to_string());
    assert_eq!(publisher.request("\u{e9}").payload, vec![0xc3, 0xa9]);
    assert_eq!(publisher.request("\u{1f600}").payload, vec![0xf0, 0x9f, 0x98, 0x80]);
    assert_eq!(publisher.request("").payload, Vec::<u8>::new());
}

#[test]
fn every_line_gets_the_same_destination() {
    let publisher = Publisher::new("ex".to_string(), "rk".to_string());
    for line in ["one", "two", "three"] {
        let request = publisher.request(line);
        assert_eq!(request.exchange, "ex");
        assert_eq!(request.routing_key, "rk");
        assert_eq!(request.payload, line.as_bytes());
    }
}

#[test]
fn published_line_is_accepted_by_the_classifier() {
    let publisher = Publisher::new(String::new(), "q".to_string());
    for line in ["alpha", "", "gr\u{fc}n \u{4e16}"] {
        let request = publisher.request(line);
        assert_eq!(classify(&request.payload), Outcome::Accept(line.to_string()));
    }
}
