use tokio_dtls_example::args::parse_arguments;
use tokio_dtls_example::net::{SocketAddr, SocketAddrV4};

fn strings(args: &[&str]) -> Vec<String> {
    args.iter().map(|a| a.to_string()).collect()
}

fn address() -> SocketAddr {
    SocketAddr::V4(SocketAddrV4 { ip: 0x7f000001, port: 9000 })
}

#[test]
fn server_and_client_are_told_apart() {
    assert_eq!(
        parse_arguments(&strings(&["x", "server", "127.0.0.1:9000"]), Some(address())),
        Ok((true, address()))
    );
    assert_eq!(
        parse_arguments(&strings(&["x", "client", "127.0.0.1:9000", "more"]), Some(address())),
        Ok((false, address()))
    );
}

#[test]
fn every_argument_is_checked_in_turn() {
    assert_eq!(parse_arguments(&strings(&[]), None), Err("Bad argument list"));
    assert_eq!(parse_arguments(&strings(&["x"]), None), Err("Missing server/client argument"));
    assert_eq!(
        parse_arguments(&strings(&["x", "Server", "127.0.0.1:9000"]), Some(address())),
        Err("Bad server/client argument")
    );
    assert_eq!(
        parse_arguments(&strings(&["x", ""]), None),
        Err("Bad server/client argument")
    );
    assert_eq!(
        parse_arguments(&strings(&["x", "client"]), None),
        Err("Missing address:port argument")
    );
    assert_eq!(
        parse_arguments(&strings(&["x", "server", "localhost"]), None),
        Err("Bad address:port argument")
    );
}
