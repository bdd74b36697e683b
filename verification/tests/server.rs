use samotop::model::server::SamotopServer;
use samotop::server::{choose_name, my_name, service_ports, SamotopBuilder};

#[test]
fn server_serves_localhost_25_by_default() {
    assert_eq!(service_ports(vec![]), vec!["localhost:25".to_string()]);
    assert_eq!(service_ports(vec!["0.0.0.0:2525".to_string()]), vec!["0.0.0.0:2525".to_string()]);
}

#[test]
fn server_name_is_given_or_the_host_name_or_samotop() {
    assert_eq!(choose_name(Some("mx".to_string()), Some("host".to_string())), "mx");
    assert_eq!(choose_name(None, Some("host".to_string())), "host");
    assert_eq!(choose_name(None, None), "Samotop");
    assert_eq!(my_name(Some("given".to_string())), "given");
    assert!(!my_name(None).is_empty());
}

#[test]
fn server_holds_address_and_service() {
    let s = SamotopServer::new("localhost:25".to_string(), 7u8);
    assert_eq!(s.addr, "localhost:25");
    assert_eq!(s.service, 7);
}

#[test]
fn builder_serves_the_default_port_where_none_is_given() {
    let servers = SamotopBuilder::new("localhost:12345".to_string(), 1u8).into_servers();
    assert_eq!(servers.len(), 1);
    assert_eq!(servers[0].addr, "localhost:12345");
    assert_eq!(servers[0].service, 1);
}

#[test]
fn builder_serves_the_ports_given_in_order() {
    let b = SamotopBuilder::new("localhost:12345".to_string(), 1u8)
        .on("a:1".to_string())
        .on_all(vec!["b:2".to_string(), "c:3".to_string()])
        .with(2u16);
    let servers = b.into_servers();
    let addrs: Vec<String> = servers.iter().map(|s| s.addr.clone()).collect();
    assert_eq!(addrs, vec!["a:1".to_string(), "b:2".to_string(), "c:3".to_string()]);
    assert!(servers.iter().all(|s| s.service == 2));
}
