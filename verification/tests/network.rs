use dstest::docker::network::{ProxyStep, ProxyWait, PROXY_READY_ATTEMPTS};
use dstest::components::{partition_options, Direction, LinkId, PartitionMode};
use dstest::docker::network::DockerNetwork;

fn link(net: &mut DockerNetwork) -> LinkId {
    let id = net.next_link_id();
    let name = DockerNetwork::proxy_container_name(&id);
    net.record_link(&id, name, DockerNetwork::address("172.17.0.9", 5432));
    id
}

#[test]
fn links_are_numbered_and_named() {
    let mut net = DockerNetwork::new();
    let a = net.next_link_id();
    let b = net.next_link_id();
    assert_eq!(a.0, "link-1");
    assert_eq!(b.0, "link-2");
    assert_eq!(DockerNetwork::proxy_container_name(&b), "dstest-proxy-link-2");
}

#[test]
fn proxy_command_forwards_the_port() {
    let cmd = DockerNetwork::proxy_command(8080, "172.17.0.3:8080");
    assert_eq!(
        cmd,
        vec![
            "sh".to_string(),
            "-c".to_string(),
            "apk add --no-cache socat iproute2 iptables && exec socat TCP-LISTEN:8080,fork,reuseaddr TCP:172.17.0.3:8080".to_string(),
        ]
    );
}

#[test]
fn netem_follows_impairments() {
    let mut net = DockerNetwork::new();
    let id = link(&mut net);
    assert_eq!(net.link_addr(&id).unwrap(), "172.17.0.9:5432");
    let (name, cmd) = net.netem_command(&id).unwrap();
    assert_eq!(name, "dstest-proxy-link-1");
    assert!(cmd.is_none());
    net.set_latency(&id, 100, 0).unwrap();
    let (_, cmd) = net.netem_command(&id).unwrap();
    assert_eq!(
        cmd.unwrap(),
        vec!["tc", "qdisc", "replace", "dev", "eth0", "root", "netem", "delay", "100ms"]
    );
    net.set_latency(&id, 100, 20).unwrap();
    net.set_loss(&id, 25).unwrap();
    let (_, cmd) = net.netem_command(&id).unwrap();
    assert_eq!(
        cmd.unwrap(),
        vec!["tc", "qdisc", "replace", "dev", "eth0", "root", "netem", "delay", "100ms", "20ms", "loss", "25%"]
    );
    net.clear_impairments(&id);
    assert!(net.netem_command(&id).unwrap().1.is_none());
}

#[test]
fn unknown_links_are_refused() {
    let mut net = DockerNetwork::new();
    let ghost = LinkId("link-9".to_string());
    assert_eq!(net.link_addr(&ghost).unwrap_err(), "unknown link link-9");
    assert_eq!(net.set_loss(&ghost, 5).unwrap_err(), "unknown link link-9");
    assert_eq!(net.set_latency(&ghost, 5, 1).unwrap_err(), "unknown link link-9");
    assert_eq!(net.container_for(&ghost).unwrap_err(), "unknown link link-9");
    assert!(net.netem_command(&ghost).is_err());
}

#[test]
fn partition_and_heal_commands() {
    assert_eq!(
        DockerNetwork::partition_command(PartitionMode::Blackhole),
        vec!["iptables", "-A", "OUTPUT", "-j", "DROP"]
    );
    assert_eq!(
        DockerNetwork::partition_command(PartitionMode::Reset),
        vec!["iptables", "-A", "OUTPUT", "-p", "tcp", "-j", "REJECT", "--reject-with", "tcp-reset"]
    );
    let heal = DockerNetwork::heal_commands();
    assert_eq!(heal.len(), 3);
    assert_eq!(heal[2], vec!["tc", "qdisc", "del", "dev", "eth0", "root"]);
}

#[test]
fn unregister_drops_every_link() {
    let mut net = DockerNetwork::new();
    link(&mut net);
    link(&mut net);
    let mut names = net.unregister_subject();
    names.sort();
    assert_eq!(names, vec!["dstest-proxy-link-1", "dstest-proxy-link-2"]);
    assert!(net.unregister_subject().is_empty());
}

#[test]
fn partition_options_default_and_parse() {
    assert_eq!(partition_options(None, None), Ok((Direction::Both, PartitionMode::Blackhole)));
    assert_eq!(
        partition_options(Some("a->b".to_string()), Some("RST".to_string())),
        Ok((Direction::AToB, PartitionMode::Reset))
    );
    assert!(partition_options(Some("sideways".to_string()), Some("bogus".to_string())).is_err());
    assert_eq!(
        partition_options(None, Some("bogus".to_string())).unwrap_err(),
        "unknown partition mode 'bogus' (expected \"blackhole\" or \"reset\")"
    );
}

#[test]
fn proxy_wait_is_bounded() {
    let mut w = ProxyWait::new();
    let mut tries = 0;
    while w.should_try() {
        assert!(matches!(w.observe(false), ProxyStep::Wait));
        tries += 1;
    }
    assert_eq!(tries, PROXY_READY_ATTEMPTS);
    let mut w = ProxyWait::new();
    assert!(matches!(w.observe(true), ProxyStep::Ready));
    assert_eq!(w.tries_left, 10);
}
