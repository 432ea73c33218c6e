//! Network links between Docker subjects, each through its own proxy
//! container: the source dials the proxy, which forwards to the target.
//! Impairments are applied inside the proxy with `tc netem` (latency,
//! jitter, loss) and `iptables` (partitions).
//!
//! This module keeps the links and their current impairments and writes the
//! commands run in the proxies; the containers themselves are created and
//! driven by the application.
use vstd::prelude::*;

use crate::components::{LinkId, PartitionMode};
use crate::keyed::Keyed;
use crate::text::{decimal, join2, join3, u64_text};

verus! {

/// The image proxy containers run.
pub const PROXY_IMAGE: &'static str = "alpine:3.20";

/// Connection attempts made to a new proxy before the link is used anyway
/// (its relay installs packages when it starts).
pub const PROXY_READY_ATTEMPTS: u32 = 10;

/// How long one connection attempt to a new proxy may take, and the pause
/// after a failed one, in milliseconds.
pub const PROXY_READY_TIMEOUT_MS: u64 = 500;

pub const PROXY_READY_INTERVAL_MS: u64 = 500;

/// What to do after one connection attempt to a new proxy.
pub enum ProxyStep {
    /// The proxy accepts connections.
    Ready,
    /// Pause for the interval; try again if attempts are left.
    Wait,
}

/// The bounded readiness wait of a new proxy. The link is recorded whether
/// or not the proxy became ready.
pub struct ProxyWait {
    pub tries_left: u32,
}

impl ProxyWait {
    pub fn new() -> (w: ProxyWait)
        ensures
            w.tries_left == PROXY_READY_ATTEMPTS,
    {
        ProxyWait { tries_left: PROXY_READY_ATTEMPTS }
    }

    /// Whether another attempt is to be made.
    pub fn should_try(&self) -> (b: bool)
        ensures
            b == (self.tries_left > 0),
    {
        self.tries_left > 0
    }

    /// Decide after one attempt: a connection means ready; otherwise one
    /// attempt is used up and the caller pauses.
    pub fn observe(&mut self, connected: bool) -> (step: ProxyStep)
        requires
            old(self).tries_left > 0,
        ensures
            connected ==> step is Ready && final(self).tries_left == old(self).tries_left,
            !connected ==> step is Wait && final(self).tries_left == old(self).tries_left - 1,
    {
        if connected {
            ProxyStep::Ready
        } else {
            self.tries_left = self.tries_left - 1;
            ProxyStep::Wait
        }
    }
}

/// One link: its proxy container, the address the source dials, and the
/// impairments currently set.
pub struct LinkInner {
    pub container_name: String,
    pub addr: String,
    pub delay_ms: Option<u64>,
    pub jitter_ms: Option<u64>,
    /// Packet loss in whole percent.
    pub loss_percent: Option<u32>,
}

pub open spec fn unknown_link_message(id: Seq<char>) -> Seq<char> {
    "unknown link "@ + id
}

/// The `tc netem` command for a link's impairments: `delay <d>ms` (with
/// `<j>ms` of jitter when jitter is set) and `loss <p>%`; no command when
/// neither delay nor loss is set.
pub open spec fn netem_args(delay: Option<u64>, jitter: Option<u64>, loss: Option<u32>) -> Option<
    Seq<Seq<char>>,
> {
    let base = seq!["tc"@, "qdisc"@, "replace"@, "dev"@, "eth0"@, "root"@, "netem"@];
    let with_delay = match delay {
        Some(d) => {
            let a = base + seq!["delay"@, decimal(d as nat) + "ms"@];
            match jitter {
                Some(j) => if j > 0 {
                    a.push(decimal(j as nat) + "ms"@)
                } else {
                    a
                },
                None => a,
            }
        },
        None => base,
    };
    let all = match loss {
        Some(p) => with_delay + seq!["loss"@, decimal(p as nat) + "%"@],
        None => with_delay,
    };
    if delay is None && loss is None {
        None
    } else {
        Some(all)
    }
}

/// What a link's `netem` command carries: there is one exactly when a
/// delay or a loss is set; it replaces the root qdisc of `eth0` with netem;
/// a delay `d` gives `delay <d>ms` right after `netem`; a loss `p` gives
/// `loss <p>%` at the end, whether or not a delay is set.
pub proof fn netem_carries_impairments(delay: Option<u64>, jitter: Option<u64>, loss: Option<u32>)
    ensures
        netem_args(delay, jitter, loss) is Some <==> (delay is Some || loss is Some),
        netem_args(delay, jitter, loss) matches Some(c) ==> c.len() >= 9 && c.subrange(0, 7) == seq![
            "tc"@,
            "qdisc"@,
            "replace"@,
            "dev"@,
            "eth0"@,
            "root"@,
            "netem"@,
        ],
        delay matches Some(d) ==> netem_args(delay, jitter, loss) matches Some(c) && c[7] == "delay"@ && c[8]
            == decimal(d as nat) + "ms"@,
        loss matches Some(p) ==> netem_args(delay, jitter, loss) matches Some(c) && c[c.len() - 2] == "loss"@
            && c[c.len() - 1] == decimal(p as nat) + "%"@,
{
    reveal_strlit("loss");
    reveal_strlit("delay");
    reveal_strlit("tc");
    reveal_strlit("qdisc");
    reveal_strlit("replace");
    reveal_strlit("dev");
    reveal_strlit("eth0");
    reveal_strlit("root");
    reveal_strlit("netem");
    let base = seq!["tc"@, "qdisc"@, "replace"@, "dev"@, "eth0"@, "root"@, "netem"@];
    if let Some(c) = netem_args(delay, jitter, loss) {
        assert(c.subrange(0, 7) =~= base);
    }
}

/// The `iptables` rule a partition adds in the proxy: drop all outbound
/// traffic (peers time out), or reject outbound TCP with a reset.
pub open spec fn partition_args(mode: PartitionMode) -> Seq<Seq<char>> {
    match mode {
        PartitionMode::Blackhole => seq!["iptables"@, "-A"@, "OUTPUT"@, "-j"@, "DROP"@],
        PartitionMode::Reset => seq![
            "iptables"@,
            "-A"@,
            "OUTPUT"@,
            "-p"@,
            "tcp"@,
            "-j"@,
            "REJECT"@,
            "--reject-with"@,
            "tcp-reset"@,
        ],
    }
}

/// The commands that heal a link, each allowed to fail: remove the drop
/// rule, remove the reset rule, remove the `netem` queue.
pub open spec fn heal_args() -> Seq<Seq<Seq<char>>> {
    seq![
        seq!["iptables"@, "-D"@, "OUTPUT"@, "-j"@, "DROP"@],
        seq![
            "iptables"@,
            "-D"@,
            "OUTPUT"@,
            "-p"@,
            "tcp"@,
            "-j"@,
            "REJECT"@,
            "--reject-with"@,
            "tcp-reset"@,
        ],
        seq!["tc"@, "qdisc"@, "del"@, "dev"@, "eth0"@, "root"@],
    ]
}

pub open spec fn views(v: Seq<String>) -> Seq<Seq<char>> {
    v.map_values(|s: String| s@)
}

fn strings(parts: &[&str]) -> (v: Vec<String>)
    ensures
        views(v@) == parts@.map_values(|p: &str| p@),
{
    let mut v: Vec<String> = Vec::new();
    let mut i: usize = 0;
    while i < parts.len()
        invariant
            i <= parts@.len(),
            v@.len() == i,
            forall|j: int| 0 <= j < i ==> v@[j]@ == parts@[j]@,
        decreases parts.len() - i,
    {
        v.push(String::from_str(parts[i]));
        i += 1;
    }
    assert(views(v@) =~= parts@.map_values(|p: &str| p@));
    v
}

/// The proxy links of the Docker substrate, the experiment seed and the
/// number of links created so far.
pub struct DockerNetwork {
    links: Keyed<LinkInner>,
    seed: Option<u64>,
    counter: usize,
}

impl DockerNetwork {
    /// The links by id.
    pub closed spec fn spec_links(&self) -> Map<Seq<char>, LinkInner> {
        self.links.spec_map()
    }

    pub closed spec fn spec_seed(&self) -> Option<u64> {
        self.seed
    }

    /// How many links have been created.
    pub closed spec fn spec_counter(&self) -> usize {
        self.counter
    }

    pub closed spec fn wf(&self) -> bool {
        self.links.wf()
    }

    pub fn new() -> (n: DockerNetwork)
        ensures
            n.wf(),
            n.spec_links() == Map::<Seq<char>, LinkInner>::empty(),
            n.spec_seed() is None,
            n.spec_counter() == 0,
    {
        DockerNetwork { links: Keyed::new(), seed: None, counter: 0 }
    }

    /// Set the experiment seed; only the first seed counts.
    pub fn set_seed(&mut self, seed: u64)
        requires
            old(self).wf(),
        ensures
            final(self).wf(),
            final(self).spec_links() == old(self).spec_links(),
            final(self).spec_counter() == old(self).spec_counter(),
            final(self).spec_seed() == match old(self).spec_seed() {
                Some(s) => Some(s),
                None => Some(seed),
            },
    {
        if self.seed.is_none() {
            self.seed = Some(seed);
        }
    }

    /// How many links have been created.
    pub fn links_made(&self) -> (n: usize)
        ensures
            n == self.spec_counter(),
    {
        self.counter
    }

    /// The id of the next link: `link-<n>`, counting links from 1.
    pub fn next_link_id(&mut self) -> (id: LinkId)
        requires
            old(self).wf(),
            old(self).spec_counter() < usize::MAX,
        ensures
            final(self).wf(),
            final(self).spec_links() == old(self).spec_links(),
            final(self).spec_seed() == old(self).spec_seed(),
            final(self).spec_counter() == old(self).spec_counter() + 1,
            id.0@ == "link-"@ + decimal(final(self).spec_counter() as nat),
    {
        self.counter = self.counter + 1;
        let n = u64_text(self.counter as u64);
        LinkId(join2("link-", n.as_str()))
    }

    /// The name of a link's proxy container.
    pub fn proxy_container_name(id: &LinkId) -> (n: String)
        ensures
            n@ == "dstest-proxy-"@ + id.0@,
    {
        join2("dstest-proxy-", id.0.as_str())
    }

    /// `<ip>:<port>`.
    pub fn address(ip: &str, port: u16) -> (a: String)
        ensures
            a@ == ip@ + ":"@ + decimal(port as nat),
    {
        let p = u64_text(port as u64);
        join3(ip, ":", p.as_str())
    }

    /// The command of a proxy container: install the tools, then forward
    /// TCP connections on `port` to `target`.
    pub fn proxy_command(port: u16, target: &str) -> (cmd: Vec<String>)
        ensures
            views(cmd@) == seq![
                "sh"@,
                "-c"@,
                "apk add --no-cache socat iproute2 iptables && exec socat TCP-LISTEN:"@ + decimal(
                    port as nat,
                ) + ",fork,reuseaddr TCP:"@ + target@,
            ],
    {
        let p = u64_text(port as u64);
        let a = join3(
            "apk add --no-cache socat iproute2 iptables && exec socat TCP-LISTEN:",
            p.as_str(),
            ",fork,reuseaddr TCP:",
        );
        let script = join2(a.as_str(), target);
        let mut cmd: Vec<String> = Vec::new();
        cmd.push(String::from_str("sh"));
        cmd.push(String::from_str("-c"));
        cmd.push(script);
        assert(views(cmd@) =~= seq![
            "sh"@,
            "-c"@,
            "apk add --no-cache socat iproute2 iptables && exec socat TCP-LISTEN:"@ + decimal(
                port as nat,
            ) + ",fork,reuseaddr TCP:"@ + target@,
        ]);
        cmd
    }

    /// Record a created link, with no impairments.
    pub fn record_link(&mut self, id: &LinkId, container_name: String, addr: String)
        requires
            old(self).wf(),
        ensures
            final(self).wf(),
            final(self).spec_seed() == old(self).spec_seed(),
            final(self).spec_counter() == old(self).spec_counter(),
            final(self).spec_links() == old(self).spec_links().insert(
                id.0@,
                LinkInner {
                    container_name,
                    addr,
                    delay_ms: None,
                    jitter_ms: None,
                    loss_percent: None,
                },
            ),
    {
        let inner = LinkInner {
            container_name,
            addr,
            delay_ms: None,
            jitter_ms: None,
            loss_percent: None,
        };
        self.links.insert(id.0.clone(), inner);
    }

    /// The address a link's source dials.
    pub fn link_addr(&self, link: &LinkId) -> (r: Result<String, String>)
        requires
            self.wf(),
        ensures
            match r {
                Ok(a) => self.spec_links().contains_key(link.0@) && a@ == self.spec_links()[link.0@].addr@,
                Err(e) => !self.spec_links().contains_key(link.0@) && e@ == unknown_link_message(link.0@),
            },
    {
        match self.links.get(link.0.as_str()) {
            Some(inner) => Ok(inner.addr.clone()),
            None => Err(join2("unknown link ", link.0.as_str())),
        }
    }

    /// The proxy container of a link.
    pub fn container_for(&self, link: &LinkId) -> (r: Result<String, String>)
        requires
            self.wf(),
        ensures
            match r {
                Ok(n) => self.spec_links().contains_key(link.0@) && n@ == self.spec_links()[link.0@].container_name@,
                Err(e) => !self.spec_links().contains_key(link.0@) && e@ == unknown_link_message(link.0@),
            },
    {
        match self.links.get(link.0.as_str()) {
            Some(inner) => Ok(inner.container_name.clone()),
            None => Err(join2("unknown link ", link.0.as_str())),
        }
    }

    fn update(&mut self, link: &LinkId, delay: Option<Option<u64>>, jitter: Option<Option<u64>>, loss: Option<Option<u32>>) -> (r: Result<(), String>)
        requires
            old(self).wf(),
        ensures
            final(self).wf(),
            final(self).spec_seed() == old(self).spec_seed(),
            final(self).spec_counter() == old(self).spec_counter(),
            match r {
                Ok(()) => old(self).spec_links().contains_key(link.0@) && final(self).spec_links()
                    == old(self).spec_links().insert(
                    link.0@,
                    ({
                        let l = old(self).spec_links()[link.0@];
                        LinkInner {
                            container_name: l.container_name,
                            addr: l.addr,
                            delay_ms: match delay {
                                Some(d) => d,
                                None => l.delay_ms,
                            },
                            jitter_ms: match jitter {
                                Some(j) => j,
                                None => l.jitter_ms,
                            },
                            loss_percent: match loss {
                                Some(p) => p,
                                None => l.loss_percent,
                            },
                        }
                    }),
                ),
                Err(e) => !old(self).spec_links().contains_key(link.0@) && e@ == unknown_link_message(link.0@)
                    && final(self).spec_links() == old(self).spec_links(),
            },
    {
        match self.links.remove(link.0.as_str()) {
            None => {
                proof {
                    assert(old(self).spec_links().remove(link.0@) =~= old(self).spec_links());
                }
                Err(join2("unknown link ", link.0.as_str()))
            },
            Some(l) => {
                let inner = LinkInner {
                    container_name: l.container_name,
                    addr: l.addr,
                    delay_ms: match delay {
                        Some(d) => d,
                        None => l.delay_ms,
                    },
                    jitter_ms: match jitter {
                        Some(j) => j,
                        None => l.jitter_ms,
                    },
                    loss_percent: match loss {
                        Some(p) => p,
                        None => l.loss_percent,
                    },
                };
                self.links.insert(link.0.clone(), inner);
                proof {
                    assert(final(self).spec_links() =~= old(self).spec_links().insert(link.0@, inner)) by {
                        assert(old(self).spec_links().remove(link.0@).insert(link.0@, inner) =~= old(self).spec_links().insert(link.0@, inner));
                    }
                }
                Ok(())
            },
        }
    }

    /// Set a link's latency; a jitter of 0 means none.
    pub fn set_latency(&mut self, link: &LinkId, delay_ms: u64, jitter_ms: u64) -> (r: Result<(), String>)
        requires
            old(self).wf(),
        ensures
            final(self).wf(),
            final(self).spec_seed() == old(self).spec_seed(),
            final(self).spec_counter() == old(self).spec_counter(),
            match r {
                Ok(()) => old(self).spec_links().contains_key(link.0@) && final(self).spec_links()
                    == old(self).spec_links().insert(
                    link.0@,
                    LinkInner {
                        delay_ms: Some(delay_ms),
                        jitter_ms: if jitter_ms > 0 {
                            Some(jitter_ms)
                        } else {
                            None
                        },
                        ..old(self).spec_links()[link.0@]
                    },
                ),
                Err(e) => !old(self).spec_links().contains_key(link.0@) && e@ == unknown_link_message(link.0@)
                    && final(self).spec_links() == old(self).spec_links(),
            },
    {
        let jitter = if jitter_ms > 0 {
            Some(jitter_ms)
        } else {
            None
        };
        self.update(link, Some(Some(delay_ms)), Some(jitter), None)
    }

    /// Set a link's packet loss, in whole percent.
    pub fn set_loss(&mut self, link: &LinkId, loss_percent: u32) -> (r: Result<(), String>)
        requires
            old(self).wf(),
        ensures
            final(self).wf(),
            final(self).spec_seed() == old(self).spec_seed(),
            final(self).spec_counter() == old(self).spec_counter(),
            match r {
                Ok(()) => old(self).spec_links().contains_key(link.0@) && final(self).spec_links()
                    == old(self).spec_links().insert(
                    link.0@,
                    LinkInner { loss_percent: Some(loss_percent), ..old(self).spec_links()[link.0@] },
                ),
                Err(e) => !old(self).spec_links().contains_key(link.0@) && e@ == unknown_link_message(link.0@)
                    && final(self).spec_links() == old(self).spec_links(),
            },
    {
        self.update(link, None, None, Some(Some(loss_percent)))
    }

    /// Forget a link's impairments after healing; nothing changes for an
    /// unknown link.
    pub fn clear_impairments(&mut self, link: &LinkId)
        requires
            old(self).wf(),
        ensures
            final(self).wf(),
            final(self).spec_seed() == old(self).spec_seed(),
            final(self).spec_counter() == old(self).spec_counter(),
            final(self).spec_links() == if old(self).spec_links().contains_key(link.0@) {
                old(self).spec_links().insert(
                    link.0@,
                    LinkInner {
                        delay_ms: None,
                        jitter_ms: None,
                        loss_percent: None,
                        ..old(self).spec_links()[link.0@]
                    },
                )
            } else {
                old(self).spec_links()
            },
    {
        let _ = self.update(link, Some(None), Some(None), Some(None));
    }

    /// The `tc netem` command for a link's current impairments (see
    /// [`netem_args`]).
    pub fn netem_command(&self, link: &LinkId) -> (r: Result<(String, Option<Vec<String>>), String>)
        requires
            self.wf(),
        ensures
            match r {
                Ok((name, cmd)) => self.spec_links().contains_key(link.0@) && ({
                    let l = self.spec_links()[link.0@];
                    &&& name@ == l.container_name@
                    &&& match cmd {
                        Some(c) => netem_args(l.delay_ms, l.jitter_ms, l.loss_percent) == Some(
                            views(c@),
                        ),
                        None => netem_args(l.delay_ms, l.jitter_ms, l.loss_percent) is None,
                    }
                }),
                Err(e) => !self.spec_links().contains_key(link.0@) && e@ == unknown_link_message(link.0@),
            },
    {
        let inner = match self.links.get(link.0.as_str()) {
            Some(i) => i,
            None => return Err(join2("unknown link ", link.0.as_str())),
        };
        let name = inner.container_name.clone();
        if inner.delay_ms.is_none() && inner.loss_percent.is_none() {
            return Ok((name, None));
        }
        let mut cmd = strings(&["tc", "qdisc", "replace", "dev", "eth0", "root", "netem"]);
        let ghost base = views(cmd@);
        assert(base =~= seq!["tc"@, "qdisc"@, "replace"@, "dev"@, "eth0"@, "root"@, "netem"@]);
        match inner.delay_ms {
            Some(d) => {
                cmd.push(String::from_str("delay"));
                let t = u64_text(d);
                cmd.push(join2(t.as_str(), "ms"));
                assert(views(cmd@) =~= base + seq!["delay"@, decimal(d as nat) + "ms"@]);
                match inner.jitter_ms {
                    Some(j) => {
                        if j > 0 {
                            let ghost before = views(cmd@);
                            let tj = u64_text(j);
                            cmd.push(join2(tj.as_str(), "ms"));
                            assert(views(cmd@) =~= before.push(decimal(j as nat) + "ms"@));
                        }
                    },
                    None => {},
                }
            },
            None => {},
        }
        match inner.loss_percent {
            Some(p) => {
                let ghost before = views(cmd@);
                cmd.push(String::from_str("loss"));
                let tp = u64_text(p as u64);
                cmd.push(join2(tp.as_str(), "%"));
                assert(views(cmd@) =~= before + seq!["loss"@, decimal(p as nat) + "%"@]);
            },
            None => {},
        }
        Ok((name, Some(cmd)))
    }

    /// The rule a partition adds (see [`partition_args`]).
    pub fn partition_command(mode: PartitionMode) -> (cmd: Vec<String>)
        ensures
            views(cmd@) == partition_args(mode),
    {
        match mode {
            PartitionMode::Blackhole => {
                let c = strings(&["iptables", "-A", "OUTPUT", "-j", "DROP"]);
                c
            },
            PartitionMode::Reset => {
                let c = strings(
                    &[
                        "iptables",
                        "-A",
                        "OUTPUT",
                        "-p",
                        "tcp",
                        "-j",
                        "REJECT",
                        "--reject-with",
                        "tcp-reset",
                    ],
                );
                c
            },
        }
    }

    /// The commands that heal a link (see [`heal_args`]).
    pub fn heal_commands() -> (cmds: Vec<Vec<String>>)
        ensures
            cmds@.len() == 3,
            forall|i: int| 0 <= i < 3 ==> views(#[trigger] cmds@[i]@) == heal_args()[i],
    {
        let mut cmds: Vec<Vec<String>> = Vec::new();
        cmds.push(strings(&["iptables", "-D", "OUTPUT", "-j", "DROP"]));
        cmds.push(
            strings(
                &[
                    "iptables",
                    "-D",
                    "OUTPUT",
                    "-p",
                    "tcp",
                    "-j",
                    "REJECT",
                    "--reject-with",
                    "tcp-reset",
                ],
            ),
        );
        cmds.push(strings(&["tc", "qdisc", "del", "dev", "eth0", "root"]));
        cmds
    }

    /// Drop every link when a subject is torn down (which links involve it
    /// is not known), returning the proxy containers to remove.
    pub fn unregister_subject(&mut self) -> (names: Vec<String>)
        requires
            old(self).wf(),
        ensures
            final(self).wf(),
            final(self).spec_links() == Map::<Seq<char>, LinkInner>::empty(),
            final(self).spec_seed() == old(self).spec_seed(),
            final(self).spec_counter() == old(self).spec_counter(),
            forall|k: Seq<char>| #[trigger] old(self).spec_links().contains_key(k)
                ==> views(names@).contains(old(self).spec_links()[k].container_name@),
    {
        let ghost before = self.links.spec_entries();
        let drained = self.links.drain();
        let mut names: Vec<String> = Vec::new();
        let mut i: usize = 0;
        while i < drained.len()
            invariant
                i <= drained@.len(),
                names@.len() == i,
                forall|j: int| 0 <= j < i ==> names@[j]@ == drained@[j].1.container_name@,
            decreases drained.len() - i,
        {
            names.push(drained[i].1.container_name.clone());
            i += 1;
        }
        proof {
            assert forall|k: Seq<char>| #[trigger] old(self).spec_links().contains_key(k)
                implies views(names@).contains(old(self).spec_links()[k].container_name@) by {
                let c = choose|c: int| 0 <= c < before.len() && before[c].0 == k;
                assert(drained@.map_values(|e: (String, LinkInner)| (e.0@, e.1))[c] == before[c]);
                assert(views(names@)[c] == old(self).spec_links()[k].container_name@);
            }
        }
        names
    }
}

/// Links created one after another get different ids: ids of different
/// counts differ.
pub proof fn link_ids_distinct(n1: nat, n2: nat)
    requires
        n1 != n2,
    ensures
        "link-"@ + decimal(n1) != "link-"@ + decimal(n2),
{
    let p = "link-"@;
    if p + decimal(n1) == p + decimal(n2) {
        assert(decimal(n1) =~= (p + decimal(n1)).subrange(p.len() as int, (p + decimal(n1)).len() as int));
        assert(decimal(n2) =~= (p + decimal(n2)).subrange(p.len() as int, (p + decimal(n2)).len() as int));
        crate::text::decimal_injective(n1, n2);
    }
}

/// Healing a link leaves no `netem` command to apply.
pub proof fn healed_link_has_no_netem()
    ensures
        netem_args(None, None, None) is None,
{
}

} // verus!
