//! The text handed to the AI security analysis of the Windows host: the
//! host's system figures, security status, connections (suspicious ones
//! first), listening ports, startup programs and users, then the questions.
//!
//! The CPU and memory percentages are floating point; the application formats
//! them and passes them in as text.

use vstd::prelude::*;
use crate::text::{chars_of, eq_str, nat_to_dec, push_all, push_str, u64_to_dec, string_of};
use crate::windows::{
    connection_suspicious, is_suspicious_connection, WindowsFirewallProfile, WindowsListeningPort,
    WindowsSecurityStatus, WindowsStartupEntry, WindowsTcpConnection, WindowsUserSession,
};

verus! {

/// What the analysis reads of a host snapshot, without its percentages.
pub struct WindowsHostFacts {
    pub hostname: String,
    pub os_version: String,
    pub uptime_secs: u64,
    pub cpu_cores: u32,
    pub security: Option<WindowsSecurityStatus>,
    pub tcp_connections: Vec<WindowsTcpConnection>,
    pub listening_ports: Vec<WindowsListeningPort>,
    pub startup_programs: Vec<WindowsStartupEntry>,
    pub logged_in_users: Vec<WindowsUserSession>,
}

/// At most the first `k` elements of `s`.
pub open spec fn at_most<T>(s: Seq<T>, k: int) -> Seq<T> {
    if s.len() <= k {
        s
    } else {
        s.take(k)
    }
}

pub open spec fn on_off(b: bool) -> Seq<char> {
    if b {
        "ON"@
    } else {
        "OFF"@
    }
}

pub open spec fn firewall_line(p: WindowsFirewallProfile) -> Seq<char> {
    "Firewall "@ + p.name@ + ": "@ + on_off(p.enabled) + "\n"@
}

pub open spec fn firewall_lines(ps: Seq<WindowsFirewallProfile>) -> Seq<char>
    decreases ps.len(),
{
    if ps.len() == 0 {
        Seq::empty()
    } else {
        firewall_lines(ps.drop_last()) + firewall_line(ps.last())
    }
}

/// The security status section (empty without a status).
pub open spec fn security_text(sec: Option<WindowsSecurityStatus>) -> Seq<char> {
    match sec {
        None => Seq::empty(),
        Some(s) => "\n=== SECURITY STATUS ===\n"@ + firewall_lines(s.firewall_profiles@) + status_lines(s),
    }
}

pub open spec fn is_established(c: WindowsTcpConnection) -> bool {
    c.state@ == "ESTABLISHED"@
}

pub open spec fn not_suspicious(c: WindowsTcpConnection) -> bool {
    !connection_suspicious(c)
}

/// The connections with the suspicious ones first, each group in its order.
pub open spec fn suspicious_first(cs: Seq<WindowsTcpConnection>) -> Seq<WindowsTcpConnection> {
    cs.filter(|c: WindowsTcpConnection| connection_suspicious(c)) + cs.filter(
        |c: WindowsTcpConnection| not_suspicious(c),
    )
}

pub open spec fn connection_line(c: WindowsTcpConnection) -> Seq<char> {
    "  "@ + c.local_addr@ + ":"@ + nat_to_dec(c.local_port as nat) + " -> "@ + c.remote_addr@ + ":"@
        + nat_to_dec(c.remote_port as nat) + " ["@ + c.state@ + "] "@ + c.process_name@ + "\n"@
}

pub open spec fn connection_lines(cs: Seq<WindowsTcpConnection>) -> Seq<char>
    decreases cs.len(),
{
    if cs.len() == 0 {
        Seq::empty()
    } else {
        connection_lines(cs.drop_last()) + connection_line(cs.last())
    }
}

/// The connections section: counts, then the first ten connections with the
/// suspicious ones first (empty without connections).
pub open spec fn connections_text(cs: Seq<WindowsTcpConnection>) -> Seq<char> {
    if cs.len() == 0 {
        Seq::empty()
    } else {
        "\n=== CONNECTIONS ("@ + nat_to_dec(cs.len()) + " total, "@ + nat_to_dec(
            cs.filter(|c: WindowsTcpConnection| is_established(c)).len(),
        ) + " established, "@ + nat_to_dec(cs.filter(|c: WindowsTcpConnection| connection_suspicious(c)).len())
            + " suspicious) ===\n"@ + connection_lines(at_most(suspicious_first(cs), 10))
    }
}

pub open spec fn port_line(p: WindowsListeningPort) -> Seq<char> {
    "  "@ + nat_to_dec(p.port as nat) + " "@ + p.protocol@ + " "@ + p.process_name@ + " (PID:"@ + nat_to_dec(
        p.pid as nat,
    ) + ")\n"@
}

pub open spec fn port_lines(ps: Seq<WindowsListeningPort>) -> Seq<char>
    decreases ps.len(),
{
    if ps.len() == 0 {
        Seq::empty()
    } else {
        port_lines(ps.drop_last()) + port_line(ps.last())
    }
}

pub open spec fn startup_line(e: WindowsStartupEntry) -> Seq<char> {
    "  "@ + e.name@ + " -> "@ + e.command@ + " ["@ + e.location@ + "]\n"@
}

pub open spec fn startup_lines(es: Seq<WindowsStartupEntry>) -> Seq<char>
    decreases es.len(),
{
    if es.len() == 0 {
        Seq::empty()
    } else {
        startup_lines(es.drop_last()) + startup_line(es.last())
    }
}

pub open spec fn user_line(u: WindowsUserSession) -> Seq<char> {
    "  "@ + u.username@ + " ("@ + u.session_type@ + ", "@ + u.state@ + ")\n"@
}

pub open spec fn user_lines(us: Seq<WindowsUserSession>) -> Seq<char>
    decreases us.len(),
{
    if us.len() == 0 {
        Seq::empty()
    } else {
        user_lines(us.drop_last()) + user_line(us.last())
    }
}

/// The listening ports (first fifteen), startup programs (first ten) and
/// users sections, each empty when there is nothing to list.
pub open spec fn inventory_text(
    ports: Seq<WindowsListeningPort>,
    startup: Seq<WindowsStartupEntry>,
    users: Seq<WindowsUserSession>,
) -> Seq<char> {
    ports_text(ports) + startup_text(startup) + users_text(users)
}

/// The system section, with the CPU and memory percentages as given.
pub open spec fn system_text(h: WindowsHostFacts, cpu_pct: Seq<char>, ram_pct: Seq<char>) -> Seq<char> {
    "Analyze this Windows host security posture:\n\n"@ + "=== SYSTEM ===\n"@ + "Hostname: "@ + h.hostname@
        + "\n"@ + "OS: "@ + h.os_version@ + "\n"@ + "Uptime: "@ + nat_to_dec((h.uptime_secs / 3600) as nat)
        + "h\n"@ + "CPU: "@ + cpu_pct + "% | RAM: "@ + ram_pct + "% ("@ + nat_to_dec(h.cpu_cores as nat)
        + " cores)\n"@
}

pub open spec fn questions_text() -> Seq<char> {
    "\nProvide a security assessment covering:\n"@ + "1. Overall security posture (good/moderate/poor)\n"@
        + "2. Immediate risks or concerns\n"@ + "3. Suspicious connections or processes\n"@
        + "4. Specific recommendations\n"@ + "Keep it concise and actionable (under 300 words).\n"@
}

/// The whole analysis request.
pub open spec fn spec_security_ai_context(h: WindowsHostFacts, cpu_pct: Seq<char>, ram_pct: Seq<char>) -> Seq<char> {
    system_text(h, cpu_pct, ram_pct) + security_text(h.security) + connections_text(h.tcp_connections@)
        + inventory_text(h.listening_ports@, h.startup_programs@, h.logged_in_users@) + questions_text()
}

fn push_dec(v: &mut Vec<char>, n: u64)
    ensures
        final(v)@ == old(v)@ + nat_to_dec(n as nat),
{
    let d = u64_to_dec(n);
    push_all(v, d.as_slice());
}

fn push_on_off(v: &mut Vec<char>, b: bool)
    ensures
        final(v)@ == old(v)@ + on_off(b),
{
    if b {
        push_str(v, "ON");
    } else {
        push_str(v, "OFF");
    }
}

fn push_firewall_lines(v: &mut Vec<char>, ps: &Vec<WindowsFirewallProfile>)
    ensures
        final(v)@ == old(v)@ + firewall_lines(ps@),
{
    let ghost start = v@;
    let mut i: usize = 0;
    proof {
        assert(start + firewall_lines(ps@.take(0)) =~= start);
    }
    while i < ps.len()
        invariant
            i <= ps@.len(),
            v@ == start + firewall_lines(ps@.take(i as int)),
        decreases ps@.len() - i,
    {
        proof {
            assert(ps@.take(i + 1).drop_last() =~= ps@.take(i as int));
        }
        push_str(v, "Firewall ");
        push_str(v, ps[i].name.as_str());
        push_str(v, ": ");
        push_on_off(v, ps[i].enabled);
        push_str(v, "\n");
        proof {
            assert(v@ =~= start + firewall_lines(ps@.take(i + 1)));
        }
        i = i + 1;
    }
    proof {
        assert(ps@.take(ps@.len() as int) =~= ps@);
    }
}

/// The optional lines of a security status, after the firewall lines.
pub open spec fn status_lines(s: WindowsSecurityStatus) -> Seq<char> {
    (match s.defender_enabled {
        Some(d) => "Defender: "@ + on_off(d) + "\n"@,
        None => Seq::empty(),
    }) + (match s.defender_realtime {
        Some(r) => "Real-time protection: "@ + on_off(r) + "\n"@,
        None => Seq::empty(),
    }) + (match s.last_update_days {
        Some(d) => "Last Windows Update: "@ + nat_to_dec(d as nat) + " days ago\n"@,
        None => Seq::empty(),
    })
}

fn push_status_lines(v: &mut Vec<char>, s: &WindowsSecurityStatus)
    ensures
        final(v)@ == old(v)@ + status_lines(*s),
{
    let ghost start = v@;
    if let Some(d) = s.defender_enabled {
        push_str(v, "Defender: ");
        push_on_off(v, d);
        push_str(v, "\n");
    }
    let ghost mid1 = v@;
    if let Some(r) = s.defender_realtime {
        push_str(v, "Real-time protection: ");
        push_on_off(v, r);
        push_str(v, "\n");
    }
    let ghost mid2 = v@;
    if let Some(days) = s.last_update_days {
        push_str(v, "Last Windows Update: ");
        push_dec(v, days);
        push_str(v, " days ago\n");
    }
    proof {
        let d_text = match s.defender_enabled {
            Some(d) => "Defender: "@ + on_off(d) + "\n"@,
            None => Seq::<char>::empty(),
        };
        let r_text = match s.defender_realtime {
            Some(r) => "Real-time protection: "@ + on_off(r) + "\n"@,
            None => Seq::<char>::empty(),
        };
        let u_text = match s.last_update_days {
            Some(d) => "Last Windows Update: "@ + nat_to_dec(d as nat) + " days ago\n"@,
            None => Seq::<char>::empty(),
        };
        assert(mid1 =~= start + d_text);
        assert(mid2 =~= mid1 + r_text);
        assert(v@ =~= mid2 + u_text);
        assert(v@ =~= start + status_lines(*s));
    }
}

fn push_security(v: &mut Vec<char>, sec: &Option<WindowsSecurityStatus>)
    ensures
        final(v)@ == old(v)@ + security_text(*sec),
{
    match sec {
        None => {
            assert(old(v)@ + Seq::<char>::empty() =~= old(v)@);
        },
        Some(s) => {
            let ghost start = v@;
            push_str(v, "\n=== SECURITY STATUS ===\n");
            push_firewall_lines(v, &s.firewall_profiles);
            push_status_lines(v, s);
            proof {
                assert(v@ =~= start + ("\n=== SECURITY STATUS ===\n"@ + firewall_lines(s.firewall_profiles@)
                    + status_lines(*s)));
            }
        },
    }
}

fn push_connection(v: &mut Vec<char>, c: &WindowsTcpConnection)
    ensures
        final(v)@ == old(v)@ + connection_line(*c),
{
    let ghost start = v@;
    push_str(v, "  ");
    push_str(v, c.local_addr.as_str());
    push_str(v, ":");
    push_dec(v, c.local_port as u64);
    push_str(v, " -> ");
    push_str(v, c.remote_addr.as_str());
    push_str(v, ":");
    push_dec(v, c.remote_port as u64);
    push_str(v, " [");
    push_str(v, c.state.as_str());
    push_str(v, "] ");
    push_str(v, c.process_name.as_str());
    push_str(v, "\n");
    proof {
        assert(v@ =~= start + connection_line(*c));
    }
}

/// Positions of the connections that are (`wanted` true) or are not
/// suspicious, appended to `idx` in order.
fn collect_positions(idx: &mut Vec<usize>, cs: &Vec<WindowsTcpConnection>, wanted: bool)
    ensures
        final(idx)@.map_values(|k: usize| cs@[k as int]) == old(idx)@.map_values(|k: usize| cs@[k as int])
            + if wanted {
            cs@.filter(|c: WindowsTcpConnection| connection_suspicious(c))
        } else {
            cs@.filter(|c: WindowsTcpConnection| not_suspicious(c))
        },
        forall|j: int| 0 <= j < old(idx)@.len() ==> final(idx)@[j] == old(idx)@[j],
        forall|j: int| old(idx)@.len() <= j < final(idx)@.len() ==> final(idx)@[j] < cs@.len(),
        final(idx)@.len() >= old(idx)@.len(),
{
    let ghost pred = if wanted {
        |c: WindowsTcpConnection| connection_suspicious(c)
    } else {
        |c: WindowsTcpConnection| not_suspicious(c)
    };
    let ghost base = idx@;
    let mut i: usize = 0;
    while i < cs.len()
        invariant
            i <= cs@.len(),
            pred == (if wanted {
                |c: WindowsTcpConnection| connection_suspicious(c)
            } else {
                |c: WindowsTcpConnection| not_suspicious(c)
            }),
            base == old(idx)@,
            idx@.len() >= base.len(),
            forall|j: int| 0 <= j < base.len() ==> idx@[j] == base[j],
            forall|j: int| base.len() <= j < idx@.len() ==> idx@[j] < cs@.len(),
            idx@.map_values(|k: usize| cs@[k as int]) == base.map_values(|k: usize| cs@[k as int]) + cs@.take(
                i as int,
            ).filter(pred),
        decreases cs@.len() - i,
    {
        proof {
            reveal(Seq::filter);
            assert(cs@.take(i + 1).drop_last() =~= cs@.take(i as int));
            assert(cs@.take(i + 1).last() == cs@[i as int]);
        }
        let keep = if wanted {
            is_suspicious_connection(&cs[i])
        } else {
            !is_suspicious_connection(&cs[i])
        };
        let ghost before = idx@;
        if keep {
            idx.push(i);
            proof {
                assert(idx@.map_values(|k: usize| cs@[k as int]) =~= before.map_values(|k: usize| cs@[k as int]).push(
                    cs@[i as int],
                ));
            }
        }
        i = i + 1;
    }
    proof {
        assert(cs@.take(cs@.len() as int) =~= cs@);
    }
}

fn push_connections(v: &mut Vec<char>, cs: &Vec<WindowsTcpConnection>)
    ensures
        final(v)@ == old(v)@ + connections_text(cs@),
{
    if cs.len() == 0 {
        assert(old(v)@ + Seq::<char>::empty() =~= old(v)@);
        return;
    }
    let ghost start = v@;
    let mut established: u64 = 0;
    let mut i: usize = 0;
    while i < cs.len()
        invariant
            i <= cs@.len(),
            established <= i,
            established == cs@.take(i as int).filter(|c: WindowsTcpConnection| is_established(c)).len(),
        decreases cs@.len() - i,
    {
        proof {
            reveal(Seq::filter);
            assert(cs@.take(i + 1).drop_last() =~= cs@.take(i as int));
        }
        if eq_str(chars_of(cs[i].state.as_str()).as_slice(), "ESTABLISHED") {
            established = established + 1;
        }
        i = i + 1;
    }
    proof {
        assert(cs@.take(cs@.len() as int) =~= cs@);
    }
    let mut idx: Vec<usize> = Vec::new();
    collect_positions(&mut idx, cs, true);
    let n_suspicious = idx.len();
    collect_positions(&mut idx, cs, false);
    proof {
        assert(Seq::<usize>::empty().map_values(|k: usize| cs@[k as int]) =~= Seq::<WindowsTcpConnection>::empty());
        assert(idx@.map_values(|k: usize| cs@[k as int]) =~= suspicious_first(cs@));
        assert(n_suspicious == cs@.filter(|c: WindowsTcpConnection| connection_suspicious(c)).len());
    }
    push_str(v, "\n=== CONNECTIONS (");
    push_dec(v, cs.len() as u64);
    push_str(v, " total, ");
    push_dec(v, established);
    push_str(v, " established, ");
    push_dec(v, n_suspicious as u64);
    push_str(v, " suspicious) ===\n");
    let ghost head = v@;
    let ghost order = suspicious_first(cs@);
    let limit: usize = if idx.len() < 10 {
        idx.len()
    } else {
        10
    };
    let mut k: usize = 0;
    while k < limit
        invariant
            k <= limit,
            limit <= idx@.len(),
            limit == if order.len() <= 10 { order.len() as int } else { 10 },
            order == idx@.map_values(|j: usize| cs@[j as int]),
            forall|j: int| 0 <= j < idx@.len() ==> idx@[j] < cs@.len(),
            v@ == head + connection_lines(order.take(k as int)),
        decreases limit - k,
    {
        proof {
            assert(order.take(k + 1).drop_last() =~= order.take(k as int));
            assert(order[k as int] == cs@[idx@[k as int] as int]);
        }
        push_connection(v, &cs[idx[k]]);
        k = k + 1;
    }
    proof {
        assert(order.take(limit as int) =~= at_most(order, 10));
        assert(v@ =~= old(v)@ + connections_text(cs@));
    }
}

pub open spec fn ports_text(ports: Seq<WindowsListeningPort>) -> Seq<char> {
    if ports.len() == 0 {
        Seq::empty()
    } else {
        "\n=== LISTENING PORTS ("@ + nat_to_dec(ports.len()) + ") ===\n"@ + port_lines(at_most(ports, 15))
    }
}

pub open spec fn startup_text(startup: Seq<WindowsStartupEntry>) -> Seq<char> {
    if startup.len() == 0 {
        Seq::empty()
    } else {
        "\n=== STARTUP PROGRAMS ("@ + nat_to_dec(startup.len()) + ") ===\n"@ + startup_lines(at_most(startup, 10))
    }
}

pub open spec fn users_text(users: Seq<WindowsUserSession>) -> Seq<char> {
    if users.len() == 0 {
        Seq::empty()
    } else {
        "\n=== LOGGED-IN USERS ("@ + nat_to_dec(users.len()) + ") ===\n"@ + user_lines(users)
    }
}

fn push_ports(v: &mut Vec<char>, ports: &Vec<WindowsListeningPort>)
    ensures
        final(v)@ == old(v)@ + ports_text(ports@),
{
    if ports.len() == 0 {
        assert(old(v)@ + Seq::<char>::empty() =~= old(v)@);
        return;
    }
    let ghost start = v@;
    push_str(v, "\n=== LISTENING PORTS (");
    push_dec(v, ports.len() as u64);
    push_str(v, ") ===\n");
    let ghost head = v@;
    let limit: usize = if ports.len() < 15 {
        ports.len()
    } else {
        15
    };
    let mut i: usize = 0;
    proof {
        assert(head + port_lines(ports@.take(0)) =~= head);
    }
    while i < limit
        invariant
            i <= limit,
            limit <= ports@.len(),
            v@ == head + port_lines(ports@.take(i as int)),
        decreases limit - i,
    {
        proof {
            assert(ports@.take(i + 1).drop_last() =~= ports@.take(i as int));
        }
        let p = &ports[i];
        push_str(v, "  ");
        push_dec(v, p.port as u64);
        push_str(v, " ");
        push_str(v, p.protocol.as_str());
        push_str(v, " ");
        push_str(v, p.process_name.as_str());
        push_str(v, " (PID:");
        push_dec(v, p.pid as u64);
        push_str(v, ")\n");
        proof {
            assert(v@ =~= head + port_lines(ports@.take(i + 1)));
        }
        i = i + 1;
    }
    proof {
        assert(ports@.take(limit as int) =~= at_most(ports@, 15));
        assert(v@ =~= start + ports_text(ports@));
    }
}

fn push_startup(v: &mut Vec<char>, startup: &Vec<WindowsStartupEntry>)
    ensures
        final(v)@ == old(v)@ + startup_text(startup@),
{
    if startup.len() == 0 {
        assert(old(v)@ + Seq::<char>::empty() =~= old(v)@);
        return;
    }
    let ghost start = v@;
    push_str(v, "\n=== STARTUP PROGRAMS (");
    push_dec(v, startup.len() as u64);
    push_str(v, ") ===\n");
    let ghost head = v@;
    let limit: usize = if startup.len() < 10 {
        startup.len()
    } else {
        10
    };
    let mut i: usize = 0;
    proof {
        assert(head + startup_lines(startup@.take(0)) =~= head);
    }
    while i < limit
        invariant
            i <= limit,
            limit <= startup@.len(),
            v@ == head + startup_lines(startup@.take(i as int)),
        decreases limit - i,
    {
        proof {
            assert(startup@.take(i + 1).drop_last() =~= startup@.take(i as int));
        }
        let e = &startup[i];
        push_str(v, "  ");
        push_str(v, e.name.as_str());
        push_str(v, " -> ");
        push_str(v, e.command.as_str());
        push_str(v, " [");
        push_str(v, e.location.as_str());
        push_str(v, "]\n");
        proof {
            assert(v@ =~= head + startup_lines(startup@.take(i + 1)));
        }
        i = i + 1;
    }
    proof {
        assert(startup@.take(limit as int) =~= at_most(startup@, 10));
        assert(v@ =~= start + startup_text(startup@));
    }
}

fn push_users(v: &mut Vec<char>, users: &Vec<WindowsUserSession>)
    ensures
        final(v)@ == old(v)@ + users_text(users@),
{
    if users.len() == 0 {
        assert(old(v)@ + Seq::<char>::empty() =~= old(v)@);
        return;
    }
    let ghost start = v@;
    push_str(v, "\n=== LOGGED-IN USERS (");
    push_dec(v, users.len() as u64);
    push_str(v, ") ===\n");
    let ghost head = v@;
    let mut i: usize = 0;
    proof {
        assert(head + user_lines(users@.take(0)) =~= head);
    }
    while i < users.len()
        invariant
            i <= users@.len(),
            v@ == head + user_lines(users@.take(i as int)),
        decreases users@.len() - i,
    {
        proof {
            assert(users@.take(i + 1).drop_last() =~= users@.take(i as int));
        }
        let u = &users[i];
        push_str(v, "  ");
        push_str(v, u.username.as_str());
        push_str(v, " (");
        push_str(v, u.session_type.as_str());
        push_str(v, ", ");
        push_str(v, u.state.as_str());
        push_str(v, ")\n");
        proof {
            assert(v@ =~= head + user_lines(users@.take(i + 1)));
        }
        i = i + 1;
    }
    proof {
        assert(users@.take(users@.len() as int) =~= users@);
        assert(v@ =~= start + users_text(users@));
    }
}

/// The AI security analysis request for the host, with its CPU and memory
/// percentages already formatted.
pub fn security_ai_context(host: &WindowsHostFacts, cpu_pct: &str, ram_pct: &str) -> (r: String)
    ensures
        r@ == spec_security_ai_context(*host, cpu_pct@, ram_pct@),
{
    let mut v: Vec<char> = Vec::new();
    push_str(&mut v, "Analyze this Windows host security posture:\n\n");
    push_str(&mut v, "=== SYSTEM ===\n");
    push_str(&mut v, "Hostname: ");
    push_str(&mut v, host.hostname.as_str());
    push_str(&mut v, "\n");
    push_str(&mut v, "OS: ");
    push_str(&mut v, host.os_version.as_str());
    push_str(&mut v, "\n");
    push_str(&mut v, "Uptime: ");
    push_dec(&mut v, host.uptime_secs / 3600);
    push_str(&mut v, "h\n");
    push_str(&mut v, "CPU: ");
    push_str(&mut v, cpu_pct);
    push_str(&mut v, "% | RAM: ");
    push_str(&mut v, ram_pct);
    push_str(&mut v, "% (");
    push_dec(&mut v, host.cpu_cores as u64);
    push_str(&mut v, " cores)\n");
    let ghost sys = v@;
    proof {
        assert(sys =~= system_text(*host, cpu_pct@, ram_pct@));
    }
    push_security(&mut v, &host.security);
    push_connections(&mut v, &host.tcp_connections);
    let ghost before_inventory = v@;
    push_ports(&mut v, &host.listening_ports);
    push_startup(&mut v, &host.startup_programs);
    push_users(&mut v, &host.logged_in_users);
    proof {
        assert(v@ =~= before_inventory + inventory_text(
            host.listening_ports@,
            host.startup_programs@,
            host.logged_in_users@,
        ));
    }
    let ghost body = v@;
    push_str(&mut v, "\nProvide a security assessment covering:\n");
    push_str(&mut v, "1. Overall security posture (good/moderate/poor)\n");
    push_str(&mut v, "2. Immediate risks or concerns\n");
    push_str(&mut v, "3. Suspicious connections or processes\n");
    push_str(&mut v, "4. Specific recommendations\n");
    push_str(&mut v, "Keep it concise and actionable (under 300 words).\n");
    proof {
        assert(v@ =~= body + questions_text());
    }
    string_of(v.as_slice())
}

} // verus!
