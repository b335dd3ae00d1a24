//! Parsing of the kernel's socket tables: hexadecimal addresses and the
//! listening-socket lines of the `/proc/net` files.  Reading those files
//! and resolving inodes to process ids is I/O and happens outside; the
//! text is handed in.

use vstd::prelude::*;
use crate::strutil::{
    all_hex_digits, hex_value, parse_u32_hex, spec_dec_str, spec_trim, split_seq, split_str,
    str_eq, trim, u64_to_dec,
};
use vstd::string::StrSliceExecFns;
use vstd::string::StringExecFns;

verus! {

/// Lowercase hexadecimal digit character.
pub open spec fn hex_digit_char(v: int) -> char {
    if v < 10 {
        (('0' as u8) + v as u8) as char
    } else {
        (('a' as u8) + (v - 10) as u8) as char
    }
}

/// Lowercase hexadecimal rendering, most significant digit first, no
/// leading zeros.
pub open spec fn spec_hex_str(n: int) -> Seq<char>
    decreases n,
{
    if n <= 0 {
        seq![hex_digit_char(0)]
    } else if n < 16 {
        seq![hex_digit_char(n)]
    } else {
        spec_hex_str(n / 16).push(hex_digit_char(n % 16))
    }
}

/// Render a number in lowercase hexadecimal.
pub fn u16_to_hex(n: u16) -> (r: String)
    ensures
        r@ == spec_hex_str(n as int),
{
    let mut digits: Vec<char> = Vec::new();
    let mut m: u16 = n;
    if m == 0 {
        let mut out = String::new();
        out.push('0');
        proof {
            assert(out@ =~= spec_hex_str(0));
        }
        return out;
    }
    while m > 0
        invariant
            0 <= m <= n,
            n > 0,
            spec_hex_str(n as int) == if m > 0 {
                spec_hex_str(m as int) + digits@.reverse()
            } else {
                digits@.reverse()
            },
        decreases m,
    {
        let d: u8 = (m % 16) as u8;
        let c: char = if d < 10 {
            ((0x30u8 + d) as char)
        } else {
            ((0x61u8 + (d - 10)) as char)
        };
        assert(c == hex_digit_char(m as int % 16));
        digits.push(c);
        proof {
            let mi = m as int;
            if mi >= 16 {
                assert(spec_hex_str(mi) == spec_hex_str(mi / 16).push(hex_digit_char(mi % 16)));
                assert(digits@.reverse() =~= seq![hex_digit_char(mi % 16)]
                    + digits@.drop_last().reverse());
                assert(spec_hex_str(mi / 16) + digits@.reverse() =~= spec_hex_str(mi)
                    + digits@.drop_last().reverse());
            } else {
                assert(spec_hex_str(mi) == seq![hex_digit_char(mi)]);
                assert(digits@.reverse() =~= seq![hex_digit_char(mi)]
                    + digits@.drop_last().reverse());
                assert(digits@.reverse() =~= spec_hex_str(mi) + digits@.drop_last().reverse());
            }
        }
        m = m / 16;
    }
    let mut out = String::new();
    let mut k: usize = digits.len();
    while k > 0
        invariant
            0 <= k <= digits@.len(),
            out@ == digits@.reverse().subrange(0, digits@.len() - k),
        decreases k,
    {
        let c = digits[k - 1];
        out.push(c);
        proof {
            assert(digits@.reverse()[digits@.len() - k] == digits@[k - 1]);
            assert(out@ =~= digits@.reverse().subrange(0, digits@.len() - (k - 1)));
        }
        k = k - 1;
    }
    proof {
        assert(out@ =~= digits@.reverse());
    }
    out
}

/// The value of a hexadecimal string after trimming, or zero when it is
/// empty, not hexadecimal, or too large.
pub open spec fn hex32_or_zero(s: Seq<char>) -> int {
    let t = spec_trim(s);
    if t.len() > 0 && all_hex_digits(t) && hex_value(t) <= u32::MAX {
        hex_value(t)
    } else {
        0
    }
}

/// One dotted-decimal group of a four-byte address value.
pub open spec fn dec_byte(v: int) -> Seq<char> {
    spec_dec_str(v % 256)
}

/// The text of a four-byte address read from the kernel table, whose
/// hexadecimal value is stored least significant byte first.
pub open spec fn spec_ipv4_text(hex: Seq<char>) -> Seq<char> {
    let v = hex32_or_zero(hex);
    dec_byte(v) + "."@ + dec_byte(v / 256) + "."@ + dec_byte(v / 65536) + "."@ + dec_byte(
        v / 16777216,
    )
}

/// Whether every character of the text is `0`.
pub open spec fn all_zero_chars(s: Seq<char>) -> bool {
    forall|j: int| 0 <= j < s.len() ==> s[j] == '0'
}

/// The value of one 16-bit group, or zero when it does not parse.
pub open spec fn hex16_or_zero(s: Seq<char>) -> int {
    if s.len() > 0 && all_hex_digits(s) && hex_value(s) <= 0xffff {
        hex_value(s)
    } else {
        0
    }
}

/// The first `k` colon-joined groups of a sixteen-byte address text,
/// each four hexadecimal characters rendered back without leading zeros.
pub open spec fn spec_v6_groups(hex: Seq<char>, k: int) -> Seq<char>
    decreases k,
{
    if k <= 0 {
        Seq::<char>::empty()
    } else if k == 1 {
        spec_hex_str(hex16_or_zero(hex.subrange(0, 4)))
    } else {
        spec_v6_groups(hex, k - 1) + ":"@ + spec_hex_str(
            hex16_or_zero(hex.subrange((k - 1) * 4, (k - 1) * 4 + 4)),
        )
    }
}

/// How many whole four-character groups the loop reads: up to eight.
pub open spec fn v6_group_count(len: int) -> int {
    if len / 4 >= 8 {
        8
    } else {
        len / 4
    }
}

/// The text of a sixteen-byte address: `[::]` when every character is
/// zero, else the bracketed colon-joined groups.
pub open spec fn spec_ipv6_text(hex: Seq<char>) -> Seq<char> {
    if all_zero_chars(hex) {
        "[::]"@
    } else {
        "["@ + spec_v6_groups(hex, v6_group_count(hex.len() as int)) + "]"@
    }
}

/// The display text of one kernel-table address.
pub open spec fn spec_hex_to_ip(hex: Seq<char>, is_v6: bool) -> Seq<char> {
    if is_v6 {
        spec_ipv6_text(hex)
    } else {
        spec_ipv4_text(hex)
    }
}

fn all_zero_exec(s: &str) -> (r: bool)
    ensures
        r == all_zero_chars(s@),
{
    let n = s.unicode_len();
    let mut i: usize = 0;
    while i < n
        invariant
            0 <= i <= n,
            n == s@.len(),
            forall|j: int| 0 <= j < i ==> s@[j] == '0',
        decreases n - i,
    {
        if s.get_char(i) != '0' {
            return false;
        }
        i = i + 1;
    }
    true
}

fn hex16_group(s: &str) -> (r: u16)
    ensures
        r == hex16_or_zero(s@),
{
    match parse_u32_hex(s) {
        Some(v) => {
            if v <= 0xffff {
                v as u16
            } else {
                0
            }
        },
        None => 0,
    }
}

/// Render a kernel-table address as display text: dotted decimal for
/// IPv4 (stored least significant byte first), bracketed groups for
/// IPv6, `[::]` when the IPv6 text is all zeros.  Text that does not
/// parse renders as the zero value, never as an error.
pub fn hex_to_ip(hex: &str, is_v6: bool) -> (r: String)
    ensures
        r@ == spec_hex_to_ip(hex@, is_v6),
{
    if is_v6 {
        if all_zero_exec(hex) {
            return "[::]".to_owned();
        }
        let hlen = hex.unicode_len();
        let groups: usize = if hlen / 4 >= 8 {
            8
        } else {
            hlen / 4
        };
        let mut out = String::new();
        out.append("[");
        let mut k: usize = 0;
        while k < groups
            invariant
                0 <= k <= groups,
                groups == v6_group_count(hex@.len() as int),
                groups * 4 <= hex@.len(),
                hex@.len() == hlen,
                out@ == "["@ + spec_v6_groups(hex@, k as int),
            decreases groups - k,
        {
            if k > 0 {
                out.append(":");
            }
            let g = hex.substring_char(k * 4, k * 4 + 4);
            let v = hex16_group(g);
            let t = u16_to_hex(v);
            out.append(t.as_str());
            proof {
                assert(g@ == hex@.subrange(k as int * 4, k as int * 4 + 4));
                assert(out@ =~= "["@ + spec_v6_groups(hex@, k as int + 1));
            }
            k = k + 1;
        }
        out.append("]");
        proof {
            assert(out@ =~= spec_ipv6_text(hex@));
        }
        out
    } else {
        let t = trim(hex);
        let v: u32 = match parse_u32_hex(t.as_str()) {
            Some(v) => v,
            None => 0,
        };
        assert(v == hex32_or_zero(hex@));
        let mut out = u64_to_dec((v % 256) as u64);
        out.append(".");
        let b1 = u64_to_dec(((v / 256) % 256) as u64);
        out.append(b1.as_str());
        out.append(".");
        let b2 = u64_to_dec(((v / 65536) % 256) as u64);
        out.append(b2.as_str());
        out.append(".");
        let b3 = u64_to_dec(((v / 16777216) % 256) as u64);
        out.append(b3.as_str());
        proof {
            assert(out@ =~= spec_ipv4_text(hex@));
        }
        out
    }
}

/// One listening socket, as parsed from the kernel table.  The process
/// id starts at zero; resolving the inode to a process happens outside.
pub struct PortInfo {
    pub protocol: String,
    pub local_address: String,
    pub local_port: u16,
    pub state: String,
    pub pid: u32,
    pub inode: String,
}

/// Mathematical image of a `PortInfo`.
pub struct PortInfoView {
    pub protocol: Seq<char>,
    pub local_address: Seq<char>,
    pub local_port: u16,
    pub state: Seq<char>,
    pub pid: u32,
    pub inode: Seq<char>,
}

impl View for PortInfo {
    type V = PortInfoView;

    open spec fn view(&self) -> PortInfoView {
        PortInfoView {
            protocol: self.protocol@,
            local_address: self.local_address@,
            local_port: self.local_port,
            state: self.state@,
            pid: self.pid,
            inode: self.inode@,
        }
    }
}

/// The non-empty fields of one table line, split at spaces.
pub open spec fn spec_fields(line: Seq<char>) -> Seq<Seq<char>> {
    split_seq(line, ' ').filter(|f: Seq<char>| f.len() > 0)
}

/// Split a line into its non-empty space-separated fields.
pub fn line_fields(line: &str) -> (r: Vec<String>)
    ensures
        r@.map_values(|f: String| f@) == spec_fields(line@),
{
    let raw = split_str(line, ' ');
    let mut out: Vec<String> = Vec::new();
    let n = raw.len();
    let mut i: usize = 0;
    proof {
        reveal(Seq::filter);
        assert(raw@.map_values(|f: String| f@).subrange(0, 0) =~= Seq::<Seq<char>>::empty());
        assert(out@.map_values(|f: String| f@) =~= raw@.map_values(|f: String| f@).subrange(
            0,
            0,
        ).filter(|f: Seq<char>| f.len() > 0));
    }
    while i < n
        invariant
            0 <= i <= n,
            n == raw@.len(),
            raw@.map_values(|f: String| f@) == split_seq(line@, ' '),
            out@.map_values(|f: String| f@) == raw@.map_values(|f: String| f@).subrange(
                0,
                i as int,
            ).filter(|f: Seq<char>| f.len() > 0),
        decreases n - i,
    {
        let ghost rv = raw@.map_values(|f: String| f@);
        proof {
            reveal(Seq::filter);
            assert(rv.subrange(0, i + 1).drop_last() =~= rv.subrange(0, i as int));
            assert(rv.subrange(0, i + 1).last() == rv[i as int]);
        }
        if raw[i].as_str().unicode_len() > 0 {
            out.push(crate::urlparse::clone_string(&raw[i]));
            proof {
                assert(out@.map_values(|f: String| f@) =~= rv.subrange(0, i + 1).filter(
                    |f: Seq<char>| f.len() > 0,
                ));
            }
        } else {
            proof {
                assert(out@.map_values(|f: String| f@) =~= rv.subrange(0, i + 1).filter(
                    |f: Seq<char>| f.len() > 0,
                ));
            }
        }
        i = i + 1;
    }
    proof {
        assert(raw@.map_values(|f: String| f@).subrange(0, n as int) =~= raw@.map_values(
            |f: String| f@,
        ));
    }
    out
}


/// The port text parsed as 16-bit hexadecimal, after trimming; zero when
/// it does not parse.
pub open spec fn spec_port_value(s: Seq<char>) -> int {
    hex16_or_zero(spec_trim(s))
}

/// One table line parsed: nothing for the lines the listing skips — too
/// few fields, a TCP socket not in the listen state, or a local address
/// without a port separator.
pub open spec fn spec_parse_line(line: Seq<char>, protocol: Seq<char>, is_v6: bool) -> Option<
    PortInfoView,
> {
    let fs = spec_fields(line);
    if fs.len() < 10 {
        None
    } else {
        let local = fs[1];
        let state_hex = fs[3];
        if !(protocol == "UDP"@ || state_hex == "0A"@) {
            None
        } else {
            let li = crate::urlparse::last_index_of(local, ':');
            if li < 0 {
                None
            } else {
                Some(
                    PortInfoView {
                        protocol: protocol,
                        local_address: spec_hex_to_ip(local.subrange(0, li), is_v6),
                        local_port: spec_port_value(
                            local.subrange(li + 1, local.len() as int),
                        ) as u16,
                        state: "LISTEN"@,
                        pid: 0,
                        inode: fs[9],
                    },
                )
            }
        }
    }
}

/// Parse one line of a kernel socket table.
pub fn parse_proc_line(line: &str, protocol: &str, is_v6: bool) -> (r: Option<PortInfo>)
    ensures
        match r {
            Some(e) => spec_parse_line(line@, protocol@, is_v6) == Some(e@),
            None => spec_parse_line(line@, protocol@, is_v6) is None,
        },
{
    let fields = line_fields(line);
    let ghost fsv = spec_fields(line@);
    if fields.len() < 10 {
        return None;
    }
    proof {
        assert(fields@.map_values(|f: String| f@)[1] == fields@[1]@);
        assert(fields@.map_values(|f: String| f@)[3] == fields@[3]@);
        assert(fields@.map_values(|f: String| f@)[9] == fields@[9]@);
    }
    let local = &fields[1];
    let state_hex = &fields[3];
    let listening = str_eq(protocol, "UDP") || str_eq(state_hex.as_str(), "0A");
    if !listening {
        return None;
    }
    let llen = local.as_str().unicode_len();
    let li = match crate::urlparse::rfind_char(local.as_str(), ':') {
        Some(i) => i,
        None => {
            proof {
                crate::urlparse::lemma_last_index_none(local@, ':');
            }
            return None;
        },
    };
    let addr = hex_to_ip(local.as_str().substring_char(0, li), is_v6);
    let portstr = trim(local.as_str().substring_char(li + 1, llen));
    let port: u16 = match parse_u32_hex(portstr.as_str()) {
        Some(v) => {
            if v <= 0xffff {
                v as u16
            } else {
                0
            }
        },
        None => 0,
    };
    let mut proto = String::new();
    proto.append(protocol);
    proof {
        assert(proto@ =~= protocol@);
    }
    Some(
        PortInfo {
            protocol: proto,
            local_address: addr,
            local_port: port,
            state: "LISTEN".to_owned(),
            pid: 0,
            inode: crate::urlparse::clone_string(&fields[9]),
        },
    )
}

/// The sockets of all lines after the header, in order.
pub open spec fn spec_collect_lines(
    lines: Seq<Seq<char>>,
    protocol: Seq<char>,
    is_v6: bool,
) -> Seq<PortInfoView>
    decreases lines.len(),
{
    if lines.len() == 0 {
        Seq::<PortInfoView>::empty()
    } else {
        spec_collect_lines(lines.drop_last(), protocol, is_v6) + (match spec_parse_line(
            lines.last(),
            protocol,
            is_v6,
        ) {
            Some(e) => seq![e],
            None => Seq::<PortInfoView>::empty(),
        })
    }
}

/// The sockets listed by one kernel table text: its lines after the
/// first, parsed in order.
pub open spec fn spec_parse_proc(content: Seq<char>, protocol: Seq<char>, is_v6: bool) -> Seq<
    PortInfoView,
> {
    spec_collect_lines(split_seq(content, '\n').drop_first(), protocol, is_v6)
}

/// Parse a whole kernel socket table.
pub fn parse_proc_net(content: &str, protocol: &str, is_v6: bool) -> (r: Vec<PortInfo>)
    ensures
        r@.map_values(|e: PortInfo| e@) == spec_parse_proc(content@, protocol@, is_v6),
{
    let lines = split_str(content, '\n');
    let ghost lv = split_seq(content@, '\n');
    let mut out: Vec<PortInfo> = Vec::new();
    let n = lines.len();
    let mut i: usize = 1;
    proof {
        crate::strutil::lemma_split_len(content@, '\n');
        assert(lv.subrange(1, 1) =~= Seq::<Seq<char>>::empty());
        assert(out@.map_values(|e: PortInfo| e@) =~= spec_collect_lines(
            lv.subrange(1, 1),
            protocol@,
            is_v6,
        ));
    }
    while i < n
        invariant
            1 <= i <= n || (n == 0 && i == 1),
            n == lines@.len(),
            n == lv.len(),
            forall|k: int| 0 <= k < n ==> lines@[k]@ == lv[k],
            out@.map_values(|e: PortInfo| e@) == spec_collect_lines(
                lv.subrange(1, i as int),
                protocol@,
                is_v6,
            ),
        decreases n - i,
    {
        proof {
            assert(lv.subrange(1, i + 1).drop_last() =~= lv.subrange(1, i as int));
            assert(lv.subrange(1, i + 1).last() == lv[i as int]);
        }
        match parse_proc_line(lines[i].as_str(), protocol, is_v6) {
            Some(e) => {
                out.push(e);
                proof {
                    assert(out@.map_values(|e: PortInfo| e@) =~= spec_collect_lines(
                        lv.subrange(1, i + 1),
                        protocol@,
                        is_v6,
                    ));
                }
            },
            None => {
                proof {
                    assert(out@.map_values(|e: PortInfo| e@) =~= spec_collect_lines(
                        lv.subrange(1, i + 1),
                        protocol@,
                        is_v6,
                    ));
                }
            },
        }
        i = i + 1;
    }
    proof {
        if n > 0 {
            assert(lv.subrange(1, n as int) =~= lv.drop_first());
        } else {
            assert(lv.len() >= 1);
        }
    }
    out
}

/// The sockets one table text contributes; an unreadable table
/// contributes none.
pub open spec fn spec_opt_table(
    content: Option<Seq<char>>,
    protocol: Seq<char>,
    is_v6: bool,
) -> Seq<PortInfoView> {
    match content {
        Some(c) => spec_parse_proc(c, protocol, is_v6),
        None => Seq::<PortInfoView>::empty(),
    }
}

/// View of an optional table text.
pub open spec fn view_opt_str(o: Option<&str>) -> Option<Seq<char>> {
    match o {
        Some(s) => Some(s@),
        None => None,
    }
}

/// The sockets of the four tables together: TCP before UDP, four-byte
/// before sixteen-byte addresses.
pub open spec fn spec_all_tables(
    tcp: Option<Seq<char>>,
    tcp6: Option<Seq<char>>,
    udp: Option<Seq<char>>,
    udp6: Option<Seq<char>>,
) -> Seq<PortInfoView> {
    spec_opt_table(tcp, "TCP"@, false) + spec_opt_table(tcp6, "TCP"@, true) + spec_opt_table(
        udp,
        "UDP"@,
        false,
    ) + spec_opt_table(udp6, "UDP"@, true)
}

/// All listening sockets drawn from the four kernel tables, TCP before
/// UDP, four-byte before sixteen-byte addresses.  A table whose text is
/// missing contributes nothing.
pub fn get_listening_ports_unix(
    tcp: Option<&str>,
    tcp6: Option<&str>,
    udp: Option<&str>,
    udp6: Option<&str>,
) -> (r: Vec<PortInfo>)
    ensures
        r@.map_values(|e: PortInfo| e@) == spec_all_tables(
            view_opt_str(tcp),
            view_opt_str(tcp6),
            view_opt_str(udp),
            view_opt_str(udp6),
        ),
{
    let mut out: Vec<PortInfo> = Vec::new();
    push_table(&mut out, tcp, "TCP", false);
    push_table(&mut out, tcp6, "TCP", true);
    push_table(&mut out, udp, "UDP", false);
    push_table(&mut out, udp6, "UDP", true);
    proof {
        assert(out@.map_values(|e: PortInfo| e@) =~= spec_all_tables(
            view_opt_str(tcp),
            view_opt_str(tcp6),
            view_opt_str(udp),
            view_opt_str(udp6),
        ));
    }
    out
}

fn push_table(out: &mut Vec<PortInfo>, content: Option<&str>, protocol: &str, is_v6: bool)
    ensures
        final(out)@.map_values(|e: PortInfo| e@) == old(out)@.map_values(|e: PortInfo| e@)
            + spec_opt_table(view_opt_str(content), protocol@, is_v6),
{
    match content {
        Some(c) => {
            let mut parsed = parse_proc_net(c, protocol, is_v6);
            out.append(&mut parsed);
            proof {
                assert(out@.map_values(|e: PortInfo| e@) =~= old(out)@.map_values(
                    |e: PortInfo| e@,
                ) + spec_opt_table(Some(c@), protocol@, is_v6));
            }
        },
        None => {
            proof {
                assert(out@.map_values(|e: PortInfo| e@) =~= old(out)@.map_values(
                    |e: PortInfo| e@,
                ) + spec_opt_table(None, protocol@, is_v6));
            }
        },
    }
}

/// All listening sockets from the injected table texts; this platform
/// reads them from the kernel's socket tables.
pub fn get_listening_ports(
    tcp: Option<&str>,
    tcp6: Option<&str>,
    udp: Option<&str>,
    udp6: Option<&str>,
) -> (r: Vec<PortInfo>)
    ensures
        r@.map_values(|e: PortInfo| e@) == spec_all_tables(
            view_opt_str(tcp),
            view_opt_str(tcp6),
            view_opt_str(udp),
            view_opt_str(udp6),
        ),
{
    get_listening_ports_unix(tcp, tcp6, udp, udp6)
}

/// No socket among the first `upto` uses this port.
pub open spec fn no_port_match(ports: Seq<PortInfo>, port: u16, upto: int) -> bool {
    forall|j: int| 0 <= j < upto ==> ports[j].local_port != port
}

/// Socket `i` is the first on this port and records process id `p`.
pub open spec fn is_first_port_match(ports: Seq<PortInfo>, port: u16, p: u32, i: int) -> bool {
    &&& 0 <= i < ports.len()
    &&& ports[i].local_port == port
    &&& p == ports[i].pid
    &&& no_port_match(ports, port, i)
}

/// Process id `p` belongs to the first socket on this port.
pub open spec fn found_port_pid(ports: Seq<PortInfo>, port: u16, p: u32) -> bool {
    exists|i: int| is_first_port_match(ports, port, p, i)
}

/// The process id recorded for the first socket on this port, if any
/// socket uses it.
pub fn find_pid_by_port(entries: &Vec<PortInfo>, port: u16) -> (r: Option<u32>)
    ensures
        match r {
            Some(p) => found_port_pid(entries@, port, p),
            None => no_port_match(entries@, port, entries@.len() as int),
        },
{
    let n = entries.len();
    let mut i: usize = 0;
    while i < n
        invariant
            0 <= i <= n,
            n == entries@.len(),
            no_port_match(entries@, port, i as int),
        decreases n - i,
    {
        if entries[i].local_port == port {
            let p = entries[i].pid;
            proof {
                assert(is_first_port_match(entries@, port, p, i as int));
                assert(found_port_pid(entries@, port, p));
            }
            return Some(p);
        }
        i = i + 1;
    }
    None
}
} // verus!
