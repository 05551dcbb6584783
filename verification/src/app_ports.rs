use vstd::prelude::*;

use crate::text::{chars_of, contains_seq, push_char, str_contains};

verus! {

// ---------------------------------------------------------------------------
// Wildcard matching
// ---------------------------------------------------------------------------

/// Glob matching: `*` matches any run of characters (possibly empty), `?`
/// matches exactly one character, anything else matches itself.
pub open spec fn glob_match(p: Seq<char>, t: Seq<char>) -> bool
    decreases p.len(), t.len(),
{
    if p.len() == 0 {
        t.len() == 0
    } else if p[0] == '*' {
        glob_match(p.drop_first(), t) || (t.len() > 0 && glob_match(p, t.drop_first()))
    } else if t.len() == 0 {
        false
    } else {
        (p[0] == '?' || p[0] == t[0]) && glob_match(p.drop_first(), t.drop_first())
    }
}

/// Whether the pattern from `pi` on matches the text from `ti` on.
fn glob_match_at(p: &Vec<char>, pi: usize, t: &Vec<char>, ti: usize) -> (r: bool)
    requires
        pi <= p.len(),
        ti <= t.len(),
    ensures
        r == glob_match(p@.skip(pi as int), t@.skip(ti as int)),
    decreases p.len() - pi, t.len() - ti,
{
    let ghost pv = p@.skip(pi as int);
    let ghost tv = t@.skip(ti as int);
    if pi == p.len() {
        ti == t.len()
    } else {
        proof {
            assert(pv[0] == p@[pi as int]);
            assert(pv.drop_first() =~= p@.skip(pi + 1));
        }
        if p[pi] == '*' {
            if glob_match_at(p, pi + 1, t, ti) {
                true
            } else if ti < t.len() {
                proof {
                    assert(tv.drop_first() =~= t@.skip(ti + 1));
                }
                glob_match_at(p, pi, t, ti + 1)
            } else {
                false
            }
        } else if ti == t.len() {
            false
        } else {
            proof {
                assert(tv[0] == t@[ti as int]);
                assert(tv.drop_first() =~= t@.skip(ti + 1));
            }
            if p[pi] == '?' || p[pi] == t[ti] {
                glob_match_at(p, pi + 1, t, ti + 1)
            } else {
                false
            }
        }
    }
}

/// Whether the glob pattern matches the whole text.
pub fn wildcard_match(pattern: &str, text: &str) -> (r: bool)
    ensures
        r == glob_match(pattern@, text@),
{
    let p = chars_of(pattern);
    let t = chars_of(text);
    proof {
        assert(p@.skip(0) =~= pattern@);
        assert(t@.skip(0) =~= text@);
    }
    glob_match_at(&p, 0, &t, 0)
}

/// Whether the pattern holds a wildcard character.
pub open spec fn has_wildcard(p: Seq<char>) -> bool {
    exists|i: int| 0 <= i < p.len() && (p[i] == '*' || p[i] == '?')
}

fn has_wildcard_exec(p: &str) -> (r: bool)
    ensures
        r == has_wildcard(p@),
{
    let len = p.unicode_len();
    let mut i: usize = 0;
    while i < len
        invariant
            len == p@.len(),
            i <= len,
            forall|k: int| 0 <= k < i ==> p@[k] != '*' && p@[k] != '?',
        decreases len - i,
    {
        let c = p.get_char(i);
        if c == '*' || c == '?' {
            return true;
        }
        i = i + 1;
    }
    false
}

/// How one textual field is matched against an optional pattern: no pattern
/// accepts everything; a pattern with wildcards must match the whole field;
/// a plain pattern matches anywhere inside the field.
pub open spec fn field_matches(s: Seq<char>, pattern: Option<Seq<char>>) -> bool {
    match pattern {
        Option::None => true,
        Option::Some(p) => if has_wildcard(p) {
            glob_match(p, s)
        } else {
            contains_seq(s, p)
        },
    }
}

/// The view of an optional string.
pub open spec fn opt_view(o: Option<String>) -> Option<Seq<char>> {
    match o {
        Option::Some(s) => Option::Some(s@),
        Option::None => Option::None,
    }
}

/// Matches one field against an optional pattern, as `field_matches`
/// describes.
pub fn pattern_matches(s: &str, pattern: &Option<String>) -> (r: bool)
    ensures
        r == field_matches(s@, opt_view(*pattern)),
{
    match pattern {
        Option::Some(p) => {
            if has_wildcard_exec(p.as_str()) {
                wildcard_match(p.as_str(), s)
            } else {
                str_contains(s, p.as_str())
            }
        },
        Option::None => true,
    }
}

/// How an optional field is matched: a missing field matches exactly when
/// no pattern was given.
pub open spec fn opt_field_matches(s: Option<Seq<char>>, pattern: Option<Seq<char>>) -> bool {
    match s {
        Option::Some(t) => field_matches(t, pattern),
        Option::None => pattern is None,
    }
}

/// Matches an optional field, as `opt_field_matches` describes.
pub fn pattern_matches_opt(s: &Option<String>, pattern: &Option<String>) -> (r: bool)
    ensures
        r == opt_field_matches(opt_view(*s), opt_view(*pattern)),
{
    match s {
        Option::Some(t) => pattern_matches(t.as_str(), pattern),
        Option::None => pattern.is_none(),
    }
}

// ---------------------------------------------------------------------------
// Hexadecimal identifiers
// ---------------------------------------------------------------------------

/// The character for one hexadecimal digit, lower case.
pub open spec fn hex_digit(d: int) -> char {
    if d == 0 {
        '0'
    } else if d == 1 {
        '1'
    } else if d == 2 {
        '2'
    } else if d == 3 {
        '3'
    } else if d == 4 {
        '4'
    } else if d == 5 {
        '5'
    } else if d == 6 {
        '6'
    } else if d == 7 {
        '7'
    } else if d == 8 {
        '8'
    } else if d == 9 {
        '9'
    } else if d == 10 {
        'a'
    } else if d == 11 {
        'b'
    } else if d == 12 {
        'c'
    } else if d == 13 {
        'd'
    } else if d == 14 {
        'e'
    } else {
        'f'
    }
}

/// A USB identifier as four lower-case hexadecimal digits.
pub open spec fn hex4(v: int) -> Seq<char> {
    seq![
        hex_digit(v / 4096 % 16),
        hex_digit(v / 256 % 16),
        hex_digit(v / 16 % 16),
        hex_digit(v % 16),
    ]
}

fn hex_digit_char(d: u16) -> (c: char)
    requires
        d < 16,
    ensures
        c == hex_digit(d as int),
{
    match d {
        0 => '0',
        1 => '1',
        2 => '2',
        3 => '3',
        4 => '4',
        5 => '5',
        6 => '6',
        7 => '7',
        8 => '8',
        9 => '9',
        10 => 'a',
        11 => 'b',
        12 => 'c',
        13 => 'd',
        14 => 'e',
        _ => 'f',
    }
}

/// Formats a USB identifier as four lower-case hexadecimal digits.
pub fn hex4_string(v: u16) -> (r: String)
    ensures
        r@ == hex4(v as int),
{
    let mut r = String::new();
    push_char(&mut r, hex_digit_char(v / 4096 % 16));
    push_char(&mut r, hex_digit_char(v / 256 % 16));
    push_char(&mut r, hex_digit_char(v / 16 % 16));
    push_char(&mut r, hex_digit_char(v % 16));
    proof {
        assert(r@ =~= hex4(v as int));
    }
    r
}

// ---------------------------------------------------------------------------
// Ports and selection
// ---------------------------------------------------------------------------

/// What the autodetection reads of a USB serial port.
pub struct UsbInfo {
    pub vid: u16,
    pub pid: u16,
    pub manufacturer: Option<String>,
    pub serial_number: Option<String>,
    pub product: Option<String>,
}

/// The kind of a serial port: a USB device, or anything else.
pub enum PortKind {
    Usb(UsbInfo),
    Other,
}

/// One enumerated serial port.
pub struct PortInfo {
    pub port_name: String,
    pub port_type: PortKind,
}

/// The filters and options of the port-listing and autodetection commands.
pub struct PortsCmd {
    pub port: Option<String>,
    pub vid: Option<String>,
    pub pid: Option<String>,
    pub manufacturer: Option<String>,
    pub serial: Option<String>,
    pub product: Option<String>,
    pub index: Option<usize>,
    pub debug: bool,
    pub preferred_vids: Option<String>,
    pub native_serial_port: bool,
}

impl PortsCmd {
    /// A command that filters on nothing but (optionally) a vendor id.
    pub fn new_with_vid(vid: Option<String>) -> (r: PortsCmd)
        ensures
            r.port is None,
            r.vid == vid,
            r.pid is None,
            r.manufacturer is None,
            r.serial is None,
            r.product is None,
            r.index is None,
            !r.debug,
            r.preferred_vids is None,
            !r.native_serial_port,
    {
        PortsCmd {
            port: None,
            vid,
            pid: None,
            manufacturer: None,
            serial: None,
            product: None,
            index: None,
            debug: false,
            preferred_vids: None,
            native_serial_port: false,
        }
    }
}

/// Whether a port passes all the filters: only USB ports qualify, and the
/// name, vendor id, product id, manufacturer, serial number and product
/// name must each match their pattern.
pub open spec fn usb_port_matches_spec(port: PortInfo, cmd: PortsCmd) -> bool {
    match port.port_type {
        PortKind::Usb(info) => {
            &&& field_matches(port.port_name@, opt_view(cmd.port))
            &&& field_matches(hex4(info.vid as int), opt_view(cmd.vid))
            &&& field_matches(hex4(info.pid as int), opt_view(cmd.pid))
            &&& opt_field_matches(opt_view(info.manufacturer), opt_view(cmd.manufacturer))
            &&& opt_field_matches(opt_view(info.serial_number), opt_view(cmd.serial))
            &&& opt_field_matches(opt_view(info.product), opt_view(cmd.product))
        },
        PortKind::Other => false,
    }
}

/// Whether a port passes all the filters, as `usb_port_matches_spec`
/// describes.
pub fn usb_port_matches(port: &PortInfo, cmd: &PortsCmd) -> (r: bool)
    ensures
        r == usb_port_matches_spec(*port, *cmd),
{
    match &port.port_type {
        PortKind::Usb(info) => {
            let vid_text = hex4_string(info.vid);
            let pid_text = hex4_string(info.pid);
            pattern_matches(port.port_name.as_str(), &cmd.port) && pattern_matches(
                vid_text.as_str(),
                &cmd.vid,
            ) && pattern_matches(pid_text.as_str(), &cmd.pid) && pattern_matches_opt(
                &info.manufacturer,
                &cmd.manufacturer,
            ) && pattern_matches_opt(&info.serial_number, &cmd.serial) && pattern_matches_opt(
                &info.product,
                &cmd.product,
            )
        },
        PortKind::Other => false,
    }
}

/// The vendor ids preferred by default when ordering candidate ports:
/// Espressif, Seeed, FTDI, Silicon Labs, Arduino, Adafruit.
pub fn default_preferred_vids() -> (r: Vec<String>)
    ensures
        r.deep_view() == seq!["303a"@, "2886"@, "0403"@, "10C4"@, "2341"@, "239a"@],
{
    let mut r: Vec<String> = Vec::new();
    r.push("303a".to_owned());
    r.push("2886".to_owned());
    r.push("0403".to_owned());
    r.push("10C4".to_owned());
    r.push("2341".to_owned());
    r.push("239a".to_owned());
    proof {
        assert(r.deep_view() =~= seq!["303a"@, "2886"@, "0403"@, "10C4"@, "2341"@, "239a"@]);
    }
    r
}

/// The preferred vendor ids in force: the comma-separated list given on the
/// command line, or the default list.
pub open spec fn effective_vids(cmd: PortsCmd) -> Seq<Seq<char>> {
    match cmd.preferred_vids {
        Option::Some(s) => crate::text::split_char(s@, ','),
        Option::None => seq!["303a"@, "2886"@, "0403"@, "10C4"@, "2341"@, "239a"@],
    }
}

/// Whether a port carries one of the preferred vendor ids.
pub open spec fn is_preferred(port: PortInfo, vids: Seq<Seq<char>>) -> bool {
    match port.port_type {
        PortKind::Usb(info) => vids.contains(hex4(info.vid as int)),
        PortKind::Other => false,
    }
}

/// The ports of `s` whose preference equals `want`, in their original order.
pub open spec fn ports_with_preference(s: Seq<PortInfo>, vids: Seq<Seq<char>>, want: bool) -> Seq<
    PortInfo,
>
    decreases s.len(),
{
    if s.len() == 0 {
        Seq::empty()
    } else {
        let rest = ports_with_preference(s.drop_last(), vids, want);
        if is_preferred(s.last(), vids) == want {
            rest.push(s.last())
        } else {
            rest
        }
    }
}

fn is_preferred_exec(port: &PortInfo, vids: &Vec<String>) -> (r: bool)
    ensures
        r == is_preferred(*port, vids.deep_view()),
{
    match &port.port_type {
        PortKind::Usb(info) => {
            let text = hex4_string(info.vid);
            let mut i: usize = 0;
            while i < vids.len()
                invariant
                    i <= vids.len(),
                    text@ == hex4(info.vid as int),
                    is_preferred(*port, vids.deep_view()) == vids.deep_view().contains(text@),
                    vids.deep_view().len() == vids.len(),
                    forall|j: int| 0 <= j < i ==> vids.deep_view()[j] != text@,
                decreases vids.len() - i,
            {
                if crate::text::str_eq(vids[i].as_str(), text.as_str()) {
                    proof {
                        assert(vids.deep_view()[i as int] == text@);
                    }
                    return true;
                }
                i = i + 1;
            }
            proof {
                if vids.deep_view().contains(text@) {
                    let j = choose|j: int|
                        0 <= j < vids.deep_view().len() && vids.deep_view()[j] == text@;
                    assert(false);
                }
            }
            false
        },
        PortKind::Other => false,
    }
}

/// Orders candidate ports so that every port with a preferred vendor id
/// comes before every other port, each group keeping its original order.
pub fn sort_ports(ports: Vec<PortInfo>, cmd: &PortsCmd) -> (r: Vec<PortInfo>)
    ensures
        r@ == ports_with_preference(ports@, effective_vids(*cmd), true) + ports_with_preference(
            ports@,
            effective_vids(*cmd),
            false,
        ),
{
    let vids: Vec<String> = match &cmd.preferred_vids {
        Option::Some(s) => crate::text::split_str(s.as_str(), ','),
        Option::None => default_preferred_vids(),
    };
    proof {
        assert(vids.deep_view() == effective_vids(*cmd));
    }
    let mut preferred: Vec<PortInfo> = Vec::new();
    let mut others: Vec<PortInfo> = Vec::new();
    let mut rest = ports;
    proof {
        assert(rest@.subrange(0, 0) =~= Seq::<PortInfo>::empty());
        assert(ports_with_preference(rest@.subrange(0, 0), vids.deep_view(), true)
            =~= Seq::<PortInfo>::empty());
        assert(ports_with_preference(rest@.subrange(0, 0), vids.deep_view(), false)
            =~= Seq::<PortInfo>::empty());
    }
    let mut i: usize = 0;
    while i < rest.len()
        invariant
            i <= rest.len(),
            rest@ == ports@,
            preferred@ == ports_with_preference(rest@.subrange(0, i as int), vids.deep_view(), true),
            others@ == ports_with_preference(rest@.subrange(0, i as int), vids.deep_view(), false),
            vids.deep_view() == effective_vids(*cmd),
        decreases rest.len() - i,
    {
        let ghost prefix = rest@.subrange(0, i as int);
        proof {
            assert(rest@.subrange(0, i + 1).drop_last() =~= prefix);
            assert(rest@.subrange(0, i + 1).last() == rest@[i as int]);
        }
        let p = clone_port(&rest[i]);
        if is_preferred_exec(&p, &vids) {
            preferred.push(p);
        } else {
            others.push(p);
        }
        i = i + 1;
    }
    proof {
        assert(rest@.subrange(0, rest@.len() as int) =~= rest@);
    }
    let mut out = preferred;
    let mut tail = others;
    out.append(&mut tail);
    out
}

/// Strict lexicographic order on character sequences, by code point.
pub open spec fn lex_lt(a: Seq<char>, b: Seq<char>) -> bool
    decreases a.len(),
{
    if b.len() == 0 {
        false
    } else if a.len() == 0 {
        true
    } else if (a[0] as u32) < (b[0] as u32) {
        true
    } else if (a[0] as u32) > (b[0] as u32) {
        false
    } else {
        lex_lt(a.drop_first(), b.drop_first())
    }
}

/// Whether `a` comes strictly before `b` in lexicographic order.
fn lex_lt_exec(a: &str, b: &str) -> (r: bool)
    ensures
        r == lex_lt(a@, b@),
{
    let av = chars_of(a);
    let bv = chars_of(b);
    proof {
        assert(av@.skip(0) =~= a@);
        assert(bv@.skip(0) =~= b@);
    }
    lex_lt_at(&av, &bv, 0)
}

fn lex_lt_at(a: &Vec<char>, b: &Vec<char>, i: usize) -> (r: bool)
    requires
        i <= a.len(),
        i <= b.len(),
    ensures
        r == lex_lt(a@.skip(i as int), b@.skip(i as int)),
    decreases a.len() - i,
{
    let ghost av = a@.skip(i as int);
    let ghost bv = b@.skip(i as int);
    if i == b.len() {
        false
    } else if i == a.len() {
        true
    } else {
        proof {
            assert(av[0] == a@[i as int]);
            assert(bv[0] == b@[i as int]);
            assert(av.drop_first() =~= a@.skip(i + 1));
            assert(bv.drop_first() =~= b@.skip(i + 1));
        }
        let ca = a[i] as u32;
        let cb = b[i] as u32;
        if ca < cb {
            true
        } else if ca > cb {
            false
        } else {
            lex_lt_at(a, b, i + 1)
        }
    }
}

/// Where a port lands when inserted into an already ordered run: before the
/// first port whose name comes strictly after its own, so that ports with
/// equal names keep their original order.
pub open spec fn insert_by_name(x: PortInfo, s: Seq<PortInfo>) -> Seq<PortInfo>
    decreases s.len(),
{
    if s.len() == 0 {
        seq![x]
    } else if lex_lt(x.port_name@, s[0].port_name@) {
        seq![x] + s
    } else {
        seq![s[0]] + insert_by_name(x, s.drop_first())
    }
}

/// The ports ordered by name, stably.
pub open spec fn sort_by_name(s: Seq<PortInfo>) -> Seq<PortInfo>
    decreases s.len(),
{
    if s.len() == 0 {
        Seq::empty()
    } else {
        insert_by_name(s.last(), sort_by_name(s.drop_last()))
    }
}

/// Inserting before position `i` is what `insert_by_name` does when the
/// ports before `i` do not come after `x` and the one at `i` (if any) does.
proof fn lemma_insert_at(x: PortInfo, s: Seq<PortInfo>, i: int)
    requires
        0 <= i <= s.len(),
        forall|j: int| 0 <= j < i ==> !lex_lt(x.port_name@, s[j].port_name@),
        i < s.len() ==> lex_lt(x.port_name@, s[i].port_name@),
    ensures
        insert_by_name(x, s) == s.subrange(0, i) + seq![x] + s.subrange(i, s.len() as int),
    decreases i,
{
    if i == 0 {
        if s.len() == 0 {
            assert(insert_by_name(x, s) =~= s.subrange(0, 0) + seq![x] + s.subrange(
                0,
                s.len() as int,
            ));
        } else {
            assert(lex_lt(x.port_name@, s[0].port_name@));
            assert(insert_by_name(x, s) == seq![x] + s);
            assert(seq![x] + s =~= s.subrange(0, 0) + seq![x] + s.subrange(0, s.len() as int));
        }
    } else {
        let d = s.drop_first();
        assert forall|j: int| 0 <= j < i - 1 implies !lex_lt(x.port_name@, d[j].port_name@) by {
            assert(d[j] == s[j + 1]);
        }
        if i - 1 < d.len() {
            assert(d[i - 1] == s[i]);
        }
        lemma_insert_at(x, d, i - 1);
        assert(!lex_lt(x.port_name@, s[0].port_name@));
        assert(insert_by_name(x, s) == seq![s[0]] + insert_by_name(x, d));
        assert(seq![s[0]] + (d.subrange(0, i - 1) + seq![x] + d.subrange(i - 1, d.len() as int))
            =~= s.subrange(0, i) + seq![x] + s.subrange(i, s.len() as int));
    }
}

/// Inserts a port into an ordered run, keeping it ordered and stable.
fn insert_sorted(out: &mut Vec<PortInfo>, x: PortInfo)
    ensures
        final(out)@ == insert_by_name(x, old(out)@),
{
    let mut i: usize = 0;
    while i < out.len()
        invariant
            i <= out.len(),
            out@ == old(out)@,
            forall|j: int| 0 <= j < i ==> !lex_lt(x.port_name@, out@[j].port_name@),
        decreases out.len() - i,
    {
        if lex_lt_exec(x.port_name.as_str(), out[i].port_name.as_str()) {
            proof {
                lemma_insert_at(x, out@, i as int);
            }
            out.insert(i, x);
            proof {
                assert(out@ =~= old(out)@.subrange(0, i as int) + seq![x] + old(out)@.subrange(
                    i as int,
                    old(out)@.len() as int,
                ));
            }
            return;
        }
        i = i + 1;
    }
    proof {
        lemma_insert_at(x, out@, out@.len() as int);
    }
    out.push(x);
    proof {
        assert(old(out)@.subrange(0, old(out)@.len() as int) =~= old(out)@);
        assert(old(out)@.subrange(old(out)@.len() as int, old(out)@.len() as int) =~= Seq::<
            PortInfo,
        >::empty());
        assert(out@ =~= old(out)@ + seq![x] + Seq::<PortInfo>::empty());
    }
}

/// Orders the ports by name, stably.
pub fn sort_ports_by_name(ports: Vec<PortInfo>) -> (r: Vec<PortInfo>)
    ensures
        r@ == sort_by_name(ports@),
{
    let mut out: Vec<PortInfo> = Vec::new();
    let mut i: usize = 0;
    proof {
        assert(ports@.subrange(0, 0) =~= Seq::<PortInfo>::empty());
    }
    while i < ports.len()
        invariant
            i <= ports.len(),
            out@ == sort_by_name(ports@.subrange(0, i as int)),
        decreases ports.len() - i,
    {
        proof {
            assert(ports@.subrange(0, i + 1).drop_last() =~= ports@.subrange(0, i as int));
            assert(ports@.subrange(0, i + 1).last() == ports@[i as int]);
        }
        let x = clone_port(&ports[i]);
        insert_sorted(&mut out, x);
        i = i + 1;
    }
    proof {
        assert(ports@.subrange(0, ports@.len() as int) =~= ports@);
    }
    out
}

/// The ports of `s` that pass the filters, in their original order.
pub open spec fn matching_ports(s: Seq<PortInfo>, cmd: PortsCmd) -> Seq<PortInfo>
    decreases s.len(),
{
    if s.len() == 0 {
        Seq::empty()
    } else {
        let rest = matching_ports(s.drop_last(), cmd);
        if usb_port_matches_spec(s.last(), cmd) {
            rest.push(s.last())
        } else {
            rest
        }
    }
}

/// The whole selection pipeline: filter, order by name, then move ports
/// with preferred vendor ids to the front; if an index was given, keep just
/// the port at that index (or nothing).
pub open spec fn filtered_ports_spec(s: Seq<PortInfo>, cmd: PortsCmd) -> Seq<PortInfo> {
    let m = matching_ports(s, cmd);
    let named = sort_by_name(m);
    let arranged = ports_with_preference(named, effective_vids(cmd), true)
        + ports_with_preference(named, effective_vids(cmd), false);
    match cmd.index {
        Option::Some(i) => if i < arranged.len() {
            seq![arranged[i as int]]
        } else {
            Seq::empty()
        },
        Option::None => arranged,
    }
}

/// Filters, orders and indexes the enumerated ports, as
/// `filtered_ports_spec` describes.
pub fn filtered_ports(ports: Vec<PortInfo>, cmd: &PortsCmd) -> (r: Vec<PortInfo>)
    ensures
        r@ == filtered_ports_spec(ports@, *cmd),
{
    let mut kept: Vec<PortInfo> = Vec::new();
    let mut i: usize = 0;
    proof {
        assert(ports@.subrange(0, 0) =~= Seq::<PortInfo>::empty());
        assert(matching_ports(ports@.subrange(0, 0), *cmd) =~= Seq::<PortInfo>::empty());
    }
    while i < ports.len()
        invariant
            i <= ports.len(),
            kept@ == matching_ports(ports@.subrange(0, i as int), *cmd),
        decreases ports.len() - i,
    {
        proof {
            assert(ports@.subrange(0, i + 1).drop_last() =~= ports@.subrange(0, i as int));
            assert(ports@.subrange(0, i + 1).last() == ports@[i as int]);
        }
        if usb_port_matches(&ports[i], cmd) {
            kept.push(clone_port(&ports[i]));
        }
        i = i + 1;
    }
    proof {
        assert(ports@.subrange(0, ports@.len() as int) =~= ports@);
    }
    let named = sort_ports_by_name(kept);
    let mut arranged = sort_ports(named, cmd);
    match &cmd.index {
        Option::Some(idx) => {
            if *idx < arranged.len() {
                let chosen = arranged.remove(*idx);
                let mut one: Vec<PortInfo> = Vec::new();
                one.push(chosen);
                proof {
                    assert(one@ =~= filtered_ports_spec(ports@, *cmd));
                }
                one
            } else {
                Vec::new()
            }
        },
        Option::None => arranged,
    }
}

/// Picks the most likely port among those enumerated: the first after
/// filtering and ordering, or nothing.
pub fn select_most_likely_port(ports: Vec<PortInfo>, cmd: &PortsCmd) -> (r: Option<PortInfo>)
    ensures
        match r {
            Some(p) => filtered_ports_spec(ports@, *cmd).len() > 0 && p == filtered_ports_spec(
                ports@,
                *cmd,
            )[0],
            None => filtered_ports_spec(ports@, *cmd).len() == 0,
        },
{
    let mut f = filtered_ports(ports, cmd);
    if f.len() > 0 {
        Some(f.remove(0))
    } else {
        None
    }
}

/// A field shown after its label, closed by a quote, or nothing.
pub open spec fn labeled_field(label: Seq<char>, v: Option<Seq<char>>) -> Seq<char> {
    match v {
        Option::Some(x) => label + x + seq!['\''],
        Option::None => Seq::empty(),
    }
}

/// What the port listing shows of a USB port: `vid:pid` in hexadecimal,
/// then whichever of the manufacturer, serial number and product name are
/// known, each quoted after its label.
pub open spec fn extra_usb_info_spec(info: UsbInfo) -> Seq<char> {
    hex4(info.vid as int) + seq![':'] + hex4(info.pid as int) + labeled_field(
        " manufacturer '"@,
        opt_view(info.manufacturer),
    ) + labeled_field(" serial '"@, opt_view(info.serial_number)) + labeled_field(
        " product '"@,
        opt_view(info.product),
    )
}

/// Formats what the port listing shows of a USB port, as
/// `extra_usb_info_spec` describes.
pub fn extra_usb_info(info: &UsbInfo) -> (r: String)
    ensures
        r@ == extra_usb_info_spec(*info),
{
    let mut r = hex4_string(info.vid);
    push_char(&mut r, ':');
    let pid_text = hex4_string(info.pid);
    r.append(pid_text.as_str());
    if let Option::Some(m) = &info.manufacturer {
        r.append(" manufacturer '");
        r.append(m.as_str());
        push_char(&mut r, '\'');
    }
    if let Option::Some(s) = &info.serial_number {
        r.append(" serial '");
        r.append(s.as_str());
        push_char(&mut r, '\'');
    }
    if let Option::Some(p) = &info.product {
        r.append(" product '");
        r.append(p.as_str());
        push_char(&mut r, '\'');
    }
    proof {
        assert(r@ =~= extra_usb_info_spec(*info));
    }
    r
}

// ---------------------------------------------------------------------------
// Ports listed by a companion process
// ---------------------------------------------------------------------------

/// Whether a listing line names a port: it holds at least two words, the
/// first being the port's name.
pub open spec fn remote_line_names_port(line: Seq<char>) -> bool {
    crate::text::ws_tokens(line).len() >= 2
}

/// The result of reading the companion's port listing.
pub enum RemoteSelection {
    /// The companion reported that no ports exist.
    NoPorts,
    /// The first port of the listing.
    Found(PortInfo),
    /// The listing was unusable: fall back to local enumeration.
    TryLocal,
}

/// Reads the port listing printed by the companion process: a reported
/// "No ports" means none exist; otherwise the first line with at least two
/// words names the chosen port; a listing without such a line falls back
/// to local enumeration.
pub fn select_remote_port(output: &str) -> (r: RemoteSelection)
    ensures
        contains_seq(output@, "No ports"@) <==> r is NoPorts,
        match r {
            RemoteSelection::Found(p) => {
                &&& exists|i: int|
                    0 <= i < crate::text::split_char(output@, '\n').len()
                        && remote_line_names_port(crate::text::split_char(output@, '\n')[i])
                        && p.port_name@ == crate::text::ws_tokens(
                        crate::text::split_char(output@, '\n')[i],
                    )[0] && (forall|j: int|
                        0 <= j < i ==> !remote_line_names_port(
                            crate::text::split_char(output@, '\n')[j],
                        ))
                &&& p.port_type matches PortKind::Usb(info) && info.vid == 0x0403 && info.pid == 0
            },
            RemoteSelection::TryLocal => forall|j: int|
                0 <= j < crate::text::split_char(output@, '\n').len()
                    ==> !remote_line_names_port(crate::text::split_char(output@, '\n')[j]),
            RemoteSelection::NoPorts => true,
        },
{
    if str_contains(output, "No ports") {
        return RemoteSelection::NoPorts;
    }
    let lines = crate::text::split_str(output, '\n');
    let ghost lv = crate::text::split_char(output@, '\n');
    let mut i: usize = 0;
    while i < lines.len()
        invariant
            !contains_seq(output@, "No ports"@),
            lv == crate::text::split_char(output@, '\n'),
            lines.deep_view() == lv,
            lines.deep_view().len() == lines.len(),
            i <= lines.len(),
            forall|j: int| 0 <= j < i ==> !remote_line_names_port(lv[j]),
        decreases lines.len() - i,
    {
        let words = crate::text::ws_tokens_exec(lines[i].as_str());
        proof {
            assert(lines.deep_view()[i as int] == lines@[i as int]@);
        }
        if words.len() >= 2 {
            let name = words[0].clone();
            proof {
                assert(words.deep_view()[0] == name@);
                assert(remote_line_names_port(lv[i as int]));
                assert(name@ == crate::text::ws_tokens(lv[i as int])[0]);
            }
            return RemoteSelection::Found(PortInfo {
                port_name: name,
                port_type: PortKind::Usb(UsbInfo {
                    vid: 0x0403,
                    pid: 0x0000,
                    manufacturer: Some("FTDI".to_owned()),
                    serial_number: None,
                    product: None,
                }),
            });
        }
        i = i + 1;
    }
    RemoteSelection::TryLocal
}

/// A copy of one port record.
fn clone_port(p: &PortInfo) -> (r: PortInfo)
    ensures
        r == *p,
{
    PortInfo {
        port_name: p.port_name.clone(),
        port_type: match &p.port_type {
            PortKind::Usb(info) => PortKind::Usb(UsbInfo {
                vid: info.vid,
                pid: info.pid,
                manufacturer: clone_opt(&info.manufacturer),
                serial_number: clone_opt(&info.serial_number),
                product: clone_opt(&info.product),
            }),
            PortKind::Other => PortKind::Other,
        },
    }
}

/// A copy of an optional string.
fn clone_opt(o: &Option<String>) -> (r: Option<String>)
    ensures
        r == *o,
{
    match o {
        Option::Some(s) => Option::Some(s.clone()),
        Option::None => Option::None,
    }
}

} // verus!
