//! The TCP fingerprint that outbound probes imitate, read from a p0f-style
//! signature.
use vstd::prelude::*;
use crate::text::{chars_of, has_prefix, starts_with};

verus! {

/// One TCP option of an outbound packet.
#[derive(Clone, Copy, Debug, PartialEq, Eq, Structural)]
pub enum TcpOptionKind {
    Nop,
    Mss(u16),
    WindowScale(u8),
    SackPermitted,
    Timestamp { value: u32, echo_reply: u32 },
}

/// What every outbound packet carries.
pub struct TcpFingerprint {
    pub initial_ttl: u8,
    pub window_size: u16,
    pub options: Vec<TcpOptionKind>,
}

/// Why a signature cannot be used.
#[derive(Clone, Copy, Debug, PartialEq, Eq, Structural)]
pub enum SignatureError {
    /// Not eight colon-separated fields.
    FieldCount,
    /// The IP version is neither 4 nor a wildcard.
    NotIpv4,
    /// The TTL is not an integer from 0 to 255.
    BadTtl,
    /// The MSS is neither a wildcard nor an integer from 0 to 65535.
    BadMss,
    /// The window is given as a multiple of the MTU.
    MtuWindow,
    /// The window is not `mss*N,scale`, `size,scale` or a wildcard, or does
    /// not fit in 16 bits.
    BadWindow,
}

/// `s` cut at every `sep`, as str::split does.
pub open spec fn pieces(s: Seq<char>, sep: char) -> Seq<Seq<char>>
    decreases s.len(),
{
    if s.len() == 0 {
        seq![Seq::empty()]
    } else {
        let r = pieces(s.drop_last(), sep);
        if s.last() == sep {
            r.push(Seq::empty())
        } else {
            r.update(r.len() - 1, r.last().push(s.last()))
        }
    }
}

pub open spec fn digit_value(c: char) -> nat {
    (c as u32 - '0' as u32) as nat
}

pub open spec fn all_digits(s: Seq<char>) -> bool {
    forall|i: int| 0 <= i < s.len() ==> '0' <= #[trigger] s[i] && s[i] <= '9'
}

pub open spec fn digits_value(s: Seq<char>) -> nat
    decreases s.len(),
{
    if s.len() == 0 { 0 } else { digits_value(s.drop_last()) * 10 + digit_value(s.last()) }
}

/// The value of a decimal numeral with an optional leading `+`.
pub open spec fn decimal(s: Seq<char>) -> Option<nat> {
    let d = if s.len() > 0 && s[0] == '+' { s.drop_first() } else { s };
    if d.len() > 0 && all_digits(d) { Some(digits_value(d)) } else { None }
}

/// The value of a decimal numeral with an optional leading `+`, where it is
/// at most `max`, as `str::parse` gives it for unsigned integers.
fn parse_decimal(s: &Vec<char>, max: u64) -> (r: Option<u64>)
    requires
        max <= 65535,
    ensures
        r == (match decimal(s@) {
            Some(n) => if n <= max { Some(n as u64) } else { None },
            None => None,
        }),
{
    let start: usize = if s.len() > 0 && s[0] == '+' { 1 } else { 0 };
    let ghost d = if s@.len() > 0 && s@[0] == '+' { s@.drop_first() } else { s@ };
    assert(d =~= s@.subrange(start as int, s@.len() as int));
    if start == s.len() {
        return None;
    }
    let mut acc: u64 = 0;
    let mut over = false;
    let mut i: usize = start;
    assert(d.subrange(0, 0) =~= Seq::<char>::empty());
    while i < s.len()
        invariant
            start <= i <= s.len(),
            d == s@.subrange(start as int, s@.len() as int),
            d == (if s@.len() > 0 && s@[0] == '+' { s@.drop_first() } else { s@ }),
            d.len() > 0,
            max <= 65535,
            all_digits(d.subrange(0, i - start)),
            !over ==> acc as nat == digits_value(d.subrange(0, i - start)) && acc <= max,
            over ==> digits_value(d.subrange(0, i - start)) > max,
        decreases s.len() - i,
    {
        let c = s[i];
        if !('0' <= c && c <= '9') {
            assert(d[i - start] == c);
            assert(!all_digits(d));
            assert(decimal(s@) is None);
            return None;
        }
        let ghost pre = d.subrange(0, i - start + 1);
        assert(pre.drop_last() =~= d.subrange(0, i - start));
        assert(pre.last() == c);
        let digit: u64 = (c as u32 - '0' as u32) as u64;
        if !over {
            let next = acc * 10 + digit;
            if next > max {
                over = true;
            } else {
                acc = next;
            }
        }
        i += 1;
        assert(all_digits(d.subrange(0, i - start)));
    }
    assert(d.subrange(0, s.len() - start) =~= d);
    if over { None } else { Some(acc) }
}

pub open spec fn as_u8(s: Seq<char>) -> Option<u8> {
    match decimal(s) {
        Some(n) => if n <= 255 { Some(n as u8) } else { None },
        None => None,
    }
}

pub open spec fn as_u16(s: Seq<char>) -> Option<u16> {
    match decimal(s) {
        Some(n) => if n <= 65535 { Some(n as u16) } else { None },
        None => None,
    }
}

/// A window given as `size,scale` (or `N,scale` after `mss*`).
pub open spec fn window_pair(s: Seq<char>) -> Option<(u16, u8)> {
    let p = pieces(s, ',');
    if p.len() < 2 {
        None
    } else {
        match (as_u16(p[0]), as_u8(p[1])) {
            (Some(a), Some(b)) => Some((a, b)),
            _ => None,
        }
    }
}

/// The window size and scale of a signature's window field, given the MSS.
pub open spec fn window_of(w: Seq<char>, mss: u16) -> Result<(u16, u8), SignatureError> {
    if has_prefix(w, "mss*"@) {
        match window_pair(w.subrange(4, w.len() as int)) {
            Some((n, scale)) => if mss as nat * n as nat <= 65535 {
                Ok(((mss as nat * n as nat) as u16, scale))
            } else {
                Err(SignatureError::BadWindow)
            },
            None => Err(SignatureError::BadWindow),
        }
    } else if has_prefix(w, "mtu*"@) {
        Err(SignatureError::MtuWindow)
    } else if w == "*"@ {
        Ok((0, 0))
    } else {
        match window_pair(w) {
            Some(p) => Ok(p),
            None => Err(SignatureError::BadWindow),
        }
    }
}

/// The options that a layout names, in order; unknown names are skipped.
pub open spec fn options_of(items: Seq<Seq<char>>, mss: u16, scale: u8) -> Seq<TcpOptionKind>
    decreases items.len(),
{
    if items.len() == 0 {
        Seq::empty()
    } else {
        let r = options_of(items.drop_last(), mss, scale);
        let it = items.last();
        if it == "nop"@ {
            r.push(TcpOptionKind::Nop)
        } else if it == "mss"@ {
            r.push(TcpOptionKind::Mss(mss))
        } else if it == "ws"@ {
            r.push(TcpOptionKind::WindowScale(scale))
        } else if it == "sok"@ {
            r.push(TcpOptionKind::SackPermitted)
        } else if it == "ts"@ {
            r.push(TcpOptionKind::Timestamp { value: 1, echo_reply: 0 })
        } else {
            r
        }
    }
}

/// The fingerprint that a signature describes, with `mss_arg` standing for
/// a wildcard MSS: (TTL, window size, options).
pub open spec fn fingerprint_of(sig: Seq<char>, mss_arg: u16) -> Result<(u8, u16, Seq<TcpOptionKind>), SignatureError> {
    let parts = pieces(sig, ':');
    if parts.len() != 8 {
        Err(SignatureError::FieldCount)
    } else if parts[0] != "4"@ && parts[0] != "*"@ {
        Err(SignatureError::NotIpv4)
    } else {
        match as_u8(parts[1]) {
            None => Err(SignatureError::BadTtl),
            Some(ttl) => {
                let mss: Option<u16> = if parts[3] == "*"@ { Some(mss_arg) } else { as_u16(parts[3]) };
                match mss {
                    None => Err(SignatureError::BadMss),
                    Some(m) => match window_of(parts[4], m) {
                        Err(e) => Err(e),
                        Ok((size, scale)) => Ok((ttl, size, options_of(pieces(parts[5], ','), m, scale))),
                    },
                }
            },
        }
    }
}

pub open spec fn char_views(v: Seq<Vec<char>>) -> Seq<Seq<char>> {
    v.map_values(|x: Vec<char>| x@)
}

/// `s` cut at every `sep`.
pub fn split_chars(s: &Vec<char>, sep: char) -> (r: Vec<Vec<char>>)
    ensures
        char_views(r@) == pieces(s@, sep),
{
    let mut out: Vec<Vec<char>> = Vec::new();
    let mut current: Vec<char> = Vec::new();
    let mut i: usize = 0;
    assert(s@.subrange(0, 0) =~= Seq::<char>::empty());
    assert(char_views(out@).push(current@) =~= pieces(s@.subrange(0, 0), sep));
    while i < s.len()
        invariant
            i <= s.len(),
            char_views(out@).push(current@) == pieces(s@.subrange(0, i as int), sep),
        decreases s.len() - i,
    {
        let ghost pre = s@.subrange(0, i as int + 1);
        assert(pre.drop_last() =~= s@.subrange(0, i as int));
        let ghost before_out = out@;
        let ghost before_cur = current@;
        if s[i] == sep {
            let done = current;
            out.push(done);
            current = Vec::new();
            assert(char_views(out@) =~= char_views(before_out).push(before_cur));
            assert(char_views(out@).push(current@) =~= pieces(pre, sep));
        } else {
            current.push(s[i]);
            assert(char_views(out@).push(current@) =~= pieces(pre, sep));
        }
        i += 1;
    }
    assert(s@.subrange(0, s.len() as int) =~= s@);
    let ghost before_out = out@;
    out.push(current);
    assert(char_views(out@) =~= char_views(before_out).push(current@));
    out
}

/// Whether `a` holds exactly the characters of `t`.
fn is_text(a: &Vec<char>, t: &str) -> (r: bool)
    ensures
        r == (a@ == t@),
{
    let b = chars_of(t);
    if a.len() != b.len() {
        return false;
    }
    let mut i: usize = 0;
    while i < a.len()
        invariant
            a.len() == b.len(),
            b@ == t@,
            i <= a.len(),
            forall|j: int| 0 <= j < i ==> a@[j] == b@[j],
        decreases a.len() - i,
    {
        if a[i] != b[i] {
            return false;
        }
        i += 1;
    }
    assert(a@ =~= b@);
    true
}

fn u8_of(a: &Vec<char>) -> (r: Option<u8>)
    ensures
        r == as_u8(a@),
{
    match parse_decimal(a, 255) {
        Some(n) => Some(n as u8),
        None => None,
    }
}

fn u16_of(a: &Vec<char>) -> (r: Option<u16>)
    ensures
        r == as_u16(a@),
{
    match parse_decimal(a, 65535) {
        Some(n) => Some(n as u16),
        None => None,
    }
}

fn window_pair_of(w: &Vec<char>) -> (r: Option<(u16, u8)>)
    ensures
        r == window_pair(w@),
{
    let p = split_chars(w, ',');
    if p.len() < 2 {
        return None;
    }
    match (u16_of(&p[0]), u8_of(&p[1])) {
        (Some(a), Some(b)) => Some((a, b)),
        _ => None,
    }
}

fn window_field(w: &Vec<char>, mss: u16) -> (r: Result<(u16, u8), SignatureError>)
    ensures
        r == window_of(w@, mss),
{
    if starts_with(w, &chars_of("mss*")) {
        proof {
            reveal_strlit("mss*");
        }
        let mut rest: Vec<char> = Vec::new();
        let mut i: usize = 4;
        while i < w.len()
            invariant
                4 <= w.len(),
                4 <= i <= w.len(),
                rest@ == w@.subrange(4, i as int),
            decreases w.len() - i,
        {
            rest.push(w[i]);
            i += 1;
            assert(rest@ =~= w@.subrange(4, i as int));
        }
        match window_pair_of(&rest) {
            Some((n, scale)) => {
                assert((mss as u64) * (n as u64) <= 65535 * 65535) by (nonlinear_arith)
                    requires
                        mss <= 65535,
                        n <= 65535,
                ;
                let product: u64 = (mss as u64) * (n as u64);
                if product <= 65535 {
                    Ok((product as u16, scale))
                } else {
                    Err(SignatureError::BadWindow)
                }
            },
            None => Err(SignatureError::BadWindow),
        }
    } else if starts_with(w, &chars_of("mtu*")) {
        Err(SignatureError::MtuWindow)
    } else if is_text(w, "*") {
        Ok((0, 0))
    } else {
        match window_pair_of(w) {
            Some(p) => Ok(p),
            None => Err(SignatureError::BadWindow),
        }
    }
}

fn options_from(items: &Vec<Vec<char>>, mss: u16, scale: u8) -> (r: Vec<TcpOptionKind>)
    ensures
        r@ == options_of(char_views(items@), mss, scale),
{
    let ghost iv = char_views(items@);
    let mut out: Vec<TcpOptionKind> = Vec::new();
    let mut i: usize = 0;
    assert(iv.subrange(0, 0) =~= Seq::<Seq<char>>::empty());
    while i < items.len()
        invariant
            i <= items.len(),
            iv == char_views(items@),
            out@ == options_of(iv.subrange(0, i as int), mss, scale),
        decreases items.len() - i,
    {
        let ghost pre = iv.subrange(0, i as int + 1);
        assert(pre.drop_last() =~= iv.subrange(0, i as int));
        let it = &items[i];
        if is_text(it, "nop") {
            out.push(TcpOptionKind::Nop);
        } else if is_text(it, "mss") {
            out.push(TcpOptionKind::Mss(mss));
        } else if is_text(it, "ws") {
            out.push(TcpOptionKind::WindowScale(scale));
        } else if is_text(it, "sok") {
            out.push(TcpOptionKind::SackPermitted);
        } else if is_text(it, "ts") {
            out.push(TcpOptionKind::Timestamp { value: 1, echo_reply: 0 });
        }
        i += 1;
    }
    assert(iv.subrange(0, items.len() as int) =~= iv);
    out
}

impl TcpFingerprint {
    /// Reads a p0f-style signature (`ver:ttl:olen:mss:wsize,scale:olayout:quirks:pclass`);
    /// `mss_arg` stands for a wildcard MSS.
    pub fn parse_signature(sig: &str, mss_arg: u16) -> (r: Result<TcpFingerprint, SignatureError>)
        ensures
            match fingerprint_of(sig@, mss_arg) {
                Err(e) => r == Err::<TcpFingerprint, SignatureError>(e),
                Ok((ttl, size, opts)) => r matches Ok(f) && f.initial_ttl == ttl && f.window_size == size
                    && f.options@ == opts,
            },
    {
        let cs = chars_of(sig);
        let parts = split_chars(&cs, ':');
        if parts.len() != 8 {
            return Err(SignatureError::FieldCount);
        }
        if !is_text(&parts[0], "4") && !is_text(&parts[0], "*") {
            return Err(SignatureError::NotIpv4);
        }
        let initial_ttl = match u8_of(&parts[1]) {
            Some(t) => t,
            None => return Err(SignatureError::BadTtl),
        };
        let mss = if is_text(&parts[3], "*") {
            mss_arg
        } else {
            match u16_of(&parts[3]) {
                Some(m) => m,
                None => return Err(SignatureError::BadMss),
            }
        };
        let (window_size, window_scaling) = match window_field(&parts[4], mss) {
            Ok(w) => w,
            Err(e) => return Err(e),
        };
        let layout = split_chars(&parts[5], ',');
        let options = options_from(&layout, mss, window_scaling);
        Ok(TcpFingerprint { initial_ttl, window_size, options })
    }

    /// The signature of Linux 3.11 and newer, with an MSS of 1500.
    pub fn linux_default() -> (r: Result<TcpFingerprint, SignatureError>)
        ensures
            match fingerprint_of("*:64:0:*:mss*20,10:mss,sok,ts,nop,ws:df,id+:0"@, 1500) {
                Err(e) => r == Err::<TcpFingerprint, SignatureError>(e),
                Ok((ttl, size, opts)) => r matches Ok(f) && f.initial_ttl == ttl && f.window_size == size
                    && f.options@ == opts,
            },
    {
        TcpFingerprint::parse_signature("*:64:0:*:mss*20,10:mss,sok,ts,nop,ws:df,id+:0", 1500)
    }
}

} // verus!
