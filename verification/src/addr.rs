use vstd::prelude::*;

use crate::errors::ResolveError;

verus! {

/// A parsed IPv4 socket endpoint: four address octets and a port.
#[derive(Debug, Clone, Copy, PartialEq, Eq, Structural)]
pub struct Endpoint {
    pub ip0: u8,
    pub ip1: u8,
    pub ip2: u8,
    pub ip3: u8,
    pub port: u16,
}

/// Whether `c` is a decimal digit.
pub open spec fn is_dec_digit(c: char) -> bool {
    '0' <= c && c <= '9'
}

/// The numeric value of a decimal digit.
pub open spec fn digit_val(c: char) -> int {
    c as int - '0' as int
}

/// Whether every character of `s` is a decimal digit.
pub open spec fn all_dec_digits(s: Seq<char>) -> bool {
    forall|i: int| 0 <= i < s.len() ==> is_dec_digit(#[trigger] s[i])
}

/// The value of `s` read as a decimal numeral (0 for the empty sequence).
pub open spec fn dec_value(s: Seq<char>) -> int
    decreases s.len(),
{
    if s.len() == 0 {
        0
    } else {
        10 * dec_value(s.drop_last()) + digit_val(s.last())
    }
}

/// Ten to the `k`th power.
pub open spec fn pow10(k: nat) -> int
    decreases k,
{
    if k == 0 {
        1
    } else {
        10 * pow10((k - 1) as nat)
    }
}

/// An address octet: one to three digits whose value fits in eight bits.
pub open spec fn valid_octet(s: Seq<char>) -> bool {
    &&& 1 <= s.len() <= 3
    &&& all_dec_digits(s)
    &&& dec_value(s) <= 255
}

/// A port numeral: one to five digits whose value fits in sixteen bits.
pub open spec fn valid_port(s: Seq<char>) -> bool {
    &&& 1 <= s.len() <= 5
    &&& all_dec_digits(s)
    &&& dec_value(s) <= 65535
}

/// Whether `p1`, `p2`, `p3` and `pc` split `s` as `a.b.c.d:port`: dots at
/// the first three positions, a colon at the last, four octets between
/// them and a port numeral after the colon.
pub open spec fn valid_split(s: Seq<char>, p1: int, p2: int, p3: int, pc: int) -> bool {
    &&& 0 <= p1 < p2 < p3 < pc < s.len()
    &&& s[p1] == '.'
    &&& s[p2] == '.'
    &&& s[p3] == '.'
    &&& s[pc] == ':'
    &&& valid_octet(s.subrange(0, p1))
    &&& valid_octet(s.subrange(p1 + 1, p2))
    &&& valid_octet(s.subrange(p2 + 1, p3))
    &&& valid_octet(s.subrange(p3 + 1, pc))
    &&& valid_port(s.subrange(pc + 1, s.len() as int))
}

/// Whether `s` is a well-formed `a.b.c.d:port` address string.
pub open spec fn valid_socket_addr(s: Seq<char>) -> bool {
    exists|p1: int, p2: int, p3: int, pc: int| valid_split(s, p1, p2, p3, pc)
}

/// The endpoint that the split at `p1`, `p2`, `p3`, `pc` denotes.
pub open spec fn split_endpoint(s: Seq<char>, p1: int, p2: int, p3: int, pc: int) -> Endpoint {
    Endpoint {
        ip0: dec_value(s.subrange(0, p1)) as u8,
        ip1: dec_value(s.subrange(p1 + 1, p2)) as u8,
        ip2: dec_value(s.subrange(p2 + 1, p3)) as u8,
        ip3: dec_value(s.subrange(p3 + 1, pc)) as u8,
        port: dec_value(s.subrange(pc + 1, s.len() as int)) as u16,
    }
}

/// The endpoint a well-formed address string denotes. The split of such a
/// string is unique (`lemma_split_unique`), so this is well defined.
pub open spec fn parsed_socket_addr(s: Seq<char>) -> Endpoint {
    let (p1, p2, p3, pc) = choose|p1: int, p2: int, p3: int, pc: int|
        valid_split(s, p1, p2, p3, pc);
    split_endpoint(s, p1, p2, p3, pc)
}

/// A separator that ends a run of digits starting at `lo` sits at one
/// position only: digits are not separators.
proof fn lemma_first_sep_unique(s: Seq<char>, lo: int, p: int, q: int, sep: char)
    requires
        !is_dec_digit(sep),
        0 <= lo,
        lo <= p < s.len(),
        s[p] == sep,
        forall|j: int| lo <= j < p ==> s[j] != sep,
        lo <= q < s.len(),
        s[q] == sep,
        all_dec_digits(s.subrange(lo, q)),
    ensures
        p == q,
{
    if p < q {
        assert(s.subrange(lo, q)[p - lo] == s[p]);
        assert(is_dec_digit(s[p]));
        assert(false);
    }
}

/// A well-formed address string splits in exactly one way: the dots and
/// the colon of a valid split are the first such separators after the
/// digit runs that precede them.
pub proof fn lemma_split_unique(
    s: Seq<char>,
    p1: int,
    p2: int,
    p3: int,
    pc: int,
    q1: int,
    q2: int,
    q3: int,
    qc: int,
)
    requires
        valid_split(s, p1, p2, p3, pc),
        valid_split(s, q1, q2, q3, qc),
    ensures
        p1 == q1,
        p2 == q2,
        p3 == q3,
        pc == qc,
{
    assert forall|j: int| 0 <= j < p1 implies s[j] != '.' by {
        assert(s.subrange(0, p1)[j] == s[j]);
    }
    lemma_first_sep_unique(s, 0, p1, q1, '.');
    assert forall|j: int| p1 + 1 <= j < p2 implies s[j] != '.' by {
        assert(s.subrange(p1 + 1, p2)[j - (p1 + 1)] == s[j]);
    }
    lemma_first_sep_unique(s, p1 + 1, p2, q2, '.');
    assert forall|j: int| p2 + 1 <= j < p3 implies s[j] != '.' by {
        assert(s.subrange(p2 + 1, p3)[j - (p2 + 1)] == s[j]);
    }
    lemma_first_sep_unique(s, p2 + 1, p3, q3, '.');
    assert forall|j: int| p3 + 1 <= j < pc implies s[j] != ':' by {
        assert(s.subrange(p3 + 1, pc)[j - (p3 + 1)] == s[j]);
    }
    lemma_first_sep_unique(s, p3 + 1, pc, qc, ':');
}

/// Finds the first occurrence of `sep` in `s` at or after `start`.
fn find_sep(s: &str, start: usize, n: usize, sep: char) -> (r: Option<usize>)
    requires
        n == s@.len(),
        start <= n,
    ensures
        r matches Some(i) ==> start <= i < n && s@[i as int] == sep && (forall|j: int|
            start <= j < i ==> s@[j] != sep),
        r is None ==> forall|j: int| start <= j < n ==> s@[j] != sep,
{
    let mut i: usize = start;
    while i < n
        invariant
            start <= i <= n,
            n == s@.len(),
            forall|j: int| start <= j < i ==> s@[j] != sep,
        decreases n - i,
    {
        if s.get_char(i) == sep {
            return Some(i);
        }
        i = i + 1;
    }
    None
}

/// Reads `s[from..to]` as a decimal numeral of one to `maxlen` digits
/// whose value is at most `maxval`.
fn parse_numeral(s: &str, from: usize, to: usize, maxlen: usize, maxval: u32) -> (r: Option<u32>)
    requires
        from <= to <= s@.len(),
        maxlen <= 5,
    ensures
        r matches Some(v) ==> {
            &&& 1 <= to - from <= maxlen
            &&& all_dec_digits(s@.subrange(from as int, to as int))
            &&& v == dec_value(s@.subrange(from as int, to as int))
            &&& v <= maxval
        },
        r is None ==> !(1 <= to - from <= maxlen && all_dec_digits(
            s@.subrange(from as int, to as int),
        ) && dec_value(s@.subrange(from as int, to as int)) <= maxval),
{
    if to - from < 1 || to - from > maxlen {
        return None;
    }
    let mut v: u32 = 0;
    let mut i: usize = from;
    while i < to
        invariant
            from <= i <= to <= s@.len(),
            to - from <= 5,
            all_dec_digits(s@.subrange(from as int, i as int)),
            v == dec_value(s@.subrange(from as int, i as int)),
            v < pow10((i - from) as nat),
        decreases to - i,
    {
        let c = s.get_char(i);
        if c < '0' || c > '9' {
            proof {
                assert(s@.subrange(from as int, to as int)[i - from] == s@[i as int]);
            }
            return None;
        }
        let d = (c as u32) - ('0' as u32);
        proof {
            reveal_with_fuel(pow10, 7);
            assert(pow10((i - from) as nat) <= 10000);
            let pre = s@.subrange(from as int, i as int);
            let ext = s@.subrange(from as int, (i + 1) as int);
            assert(ext.drop_last() =~= pre);
            assert(ext.last() == s@[i as int]);
            assert forall|j: int| 0 <= j < ext.len() implies is_dec_digit(#[trigger] ext[j]) by {
                if j < i - from {
                    assert(ext[j] == pre[j]);
                }
            }
        }
        v = v * 10 + d;
        i = i + 1;
    }
    if v > maxval {
        return None;
    }
    Some(v)
}

/// Parses an address string of the form `a.b.c.d:port` into an endpoint:
/// four decimal octets of at most three digits each, a colon, and a port
/// numeral of at most five digits that fits in sixteen bits. Exactly the
/// well-formed strings parse, and to the endpoint their digits denote.
pub fn to_socket_addr(addr: &str) -> (r: Result<Endpoint, ResolveError>)
    ensures
        (match r {
            Ok(ep) => valid_socket_addr(addr@) && ep == parsed_socket_addr(addr@),
            Err(e) => !valid_socket_addr(addr@) && (match e {
                ResolveError::BadAddress(a) => a@ == addr@,
                _ => false,
            }),
        }),
{
    let ghost s = addr@;
    let n: usize = addr.unicode_len();
    let p1 = match find_sep(addr, 0, n, '.') {
        Some(i) => i,
        None => {
            proof {
                if valid_socket_addr(s) {
                    let (q1, q2, q3, qc) = choose|q1: int, q2: int, q3: int, qc: int|
                        valid_split(s, q1, q2, q3, qc);
                    assert(s[q1] == '.');
                    assert(false);
                }
            }
            return Err(ResolveError::BadAddress(String::from_str(addr)));
        },
    };
    let o0 = parse_numeral(addr, 0, p1, 3, 255);
    let v0 = match o0 {
        Some(v) => v,
        None => {
            proof {
                if valid_socket_addr(s) {
                    let (q1, q2, q3, qc) = choose|q1: int, q2: int, q3: int, qc: int|
                        valid_split(s, q1, q2, q3, qc);
                    lemma_first_sep_unique(s, 0, p1 as int, q1, '.');
                    assert(valid_octet(s.subrange(0, p1 as int)));
                    assert(false);
                }
            }
            return Err(ResolveError::BadAddress(String::from_str(addr)));
        },
    };
    let p2 = match find_sep(addr, p1 + 1, n, '.') {
        Some(i) => i,
        None => {
            proof {
                if valid_socket_addr(s) {
                    let (q1, q2, q3, qc) = choose|q1: int, q2: int, q3: int, qc: int|
                        valid_split(s, q1, q2, q3, qc);
                    lemma_first_sep_unique(s, 0, p1 as int, q1, '.');
                    assert(s[q2] == '.');
                    assert(false);
                }
            }
            return Err(ResolveError::BadAddress(String::from_str(addr)));
        },
    };
    let o1 = parse_numeral(addr, p1 + 1, p2, 3, 255);
    let v1 = match o1 {
        Some(v) => v,
        None => {
            proof {
                if valid_socket_addr(s) {
                    let (q1, q2, q3, qc) = choose|q1: int, q2: int, q3: int, qc: int|
                        valid_split(s, q1, q2, q3, qc);
                    lemma_first_sep_unique(s, 0, p1 as int, q1, '.');
                    lemma_first_sep_unique(s, p1 + 1, p2 as int, q2, '.');
                    assert(valid_octet(s.subrange(p1 + 1, p2 as int)));
                    assert(false);
                }
            }
            return Err(ResolveError::BadAddress(String::from_str(addr)));
        },
    };
    let p3 = match find_sep(addr, p2 + 1, n, '.') {
        Some(i) => i,
        None => {
            proof {
                if valid_socket_addr(s) {
                    let (q1, q2, q3, qc) = choose|q1: int, q2: int, q3: int, qc: int|
                        valid_split(s, q1, q2, q3, qc);
                    lemma_first_sep_unique(s, 0, p1 as int, q1, '.');
                    lemma_first_sep_unique(s, p1 + 1, p2 as int, q2, '.');
                    assert(s[q3] == '.');
                    assert(false);
                }
            }
            return Err(ResolveError::BadAddress(String::from_str(addr)));
        },
    };
    let o2 = parse_numeral(addr, p2 + 1, p3, 3, 255);
    let v2 = match o2 {
        Some(v) => v,
        None => {
            proof {
                if valid_socket_addr(s) {
                    let (q1, q2, q3, qc) = choose|q1: int, q2: int, q3: int, qc: int|
                        valid_split(s, q1, q2, q3, qc);
                    lemma_first_sep_unique(s, 0, p1 as int, q1, '.');
                    lemma_first_sep_unique(s, p1 + 1, p2 as int, q2, '.');
                    lemma_first_sep_unique(s, p2 + 1, p3 as int, q3, '.');
                    assert(valid_octet(s.subrange(p2 + 1, p3 as int)));
                    assert(false);
                }
            }
            return Err(ResolveError::BadAddress(String::from_str(addr)));
        },
    };
    let pc = match find_sep(addr, p3 + 1, n, ':') {
        Some(i) => i,
        None => {
            proof {
                if valid_socket_addr(s) {
                    let (q1, q2, q3, qc) = choose|q1: int, q2: int, q3: int, qc: int|
                        valid_split(s, q1, q2, q3, qc);
                    lemma_first_sep_unique(s, 0, p1 as int, q1, '.');
                    lemma_first_sep_unique(s, p1 + 1, p2 as int, q2, '.');
                    lemma_first_sep_unique(s, p2 + 1, p3 as int, q3, '.');
                    assert(s[qc] == ':');
                    assert(false);
                }
            }
            return Err(ResolveError::BadAddress(String::from_str(addr)));
        },
    };
    let o3 = parse_numeral(addr, p3 + 1, pc, 3, 255);
    let v3 = match o3 {
        Some(v) => v,
        None => {
            proof {
                if valid_socket_addr(s) {
                    let (q1, q2, q3, qc) = choose|q1: int, q2: int, q3: int, qc: int|
                        valid_split(s, q1, q2, q3, qc);
                    lemma_first_sep_unique(s, 0, p1 as int, q1, '.');
                    lemma_first_sep_unique(s, p1 + 1, p2 as int, q2, '.');
                    lemma_first_sep_unique(s, p2 + 1, p3 as int, q3, '.');
                    lemma_first_sep_unique(s, p3 + 1, pc as int, qc, ':');
                    assert(valid_octet(s.subrange(p3 + 1, pc as int)));
                    assert(false);
                }
            }
            return Err(ResolveError::BadAddress(String::from_str(addr)));
        },
    };
    let op = parse_numeral(addr, pc + 1, n, 5, 65535);
    let vp = match op {
        Some(v) => v,
        None => {
            proof {
                if valid_socket_addr(s) {
                    let (q1, q2, q3, qc) = choose|q1: int, q2: int, q3: int, qc: int|
                        valid_split(s, q1, q2, q3, qc);
                    lemma_first_sep_unique(s, 0, p1 as int, q1, '.');
                    lemma_first_sep_unique(s, p1 + 1, p2 as int, q2, '.');
                    lemma_first_sep_unique(s, p2 + 1, p3 as int, q3, '.');
                    lemma_first_sep_unique(s, p3 + 1, pc as int, qc, ':');
                    assert(valid_port(s.subrange(pc + 1, s.len() as int)));
                    assert(false);
                }
            }
            return Err(ResolveError::BadAddress(String::from_str(addr)));
        },
    };
    let ep = Endpoint {
        ip0: v0 as u8,
        ip1: v1 as u8,
        ip2: v2 as u8,
        ip3: v3 as u8,
        port: vp as u16,
    };
    proof {
        assert(valid_split(s, p1 as int, p2 as int, p3 as int, pc as int));
        let (q1, q2, q3, qc) = choose|q1: int, q2: int, q3: int, qc: int|
            valid_split(s, q1, q2, q3, qc);
        lemma_split_unique(s, p1 as int, p2 as int, p3 as int, pc as int, q1, q2, q3, qc);
        assert(ep == split_endpoint(s, p1 as int, p2 as int, p3 as int, pc as int));
    }
    Ok(ep)
}

} // verus!
