//! A structural check on DER bytes: every GeneralizedTime element reachable
//! by walking the tag-length-value tree carries a strictly digit-formed,
//! calendar-valid timestamp. The delegated ASN.1 codec aborts on a
//! digit-formed but calendar-invalid time (month 13, hour 24), so the
//! protocol engine runs this check on every untrusted message or decrypted
//! part before handing it to a time-bearing parser. The check is
//! conservative: high-tag-number forms and length forms beyond four octets
//! are refused outright, which no Kerberos message uses.

use vstd::prelude::*;

verus! {

pub open spec fn is_dig(b: u8) -> bool {
    0x30 <= b <= 0x39
}

pub open spec fn dig(c: Seq<u8>, i: int) -> int {
    c[i] - 0x30
}

pub open spec fn two_digits(c: Seq<u8>, i: int) -> int {
    10 * dig(c, i) + dig(c, i + 1)
}

pub open spec fn leap_year(y: int) -> bool {
    (y % 4 == 0 && y % 100 != 0) || y % 400 == 0
}

pub open spec fn days_in_month(y: int, m: int) -> int {
    if m == 2 {
        if leap_year(y) {
            29
        } else {
            28
        }
    } else if m == 4 || m == 6 || m == 9 || m == 11 {
        30
    } else {
        31
    }
}

/// A GeneralizedTime content octet string that decodes without aborting:
/// fourteen digits `YYYYMMDDHHMMSS` naming a real calendar instant, a
/// trailing `Z`, and a digit decisecond when one is carried.
pub open spec fn gt_content_ok(c: Seq<u8>) -> bool {
    &&& c.len() >= 15
    &&& c[c.len() - 1] == 0x5a
    &&& (forall|i: int| 0 <= i < 14 ==> is_dig(#[trigger] c[i]))
    &&& (c.len() >= 17 ==> is_dig(c[15]))
    &&& {
        let y = 1000 * dig(c, 0) + 100 * dig(c, 1) + 10 * dig(c, 2) + dig(c, 3);
        let mo = two_digits(c, 4);
        let d = two_digits(c, 6);
        &&& 1 <= mo <= 12
        &&& 1 <= d <= days_in_month(y, mo)
        &&& two_digits(c, 8) <= 23
        &&& two_digits(c, 10) <= 59
        &&& two_digits(c, 12) <= 59
    }
}

/// Every GeneralizedTime element in this sequence of sibling DER elements,
/// recursively through constructed elements, is calendar-valid. False on any
/// structure the walk cannot follow.
pub open spec fn der_times_ok(b: Seq<u8>) -> bool
    decreases b.len(), 1nat,
{
    if b.len() == 0 {
        true
    } else if b.len() < 2 || b[0] & 0x1f == 0x1f {
        false
    } else {
        let tag = b[0];
        let l0 = b[1];
        if l0 < 0x80 {
            der_elem_ok(b, tag, 2, l0 as int)
        } else if l0 == 0x81 && b.len() >= 3 {
            der_elem_ok(b, tag, 3, b[2] as int)
        } else if l0 == 0x82 && b.len() >= 4 {
            der_elem_ok(b, tag, 4, 0x100 * b[2] + b[3])
        } else if l0 == 0x83 && b.len() >= 5 {
            der_elem_ok(b, tag, 5, 0x10000 * b[2] + 0x100 * b[3] + b[4])
        } else if l0 == 0x84 && b.len() >= 6 {
            der_elem_ok(b, tag, 6, 0x1000000 * b[2] + 0x10000 * b[3] + 0x100 * b[4] + b[5])
        } else {
            false
        }
    }
}

pub open spec fn der_elem_ok(b: Seq<u8>, tag: u8, hl: int, len: int) -> bool
    decreases b.len(), 0nat,
{
    if 2 <= hl && 0 <= len && hl + len <= b.len() {
        let content = b.subrange(hl, hl + len);
        let rest = b.subrange(hl + len, b.len() as int);
        &&& if tag & 0x20 == 0x20 {
            der_times_ok(content)
        } else if tag == 0x18 {
            gt_content_ok(content)
        } else {
            true
        }
        &&& der_times_ok(rest)
    } else {
        false
    }
}

/// Decides `gt_content_ok` of `b[from..to]`.
fn check_gt_content(b: &Vec<u8>, from: usize, to: usize) -> (r: bool)
    requires
        from <= to <= b@.len(),
    ensures
        r == gt_content_ok(b@.subrange(from as int, to as int)),
{
    let ghost c = b@.subrange(from as int, to as int);
    let n = to - from;
    if n < 15 {
        return false;
    }
    if b[to - 1] != 0x5a {
        proof {
            assert(c[c.len() - 1] == b@[to - 1]);
        }
        return false;
    }
    let mut i: usize = 0;
    while i < 14
        invariant
            i <= 14,
            from + 15 <= to <= b@.len(),
            c == b@.subrange(from as int, to as int),
            forall|j: int| 0 <= j < i ==> is_dig(#[trigger] c[j]),
        decreases 14 - i,
    {
        let v = b[from + i];
        if !(0x30 <= v && v <= 0x39) {
            proof {
                assert(c[i as int] == v);
            }
            return false;
        }
        proof {
            assert(c[i as int] == v);
        }
        i += 1;
    }
    if n >= 17 {
        let v = b[from + 15];
        if !(0x30 <= v && v <= 0x39) {
            proof {
                assert(c[15] == v);
            }
            return false;
        }
        proof {
            assert(c[15] == v);
        }
    }
    proof {
        assert(c[0] == b@[from as int] && c[1] == b@[from as int + 1]
            && c[2] == b@[from as int + 2] && c[3] == b@[from as int + 3]
            && c[4] == b@[from as int + 4] && c[5] == b@[from as int + 5]
            && c[6] == b@[from as int + 6] && c[7] == b@[from as int + 7]
            && c[8] == b@[from as int + 8] && c[9] == b@[from as int + 9]
            && c[10] == b@[from as int + 10] && c[11] == b@[from as int + 11]
            && c[12] == b@[from as int + 12] && c[13] == b@[from as int + 13]);
    }
    let y: u32 = 1000 * ((b[from] - 0x30) as u32) + 100 * ((b[from + 1] - 0x30) as u32)
        + 10 * ((b[from + 2] - 0x30) as u32) + ((b[from + 3] - 0x30) as u32);
    let mo: u32 = 10 * ((b[from + 4] - 0x30) as u32) + ((b[from + 5] - 0x30) as u32);
    let d: u32 = 10 * ((b[from + 6] - 0x30) as u32) + ((b[from + 7] - 0x30) as u32);
    let h: u32 = 10 * ((b[from + 8] - 0x30) as u32) + ((b[from + 9] - 0x30) as u32);
    let mi: u32 = 10 * ((b[from + 10] - 0x30) as u32) + ((b[from + 11] - 0x30) as u32);
    let s: u32 = 10 * ((b[from + 12] - 0x30) as u32) + ((b[from + 13] - 0x30) as u32);
    proof {
        assert(forall|j: int| 0 <= j < 14 ==> c[j] == b@[from + j]);
        assert(y == 1000 * dig(c, 0) + 100 * dig(c, 1) + 10 * dig(c, 2) + dig(c, 3));
        assert(mo == two_digits(c, 4));
        assert(d == two_digits(c, 6));
        assert(h == two_digits(c, 8));
        assert(mi == two_digits(c, 10));
        assert(s == two_digits(c, 12));
    }
    if !(1 <= mo && mo <= 12) {
        return false;
    }
    let dim: u32 = if mo == 2 {
        if (y % 4 == 0 && y % 100 != 0) || y % 400 == 0 {
            29
        } else {
            28
        }
    } else if mo == 4 || mo == 6 || mo == 9 || mo == 11 {
        30
    } else {
        31
    };
    proof {
        assert(dim == days_in_month(y as int, mo as int));
    }
    1 <= d && d <= dim && h <= 23 && mi <= 59 && s <= 59
}

/// Decides `der_times_ok` of `b[from..to]`.
fn check_der_range(b: &Vec<u8>, from: usize, to: usize) -> (r: bool)
    requires
        from <= to <= b@.len(),
    ensures
        r == der_times_ok(b@.subrange(from as int, to as int)),
    decreases to - from,
{
    let ghost w = b@.subrange(from as int, to as int);
    let n = to - from;
    if n == 0 {
        proof {
            assert(w.len() == 0);
        }
        return true;
    }
    if n < 2 || b[from] & 0x1f == 0x1f {
        proof {
            assert(w[0] == b@[from as int]);
        }
        return false;
    }
    let tag = b[from];
    let l0 = b[from + 1];
    proof {
        assert(w[0] == tag && w[1] == l0);
    }
    let hl: usize;
    let len: usize;
    if l0 < 0x80 {
        hl = 2;
        len = l0 as usize;
    } else if l0 == 0x81 && n >= 3 {
        hl = 3;
        len = b[from + 2] as usize;
        proof {
            assert(w[2] == b@[from + 2]);
        }
    } else if l0 == 0x82 && n >= 4 {
        hl = 4;
        len = 0x100 * (b[from + 2] as usize) + (b[from + 3] as usize);
        proof {
            assert(w[2] == b@[from + 2] && w[3] == b@[from + 3]);
        }
    } else if l0 == 0x83 && n >= 5 {
        hl = 5;
        len = 0x10000 * (b[from + 2] as usize) + 0x100 * (b[from + 3] as usize)
            + (b[from + 4] as usize);
        proof {
            assert(w[2] == b@[from + 2] && w[3] == b@[from + 3] && w[4] == b@[from + 4]);
        }
    } else if l0 == 0x84 && n >= 6 {
        hl = 6;
        len = 0x1000000 * (b[from + 2] as usize) + 0x10000 * (b[from + 3] as usize)
            + 0x100 * (b[from + 4] as usize) + (b[from + 5] as usize);
        proof {
            assert(w[2] == b@[from + 2] && w[3] == b@[from + 3] && w[4] == b@[from + 4]
                && w[5] == b@[from + 5]);
        }
    } else {
        return false;
    }
    if len > n - hl {
        proof {
            assert(!der_elem_ok(w, tag, hl as int, len as int));
        }
        return false;
    }
    let cfrom = from + hl;
    let cto = from + hl + len;
    proof {
        assert(w.subrange(hl as int, hl as int + len as int)
            =~= b@.subrange(cfrom as int, cto as int));
        assert(w.subrange(hl as int + len as int, w.len() as int)
            =~= b@.subrange(cto as int, to as int));
    }
    let elem_ok: bool = if tag & 0x20 == 0x20 {
        check_der_range(b, cfrom, cto)
    } else if tag == 0x18 {
        check_gt_content(b, cfrom, cto)
    } else {
        true
    };
    if !elem_ok {
        return false;
    }
    check_der_range(b, cto, to)
}

/// Decides whether every GeneralizedTime carried anywhere in these DER bytes
/// is calendar-valid, so the delegated parsers cannot abort on them.
pub fn check_der_times(b: &Vec<u8>) -> (r: bool)
    ensures
        r == der_times_ok(b@),
{
    let r = check_der_range(b, 0, b.len());
    proof {
        assert(b@.subrange(0, b@.len() as int) =~= b@);
    }
    r
}

} // verus!
