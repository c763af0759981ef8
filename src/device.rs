//! What is derived from one device node and its control-call records: its
//! short disk name, its controller label and its capacity in binary gigabytes.

use vstd::prelude::*;
use crate::text::{chars_of, string_of};

verus! {

/// Controller-type code of an ATA controller.
pub const CTYPE_ATA: u16 = 20;

/// Controller-type code of a SCSI controller.
pub const CTYPE_SCSI: u16 = 13;

/// Media information reported by a device: block size in bytes and capacity
/// in blocks.
pub struct DkMinfo {
    pub dki_media_type: u32,
    pub dki_lbsize: u32,
    pub dki_capacity: u64,
}

/// Controller information reported by a device; `dki_ctype` is its
/// controller-type code.
pub struct DkCinfo {
    pub dki_cname: [i8; 16],
    pub dki_ctype: u16,
    pub dki_flags: u16,
    pub dki_cnum: u16,
    pub dki_addr: u32,
    pub dki_space: u32,
    pub dki_prio: u32,
    pub dki_vec: u32,
    pub dki_dname: [i8; 16],
    pub dki_unit: u32,
    pub dki_slave: u32,
    pub dki_partition: u16,
    pub dki_maxtransfer: u16,
}

/// The display label of a controller-type code.
pub open spec fn ctype_label(code: u16) -> Seq<char> {
    if code == CTYPE_ATA {
        seq!['A', 'T', 'A']
    } else if code == CTYPE_SCSI {
        seq!['S', 'C', 'S', 'I']
    } else {
        seq!['U', 'N', 'K', 'N', 'O', 'W', 'N']
    }
}

/// Decodes a controller-type code into "ATA", "SCSI" or "UNKNOWN".
pub fn controller_label(code: u16) -> (r: String)
    ensures
        r@ == ctype_label(code),
        code != CTYPE_ATA && code != CTYPE_SCSI ==> r@ == seq!['U', 'N', 'K', 'N', 'O', 'W', 'N'],
{
    if code == CTYPE_ATA {
        let v: Vec<char> = vec!['A', 'T', 'A'];
        string_of(&v)
    } else if code == CTYPE_SCSI {
        let v: Vec<char> = vec!['S', 'C', 'S', 'I'];
        string_of(&v)
    } else {
        let v: Vec<char> = vec!['U', 'N', 'K', 'N', 'O', 'W', 'N'];
        string_of(&v)
    }
}

/// The short disk name of a device-node name: the name without its "p0"
/// suffix, for names that end in it; no name otherwise.
pub open spec fn short_name(s: Seq<char>) -> Option<Seq<char>> {
    if s.len() >= 2 && s[s.len() - 2] == 'p' && s[s.len() - 1] == '0' {
        Some(s.take(s.len() - 2))
    } else {
        None
    }
}

/// The disk name of a device-node name that denotes a whole raw disk
/// (suffix "p0"), or `None` for any other node.
pub fn disk_name(node: &str) -> (r: Option<String>)
    ensures
        r matches Some(n) ==> short_name(node@) == Some(n@),
        r is None ==> short_name(node@) is None,
{
    let c = chars_of(node);
    let n = c.len();
    if n >= 2 && c[n - 2] == 'p' && c[n - 1] == '0' {
        let mut head: Vec<char> = Vec::new();
        let mut i: usize = 0;
        while i < n - 2
            invariant
                n == c.len(),
                n >= 2,
                i <= n - 2,
                head@ == c@.take(i as int),
            decreases n - 2 - i,
        {
            head.push(c[i]);
            i += 1;
            assert(head@ =~= c@.take(i as int));
        }
        Some(string_of(&head))
    } else {
        None
    }
}

/// The decimal digit character of a value below ten.
pub open spec fn digit(d: nat) -> char {
    if d < 10 { (('0' as u8) + (d as u8)) as char } else { '0' }
}

/// The decimal representation of `n`, without leading zeros.
pub open spec fn decimal(n: nat) -> Seq<char>
    decreases n,
{
    if n < 10 {
        seq![digit(n)]
    } else {
        decimal(n / 10).push(digit(n % 10))
    }
}

fn digit_char(d: u128) -> (r: char)
    requires
        d < 10,
    ensures
        r == digit(d as nat),
{
    ((('0' as u8) + (d as u8)) as char)
}

/// Appends the decimal representation of `n` to `out`.
pub fn push_decimal(n: u128, out: &mut Vec<char>)
    ensures
        final(out)@ == old(out)@ + decimal(n as nat),
    decreases n,
{
    if n >= 10 {
        push_decimal(n / 10, out);
    }
    out.push(digit_char(n % 10));
    assert(final(out)@ =~= old(out)@ + decimal(n as nat));
}

/// The capacity in hundredths of a binary gigabyte, rounded to the nearest
/// hundredth, ties to even.
pub open spec fn gib_hundredths(block_size: nat, blocks: nat) -> nat {
    let scaled = block_size * blocks * 100;
    let q = scaled / 1073741824;
    let rem = scaled % 1073741824;
    if rem > 536870912 || (rem == 536870912 && q % 2 == 1) {
        q + 1
    } else {
        q
    }
}

/// The capacity in binary gigabytes with two decimals ("1.00").
pub open spec fn gib_text(block_size: nat, blocks: nat) -> Seq<char> {
    let h = gib_hundredths(block_size, blocks);
    decimal(h / 100).push('.').push(digit((h % 100) / 10)).push(digit(h % 10))
}

/// block_size × blocks / 1024³ with two decimals.
pub fn capacity_gib_text(block_size: u32, blocks: u64) -> (r: String)
    ensures
        r@ == gib_text(block_size as nat, blocks as nat),
{
    assert((block_size as int) * (blocks as int) <= 0xffff_ffff * 0xffff_ffff_ffff_ffff) by (nonlinear_arith)
        requires
            block_size <= 0xffff_ffff,
            blocks <= 0xffff_ffff_ffff_ffff,
    ;
    let bytes: u128 = (block_size as u128) * (blocks as u128);
    let scaled: u128 = bytes * 100;
    let q: u128 = scaled / 1073741824;
    let rem: u128 = scaled % 1073741824;
    let h: u128 = if rem > 536870912 || (rem == 536870912 && q % 2 == 1) {
        q + 1
    } else {
        q
    };
    assert(h == gib_hundredths(block_size as nat, blocks as nat));
    let mut out: Vec<char> = Vec::new();
    push_decimal(h / 100, &mut out);
    out.push('.');
    out.push(digit_char((h % 100) / 10));
    out.push(digit_char(h % 10));
    assert(out@ =~= gib_text(block_size as nat, blocks as nat));
    string_of(&out)
}

/// The capacity text of a media-information record.
pub fn media_gib_text(m: &DkMinfo) -> (r: String)
    ensures
        r@ == gib_text(m.dki_lbsize as nat, m.dki_capacity as nat),
{
    capacity_gib_text(m.dki_lbsize, m.dki_capacity)
}

} // verus!
