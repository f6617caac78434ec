//! UTF-16 strings for the Windows API, ended by a NUL unit.
use vstd::prelude::*;

verus! {

broadcast use vstd::string::group_string_axioms;

/// The UTF-16 code units of one character.
pub open spec fn utf16_char(c: char) -> Seq<u16> {
    let v = c as u32;
    if v < 0x10000 {
        seq![v as u16]
    } else {
        let w = (v - 0x10000) as u32;
        seq![(0xD800 + (w >> 10u32)) as u16, (0xDC00 + (w & 0x3FFu32)) as u16]
    }
}

/// The UTF-16 code units of a string.
pub open spec fn utf16(s: Seq<char>) -> Seq<u16>
    decreases s.len(),
{
    if s.len() == 0 {
        Seq::empty()
    } else {
        utf16(s.drop_last()) + utf16_char(s.last())
    }
}

fn push_utf16(out: &mut Vec<u16>, c: char)
    ensures
        final(out)@ == old(out)@ + utf16_char(c),
{
    let v = c as u32;
    if v < 0x10000 {
        out.push(v as u16);
        assert(final(out)@ =~= old(out)@ + utf16_char(c));
    } else {
        let w = v - 0x10000;
        assert(w >> 10u32 <= 0x3FF) by (bit_vector)
            requires
                w <= 0x10FFFF - 0x10000,
        ;
        out.push((0xD800 + (w >> 10u32)) as u16);
        assert(w & 0x3FFu32 <= 0x3FF) by (bit_vector);
        out.push((0xDC00 + (w & 0x3FFu32)) as u16);
        assert(final(out)@ =~= old(out)@ + utf16_char(c));
    }
}

/// The UTF-16 code units of `s` followed by a NUL unit.
pub fn to_wide(s: &str) -> (r: Vec<u16>)
    ensures
        r@ == utf16(s@).push(0u16),
{
    let mut out: Vec<u16> = Vec::new();
    for c in it: s.chars()
        invariant
            it.seq() == s@,
            out@ == utf16(s@.take(it.index() as int)),
    {
        let ghost prefix = s@.take(it.index() as int);
        push_utf16(&mut out, c);
        proof {
            let next = s@.take(it.index() as int + 1);
            assert(next.drop_last() =~= prefix);
        }
    }
    assert(s@.take(s@.len() as int) =~= s@);
    out.push(0);
    out
}

/// The registry key under the current user that lists the programs started
/// at logon.
pub fn run_key_path() -> (r: Vec<u16>)
    ensures
        r@ == utf16("Software\\Microsoft\\Windows\\CurrentVersion\\Run"@).push(0u16),
{
    to_wide("Software\\Microsoft\\Windows\\CurrentVersion\\Run")
}

/// The name of the program's value under the logon key.
pub fn value_name() -> (r: Vec<u16>)
    ensures
        r@ == utf16("dsh-pet-standalone"@).push(0u16),
{
    to_wide("dsh-pet-standalone")
}

/// The command stored under the logon key: the program's path in quotes.
pub fn run_command(exe_path: &str) -> (r: Vec<u16>)
    ensures
        r@ == utf16(seq!['"'] + exe_path@ + seq!['"']).push(0u16),
{
    let mut s = String::from_str("\"");
    s.append(exe_path);
    s.append("\"");
    proof {
        reveal_strlit("\"");
        assert(s@ =~= seq!['"'] + exe_path@ + seq!['"']);
    }
    to_wide(s.as_str())
}

/// A tray tooltip: at most the first 127 units of the NUL-ended text.
pub fn tray_tip(tooltip: &str) -> (r: Vec<u16>)
    ensures
        r@ == utf16(tooltip@).push(0u16).take(
            if utf16(tooltip@).len() + 1 < 127 {
                utf16(tooltip@).len() + 1 as int
            } else {
                127
            },
        ),
{
    let full = to_wide(tooltip);
    let mut r: Vec<u16> = Vec::new();
    let mut i: usize = 0;
    while i < full.len() && i < 127
        invariant
            i <= full@.len(),
            i <= 127,
            r@ == full@.take(i as int),
        decreases full@.len() - i,
    {
        r.push(full[i]);
        assert(r@ =~= full@.take(i as int + 1));
        i = i + 1;
    }
    r
}

} // verus!
