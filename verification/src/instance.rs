//! Single-instance locks: a named system mutex that only the first instance
//! of a window gets to hold.
use vstd::prelude::*;
use crate::text::chars_of;

verus! {

/// The UTF-16 code units of a character.
pub open spec fn utf16_units(c: char) -> Seq<u16> {
    let v = c as int;
    if v < 0x10000 {
        seq![v as u16]
    } else {
        let w = v - 0x10000;
        seq![(0xd800 + w / 0x400) as u16, (0xdc00 + w % 0x400) as u16]
    }
}

/// The UTF-16 encoding of a text, as `str::encode_utf16` gives it.
pub open spec fn utf16_of(s: Seq<char>) -> Seq<u16>
    decreases s.len(),
{
    if s.len() == 0 {
        Seq::empty()
    } else {
        utf16_of(s.drop_last()) + utf16_units(s.last())
    }
}

fn push_utf16(out: &mut Vec<u16>, c: char)
    ensures
        final(out)@ == old(out)@ + utf16_units(c),
{
    let v = c as u32;
    if v < 0x10000 {
        out.push(v as u16);
        assert(final(out)@ =~= old(out)@ + utf16_units(c)) by {
            assert(utf16_units(c) == seq![v as u16]);
        }
    } else {
        let w = v - 0x10000;
        assert(w <= 0xfffff);
        assert(w / 0x400 <= 0x3ff) by (nonlinear_arith)
            requires
                w <= 0xfffff,
        ;
        assert(w % 0x400 < 0x400) by (nonlinear_arith);
        out.push((0xd800 + w / 0x400) as u16);
        out.push((0xdc00 + w % 0x400) as u16);
        assert(final(out)@ =~= old(out)@ + utf16_units(c));
    }
}

/// The name of a mutex as the system takes it: UTF-16, ended by a zero.
pub fn mutex_name_utf16(name: &str) -> (r: Vec<u16>)
    ensures
        r@ == utf16_of(name@).push(0),
{
    let cs = chars_of(name);
    let n = cs.len();
    let mut out: Vec<u16> = Vec::new();
    let mut i: usize = 0;
    while i < n
        invariant
            n == cs@.len(),
            cs@ == name@,
            i <= n,
            out@ == utf16_of(cs@.take(i as int)),
        decreases n - i,
    {
        push_utf16(&mut out, cs[i]);
        assert(cs@.take(i + 1).drop_last() =~= cs@.take(i as int));
        i = i + 1;
    }
    assert(cs@.take(n as int) =~= cs@);
    out.push(0);
    out
}

/// What came of creating a named mutex to hold a single-instance lock.
#[derive(Debug)]
pub enum InstanceLock {
    /// This instance holds the lock; it releases and closes it when done.
    Held,
    /// Another instance holds it; the handle is to be closed and this
    /// instance gives way.
    AlreadyRunning,
    /// No mutex could be created; this instance gives way.
    Unavailable,
}

/// Decides the lock from the outcome of creating the mutex: no handle means
/// no lock; a mutex that already existed belongs to another instance.
pub fn instance_lock_outcome(handle_is_null: bool, already_exists: bool) -> (r: InstanceLock)
    ensures
        handle_is_null ==> r is Unavailable,
        !handle_is_null && already_exists ==> r is AlreadyRunning,
        !handle_is_null && !already_exists ==> r is Held,
{
    if handle_is_null {
        InstanceLock::Unavailable
    } else if already_exists {
        InstanceLock::AlreadyRunning
    } else {
        InstanceLock::Held
    }
}

} // verus!
