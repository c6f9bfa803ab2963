//! The legacy console: installed once, then used by the legacy console
//! calls.
use vstd::prelude::*;
use vstd::string::StringSliceAdditionalSpecFns;

verus! {

/// Legacy standard input/output.
///
/// Each method comes with a relation that the platform's impl gives meaning
/// to; an impl that does not give one claims nothing.
pub trait LegacyStdio {
    /// Whether `c` is a character the console may read.
    closed spec fn getchar_reply(&self, c: u8) -> bool {
        true
    }

    /// Get a character from legacy stdin.
    fn getchar(&self) -> (c: u8)
        ensures
            self.getchar_reply(c),
    ;

    /// Whether character `ch` has been written to the console.
    closed spec fn puts(&self, ch: u8) -> bool {
        true
    }

    /// Put a character into legacy stdout.
    fn putchar(&self, ch: u8)
        ensures
            self.puts(ch),
    ;

    /// Puts the bytes of `s`, in order; each of them is written.
    fn write_str(&self, s: &str)
        ensures
            forall|i: int| 0 <= i < s.spec_bytes().len() ==> self.puts(#[trigger] s.spec_bytes()[i]),
    {
        let bytes = s.as_bytes();
        let mut i: usize = 0;
        while i < bytes.len()
            invariant
                i <= bytes@.len(),
                bytes@ == s.spec_bytes(),
                forall|k: int| 0 <= k < i ==> self.puts(#[trigger] bytes@[k]),
            decreases bytes.len() - i,
        {
            self.putchar(bytes[i]);
            i += 1;
        }
    }
}

/// Installs the legacy console in `slot`, which must be empty: a console
/// is installed once.
pub fn init_legacy_stdio<S: LegacyStdio>(slot: &mut Option<S>, stdio: S)
    requires
        *old(slot) is None,
    ensures
        *final(slot) == Some(stdio),
{
    *slot = Some(stdio);
}

/// Writes `ch` to the installed console; without one, nothing happens.
pub fn legacy_stdio_putchar<S: LegacyStdio>(slot: &Option<S>, ch: u8)
    ensures
        slot matches Some(s) ==> s.puts(ch),
{
    if let Some(stdio) = slot {
        stdio.putchar(ch);
    }
}

/// Reads a character from the installed console; without one, `usize::MAX`
/// (minus one as a signed value), the legacy failure answer.
pub fn legacy_stdio_getchar<S: LegacyStdio>(slot: &Option<S>) -> (r: usize)
    ensures
        slot is None ==> r == usize::MAX,
        slot matches Some(s) ==> r < 0x100 && s.getchar_reply(r as u8),
{
    match slot {
        Some(stdio) => stdio.getchar() as usize,
        None => usize::MAX,
    }
}

} // verus!
