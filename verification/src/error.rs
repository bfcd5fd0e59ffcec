//! The conditions that stop a run, and the one that is only recorded.

use crate::text::{decimal, hex, push_decimal, push_hex};
use vstd::prelude::*;

verus! {

/// A condition that ends the run. `position` is the zero-based index of the
/// virtual instruction at which it was met.
#[derive(Clone, Copy, Debug, PartialEq, Eq, Structural)]
pub enum TranslateError {
    /// The input has an odd number of bytes, so its last instruction is cut short.
    MalformedInput { length: usize },
    /// The nibbles `(op, a, b, c)` match no instruction.
    UnknownOpcode { position: usize, op: u8, a: u8, b: u8, c: u8 },
    /// A jump or call to `target`, which the length table does not reach.
    UnresolvedForwardReference { position: usize, target: u16 },
    /// The program ends with a conditional skip.
    UnterminatedPendingBranch { position: usize },
}

/// A call to an address below the program base. The instruction emits no
/// code and the run goes on.
#[derive(Clone, Copy, Debug, PartialEq, Eq, Structural)]
pub struct AnomalousCallTarget {
    /// Zero-based index of the call among the virtual instructions.
    pub position: usize,
    /// The address that was called.
    pub target: u16,
}

/// What `TranslateError::message` returns.
pub open spec fn error_text(e: TranslateError) -> Seq<char> {
    match e {
        TranslateError::MalformedInput { length } => "Malformed input: odd length "@ + decimal(
            length as nat,
        ),
        TranslateError::UnknownOpcode { position, op, a, b, c } => "Unknown instruction: "@ + hex(
            op as nat,
            1,
            true,
        ) + hex(a as nat, 1, true) + hex(b as nat, 1, true) + hex(c as nat, 1, true)
            + " at instruction "@ + decimal(position as nat),
        TranslateError::UnresolvedForwardReference { position, target } =>
            "Unresolved forward reference: 0x"@ + hex(target as nat, 4, false)
                + " at instruction "@ + decimal(position as nat),
        TranslateError::UnterminatedPendingBranch { position } =>
            "Unterminated conditional skip at instruction "@ + decimal(position as nat),
    }
}

/// What `AnomalousCallTarget::message` returns.
pub open spec fn anomaly_text(d: AnomalousCallTarget) -> Seq<char> {
    "Call to weird location found: 0x"@ + hex(d.target as nat, 4, false) + ". Ignoring..."@
}

impl TranslateError {
    /// A one-line description of the error.
    pub fn message(&self) -> (s: String)
        ensures
            s@ == error_text(*self),
    {
        match *self {
            TranslateError::MalformedInput { length } => {
                let mut s = String::from_str("Malformed input: odd length ");
                push_decimal(&mut s, length);
                s
            },
            TranslateError::UnknownOpcode { position, op, a, b, c } => {
                let mut s = String::from_str("Unknown instruction: ");
                push_hex(&mut s, op as usize, 1, true);
                push_hex(&mut s, a as usize, 1, true);
                push_hex(&mut s, b as usize, 1, true);
                push_hex(&mut s, c as usize, 1, true);
                s.append(" at instruction ");
                push_decimal(&mut s, position);
                s
            },
            TranslateError::UnresolvedForwardReference { position, target } => {
                let mut s = String::from_str("Unresolved forward reference: 0x");
                push_hex(&mut s, target as usize, 4, false);
                s.append(" at instruction ");
                push_decimal(&mut s, position);
                s
            },
            TranslateError::UnterminatedPendingBranch { position } => {
                let mut s = String::from_str("Unterminated conditional skip at instruction ");
                push_decimal(&mut s, position);
                s
            },
        }
    }
}

impl AnomalousCallTarget {
    /// The line that reports the dropped call.
    pub fn message(&self) -> (s: String)
        ensures
            s@ == anomaly_text(*self),
    {
        let mut s = String::from_str("Call to weird location found: 0x");
        push_hex(&mut s, self.target as usize, 4, false);
        s.append(". Ignoring...");
        s
    }
}

} // verus!
