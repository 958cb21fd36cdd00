//! The power state of one box, and parsing it from a status token.

use vstd::prelude::*;

verus! {

/// Power state of one box as reported by the provisioning tool's status
/// listing. Derived from a single status token; any token outside the four
/// known variants is a parse failure.
#[derive(Debug, Copy, Clone, PartialEq, Eq, Structural)]
pub enum BoxStatus {
    PowerOff,
    Running,
    Saved,
    Aborted,
}

/// ASCII lower-casing of one byte; bytes outside `A`..=`Z` are unchanged.
pub open spec fn lower(b: u8) -> u8 {
    if 65 <= b && b <= 90 {
        (b + 32) as u8
    } else {
        b
    }
}

/// ASCII lower-casing of a byte sequence.
pub open spec fn lower_seq(s: Seq<u8>) -> Seq<u8> {
    s.map_values(|b: u8| lower(b))
}

pub open spec fn poweroff_token() -> Seq<u8> {
    seq![112u8, 111u8, 119u8, 101u8, 114u8, 111u8, 102u8, 102u8]
}

pub open spec fn running_token() -> Seq<u8> {
    seq![114u8, 117u8, 110u8, 110u8, 105u8, 110u8, 103u8]
}

pub open spec fn saved_token() -> Seq<u8> {
    seq![115u8, 97u8, 118u8, 101u8, 100u8]
}

pub open spec fn aborted_token() -> Seq<u8> {
    seq![97u8, 98u8, 111u8, 114u8, 116u8, 101u8, 100u8]
}

/// The status a token denotes: a case-insensitive match against the four
/// known keywords, `None` for anything else.
pub open spec fn spec_status_of_token(t: Seq<u8>) -> Option<BoxStatus> {
    if lower_seq(t) == poweroff_token() {
        Some(BoxStatus::PowerOff)
    } else if lower_seq(t) == running_token() {
        Some(BoxStatus::Running)
    } else if lower_seq(t) == saved_token() {
        Some(BoxStatus::Saved)
    } else if lower_seq(t) == aborted_token() {
        Some(BoxStatus::Aborted)
    } else {
        None
    }
}

/// Lower-cases one ASCII byte.
fn lower_byte(b: u8) -> (r: u8)
    ensures
        r == lower(b),
{
    if 65 <= b && b <= 90 {
        b + 32
    } else {
        b
    }
}

/// True exactly when `t`, lower-cased, equals `w`.
fn matches_lowered(t: &[u8], w: &[u8]) -> (r: bool)
    ensures
        r <==> lower_seq(t@) == w@,
{
    if t.len() != w.len() {
        proof {
            assert(lower_seq(t@).len() == t@.len());
        }
        return false;
    }
    let n: usize = t.len();
    let mut i: usize = 0;
    while i < n
        invariant
            n == t@.len() == w@.len(),
            0 <= i <= n,
            forall|j: int| 0 <= j < i ==> lower(t@[j]) == w@[j],
        decreases n - i,
    {
        if lower_byte(t[i]) != w[i] {
            proof {
                assert(lower_seq(t@)[i as int] != w@[i as int]);
            }
            return false;
        }
        i = i + 1;
    }
    proof {
        assert(lower_seq(t@) =~= w@);
    }
    true
}

impl BoxStatus {
    /// The state in which the box is usable without being brought up first.
    pub open spec fn spec_powered_on(self) -> bool {
        self is Running
    }

    /// True if and only if the box is in the `Running` state.
    pub fn powered_on(self) -> (r: bool)
        ensures
            r <==> self.spec_powered_on(),
    {
        match self {
            BoxStatus::Running => true,
            _ => false,
        }
    }

    /// Parses one status token, case-insensitively, into a state.
    pub fn from_status_token(token: &[u8]) -> (r: Option<BoxStatus>)
        ensures
            r == spec_status_of_token(token@),
    {
        let poweroff: [u8; 8] = [112u8, 111u8, 119u8, 101u8, 114u8, 111u8, 102u8, 102u8];
        let running: [u8; 7] = [114u8, 117u8, 110u8, 110u8, 105u8, 110u8, 103u8];
        let saved: [u8; 5] = [115u8, 97u8, 118u8, 101u8, 100u8];
        let aborted: [u8; 7] = [97u8, 98u8, 111u8, 114u8, 116u8, 101u8, 100u8];
        proof {
            assert(poweroff@ =~= poweroff_token());
            assert(running@ =~= running_token());
            assert(saved@ =~= saved_token());
            assert(aborted@ =~= aborted_token());
        }
        if matches_lowered(token, poweroff.as_slice()) {
            Some(BoxStatus::PowerOff)
        } else if matches_lowered(token, running.as_slice()) {
            Some(BoxStatus::Running)
        } else if matches_lowered(token, saved.as_slice()) {
            Some(BoxStatus::Saved)
        } else if matches_lowered(token, aborted.as_slice()) {
            Some(BoxStatus::Aborted)
        } else {
            None
        }
    }
}

/// A status token parses successfully exactly when its lower-cased form is
/// one of the four known keywords, and each keyword yields its own state.
pub proof fn lemma_status_token_cases(t: Seq<u8>)
    ensures
        spec_status_of_token(t) is Some <==> (lower_seq(t) == poweroff_token()
            || lower_seq(t) == running_token() || lower_seq(t) == saved_token() || lower_seq(t)
            == aborted_token()),
        lower_seq(t) == poweroff_token() ==> spec_status_of_token(t) == Some(BoxStatus::PowerOff),
        lower_seq(t) == running_token() ==> spec_status_of_token(t) == Some(BoxStatus::Running),
        lower_seq(t) == saved_token() ==> spec_status_of_token(t) == Some(BoxStatus::Saved),
        lower_seq(t) == aborted_token() ==> spec_status_of_token(t) == Some(BoxStatus::Aborted),
{
}

} // verus!
