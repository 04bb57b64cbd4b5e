//! Outcomes of a single REPL execution, and the mock REPL's behaviour.
//!
//! A REPL execution resolves exactly once: normally (`Ok`), with a reported
//! evaluation failure (`Failed`), or because the per-request interrupt fired
//! while the execution was still suspended (`Interrupted`).  The racing of a
//! real execution against the interrupt is the runtime's business; this
//! module fixes what each resolution means, and gives the mock REPL used by
//! the test fixtures as a pure function of the submitted code and of whether
//! the interrupt won the race.

use vstd::prelude::*;

verus! {

/// Why a REPL execution did not succeed.
#[derive(Debug, Clone, Copy, PartialEq, Eq, Structural)]
pub enum ReplError {
    /// The REPL reported that evaluating the code failed.
    Failed,
    /// The per-request cancellation fired before the REPL finished.
    Interrupted,
}

impl ReplError {
    /// A human-readable description of the error.
    pub fn describe(&self) -> (r: String)
        ensures
            *self is Failed ==> r@ == "Execution failed"@,
            *self is Interrupted ==> r@ == "Execution was interrupted"@,
    {
        match self {
            ReplError::Failed => "Execution failed".to_owned(),
            ReplError::Interrupted => "Execution was interrupted".to_owned(),
        }
    }
}

/// `needle` occurs contiguously somewhere in `hay`.
pub open spec fn spec_contains(hay: Seq<u8>, needle: Seq<u8>) -> bool {
    exists|i: int|
        0 <= i && i + needle.len() <= hay.len() && (#[trigger] hay.subrange(i, i + needle.len()))
            == needle
}

/// Substring search: does `needle` occur contiguously in `hay`?
pub fn contains_bytes(hay: &[u8], needle: &[u8]) -> (r: bool)
    ensures
        r == spec_contains(hay@, needle@),
{
    let hlen = hay.len();
    let nlen = needle.len();
    if nlen > hlen {
        proof {
            assert(!spec_contains(hay@, needle@));
        }
        return false;
    }
    let mut i: usize = 0;
    while i <= hlen - nlen
        invariant
            nlen <= hlen,
            hlen == hay@.len(),
            nlen == needle@.len(),
            i <= hlen - nlen + 1,
            forall|k: int|
                0 <= k < i ==> (#[trigger] hay@.subrange(k, k + needle@.len())) != needle@,
        decreases hlen - nlen - i + 1,
    {
        let mut j: usize = 0;
        let mut matched = true;
        while j < nlen
            invariant
                nlen <= hlen,
                hlen == hay@.len(),
                nlen == needle@.len(),
                i + nlen <= hlen,
                j <= nlen,
                matched <==> (forall|t: int| 0 <= t < j ==> hay@[i + t] == needle@[t]),
            decreases nlen - j,
        {
            if hay[i + j] != needle[j] {
                matched = false;
                j = nlen;
            } else {
                j = j + 1;
            }
        }
        if matched {
            proof {
                assert(hay@.subrange(i as int, i + needle@.len()) =~= needle@);
            }
            return true;
        }
        proof {
            assert(hay@.subrange(i as int, i + needle@.len()) != needle@) by {
                let t = choose|t: int| 0 <= t < nlen && hay@[i + t] != needle@[t];
                assert(hay@.subrange(i as int, i + needle@.len())[t] != needle@[t]);
            }
        }
        i = i + 1;
    }
    proof {
        assert(!spec_contains(hay@, needle@));
    }
    false
}

/// The marker that makes the mock REPL fail: the ASCII bytes of `buggy`.
pub open spec fn buggy_marker() -> Seq<u8> {
    seq![98u8, 117u8, 103u8, 103u8, 121u8]
}

/// The marker that makes the mock REPL take a long time: the bytes of
/// `expensive`, in ASCII.
pub open spec fn expensive_marker() -> Seq<u8> {
    seq![101u8, 120u8, 112u8, 101u8, 110u8, 115u8, 105u8, 118u8, 101u8]
}

/// What the buggy path writes to the output sink: the ASCII bytes of `error`.
pub open spec fn error_output() -> Seq<u8> {
    seq![101u8, 114u8, 114u8, 111u8, 114u8]
}

/// What the expensive path writes before it suspends: the ASCII bytes of
/// `partial...`.
pub open spec fn partial_output() -> Seq<u8> {
    seq![112u8, 97u8, 114u8, 116u8, 105u8, 97u8, 108u8, 46u8, 46u8, 46u8]
}

/// What the expensive path writes after its long suspension: the ASCII
/// bytes of `...rest`.
pub open spec fn rest_output() -> Seq<u8> {
    seq![46u8, 46u8, 46u8, 114u8, 101u8, 115u8, 116u8]
}

/// The mock REPL's resolution for `code`.  `interrupted` says whether the
/// per-request interrupt fired while the execution was suspended; only the
/// expensive path ever suspends, so only it can lose the race.
pub open spec fn mock_result(code: Seq<u8>, interrupted: bool) -> Result<(), ReplError> {
    if spec_contains(code, buggy_marker()) {
        Err(ReplError::Failed)
    } else if spec_contains(code, expensive_marker()) {
        if interrupted {
            Err(ReplError::Interrupted)
        } else {
            Ok(())
        }
    } else {
        Ok(())
    }
}

/// The bytes the mock REPL streams to the output sink for `code`: `error`
/// for buggy code, the partial output (and, when it is allowed to finish,
/// the rest) for expensive code, and the code itself otherwise.
pub open spec fn mock_output(code: Seq<u8>, interrupted: bool) -> Seq<u8> {
    if spec_contains(code, buggy_marker()) {
        error_output()
    } else if spec_contains(code, expensive_marker()) {
        if interrupted {
            partial_output()
        } else {
            partial_output() + rest_output()
        }
    } else {
        code
    }
}

/// Copies a byte slice into an owned vector.
fn bytes_to_vec(s: &[u8]) -> (v: Vec<u8>)
    ensures
        v@ == s@,
{
    let mut v: Vec<u8> = Vec::new();
    let mut i: usize = 0;
    while i < s.len()
        invariant
            i <= s@.len(),
            v@ == s@.take(i as int),
        decreases s@.len() - i,
    {
        v.push(s[i]);
        proof {
            assert(s@.take(i + 1) =~= s@.take(i as int).push(s@[i as int]));
        }
        i = i + 1;
    }
    proof {
        assert(s@.take(s@.len() as int) =~= s@);
    }
    v
}

/// One mock REPL execution: returns the bytes written to the output sink and
/// the resolution, as the mock behaviour prescribes for `code`.
/// `interrupted` reports whether the per-request interrupt fired while the
/// execution was suspended.
pub fn mock_execute(code: &[u8], interrupted: bool) -> (r: (Vec<u8>, Result<(), ReplError>))
    ensures
        r.0@ == mock_output(code@, interrupted),
        r.1 == mock_result(code@, interrupted),
{
    let buggy: [u8; 5] = [98, 117, 103, 103, 121];
    let expensive: [u8; 9] = [101, 120, 112, 101, 110, 115, 105, 118, 101];
    proof {
        assert(buggy@ =~= buggy_marker());
        assert(expensive@ =~= expensive_marker());
    }
    if contains_bytes(code, buggy.as_slice()) {
        let out: [u8; 5] = [101, 114, 114, 111, 114];
        let v = bytes_to_vec(out.as_slice());
        proof {
            assert(v@ =~= error_output());
        }
        (v, Err(ReplError::Failed))
    } else if contains_bytes(code, expensive.as_slice()) {
        let partial: [u8; 10] = [112, 97, 114, 116, 105, 97, 108, 46, 46, 46];
        if interrupted {
            let v = bytes_to_vec(partial.as_slice());
            proof {
                assert(v@ =~= partial_output());
            }
            (v, Err(ReplError::Interrupted))
        } else {
            let full: [u8; 17] = [
                112,
                97,
                114,
                116,
                105,
                97,
                108,
                46,
                46,
                46,
                46,
                46,
                46,
                114,
                101,
                115,
                116,
            ];
            let v = bytes_to_vec(full.as_slice());
            proof {
                assert(v@ =~= partial_output() + rest_output());
            }
            (v, Ok(()))
        }
    } else {
        (bytes_to_vec(code), Ok(()))
    }
}

} // verus!
