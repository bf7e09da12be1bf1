//! What crosses the boundary of the protected environment: the statuses of
//! callouts, what a callout for the store gives back, and the buffers that
//! the host has allocated inside.

use vstd::prelude::*;
use vstd::string::*;

verus! {

/// The length of a public key, in bytes.
pub const PUBLIC_KEY_SIZE: usize = 32;

/// This type represents the possible error conditions that can be
/// encountered in the enclave
#[derive(Debug, Clone, Copy, PartialEq, Eq, Structural)]
pub enum EnclaveError {
    ValidationFailure,
    /// The host was caught trying to disrupt the enclave.
    HostMisbehavior,
    Panic,
    OutOfMemory,
    ExceededRecursionLimit,
    /// Unexpected Error happened, no more details available
    Unknown,
}

impl EnclaveError {
    /// The error in words.
    pub open spec fn text(self) -> Seq<char> {
        match self {
            EnclaveError::ValidationFailure => "failed to validate transaction"@,
            EnclaveError::HostMisbehavior => "communication with the enclave's host failed"@,
            EnclaveError::Panic => "panicked due to unexpected behavior"@,
            EnclaveError::OutOfMemory => "enclave ran out of heap memory"@,
            EnclaveError::ExceededRecursionLimit => "depth of nested contract calls exceeded"@,
            EnclaveError::Unknown => "unknown error"@,
        }
    }

    pub fn message(&self) -> (r: &'static str)
        ensures
            r@ == self.text(),
    {
        match self {
            EnclaveError::ValidationFailure => "failed to validate transaction",
            EnclaveError::HostMisbehavior => "communication with the enclave's host failed",
            EnclaveError::Panic => "panicked due to unexpected behavior",
            EnclaveError::OutOfMemory => "enclave ran out of heap memory",
            EnclaveError::ExceededRecursionLimit => "depth of nested contract calls exceeded",
            EnclaveError::Unknown => "unknown error",
        }
    }
}

/// The result of the self-check.
#[derive(Debug, Clone, Copy, PartialEq, Eq, Structural)]
pub enum HealthCheckResult {
    Success,
}

impl Default for HealthCheckResult {
    fn default() -> (r: Self)
        ensures
            r == HealthCheckResult::Success,
    {
        HealthCheckResult::Success
    }
}

/// This type represent return statuses from ocalls.
#[derive(Debug, Clone, Copy, PartialEq, Eq, Structural)]
pub enum OcallReturn {
    /// Ocall returned successfully.
    Success,
    /// Ocall returned successfully, and there is no value.
    Absent,
    /// The value does not fit the buffer that was given for it.
    TooBig,
    /// Ocall failed for some reason.
    Failure,
    /// A panic happened during the ocall.
    Panic,
}

impl OcallReturn {
    /// The status as it is named.
    pub open spec fn label(self) -> Seq<char> {
        match self {
            OcallReturn::Success => "Success"@,
            OcallReturn::Absent => "None"@,
            OcallReturn::TooBig => "TooBig"@,
            OcallReturn::Failure => "Failure"@,
            OcallReturn::Panic => "Panic"@,
        }
    }

    pub fn name(&self) -> (r: &'static str)
        ensures
            r@ == self.label(),
    {
        match self {
            OcallReturn::Success => "Success",
            OcallReturn::Absent => "None",
            OcallReturn::TooBig => "TooBig",
            OcallReturn::Failure => "Failure",
            OcallReturn::Panic => "Panic",
        }
    }
}

/// The message for a callout that returned a status it should not.
pub open spec fn returned_message(callout: Seq<char>, status: OcallReturn) -> Seq<char> {
    callout + " returned "@ + status.label()
}

fn returned(callout: &str, status: OcallReturn) -> (r: String)
    ensures
        r@ == returned_message(callout@, status),
{
    let mut message = String::from_str(callout);
    message.append(" returned ");
    message.append(status.name());
    message
}

/// What a callout that stores or flushes gave: `transport` is the error of
/// the transition itself, if it failed; `status` is what the host returned.
pub fn db_done(callout: &str, transport: Option<String>, status: OcallReturn) -> (r: Result<
    (),
    String,
>)
    ensures
        match (transport, r) {
            (Some(why), Err(e)) => e@ == why@,
            (None, Ok(())) => status == OcallReturn::Success,
            (None, Err(e)) => status != OcallReturn::Success && e@ == returned_message(callout@, status),
            _ => false,
        },
{
    if let Some(why) = transport {
        return Err(why);
    }
    match status {
        OcallReturn::Success => Ok(()),
        _ => Err(returned(callout, status)),
    }
}

/// The message for a value whose buffer is not one that was allocated.
pub open spec fn not_recovered_message() -> Seq<char> {
    "Failed to recover enclave buffer"@
}

/// What a callout that reads gave: `transport` and `status` as in
/// [`db_done`]; `value` is what was recovered of the value that the host
/// handed over, if the host said that there is one.
pub fn db_got(
    callout: &str,
    transport: Option<String>,
    status: OcallReturn,
    value: Result<Option<Vec<u8>>, BufferRecoveryError>,
) -> (r: Result<Option<Vec<u8>>, String>)
    ensures
        match (transport, status) {
            (Some(why), _) => r matches Err(e) && e@ == why@,
            (None, OcallReturn::Success) => match (value, r) {
                (Ok(v), Ok(out)) => v == out,
                (Err(_), Err(e)) => e@ == not_recovered_message(),
                _ => false,
            },
            (None, OcallReturn::Absent) => r matches Ok(None),
            (None, _) => r matches Err(e) && e@ == returned_message(callout@, status),
        },
{
    if let Some(why) = transport {
        return Err(why);
    }
    match status {
        OcallReturn::Success => match value {
            Ok(v) => Ok(v),
            Err(_) => Err(String::from_str("Failed to recover enclave buffer")),
        },
        OcallReturn::Absent => Ok(None),
        _ => Err(returned(callout, status)),
    }
}

/// What a callout that reads into a buffer of `max_bytes` gave: the first
/// `value_len` bytes of the buffer are the value.
pub fn db_got_fixed(
    transport: Option<String>,
    status: OcallReturn,
    value: Vec<u8>,
    value_len: usize,
) -> (r: Result<Option<Vec<u8>>, String>)
    ensures
        match (transport, status) {
            (Some(why), _) => r matches Err(e) && e@ == why@,
            (None, OcallReturn::Success) => r matches Ok(Some(out)) && out@ == if value_len
                <= value@.len() {
                value@.subrange(0, value_len as int)
            } else {
                value@
            },
            (None, OcallReturn::Absent) => r matches Ok(None),
            (None, _) => r matches Err(e) && e@ == returned_message(
                "ocall_db_get_fixed"@,
                status,
            ),
        },
{
    if let Some(why) = transport {
        return Err(why);
    }
    match status {
        OcallReturn::Success => {
            let mut value = value;
            value.truncate(value_len);
            Ok(Some(value))
        },
        OcallReturn::Absent => Ok(None),
        _ => Err(returned("ocall_db_get_fixed", status)),
    }
}

/// What the host answers to a read into a buffer of `value_max_len` bytes:
/// a value that fits is copied, one that does not is too big, and the
/// failure of the store is a failure.
pub fn get_fixed_status(found: &Result<Option<Vec<u8>>, String>, value_max_len: usize) -> (r: OcallReturn)
    ensures
        r == match found {
            Ok(Some(v)) => if v@.len() > value_max_len {
                OcallReturn::TooBig
            } else {
                OcallReturn::Success
            },
            Ok(None) => OcallReturn::Success,
            Err(_) => OcallReturn::Failure,
        },
{
    match found {
        Ok(Some(v)) => if v.len() > value_max_len {
            OcallReturn::TooBig
        } else {
            OcallReturn::Success
        },
        Ok(None) => OcallReturn::Success,
        Err(_) => OcallReturn::Failure,
    }
}

/// A buffer was handed over that is none of those that were allocated.
#[derive(Debug, Clone, Copy, PartialEq, Eq, Structural)]
pub struct BufferRecoveryError;

/// The buffers that the host has allocated inside and not handed over yet,
/// by their addresses, in the order of their allocation.
#[derive(Debug)]
pub struct AllocateStack {
    addresses: Vec<u64>,
}

impl View for AllocateStack {
    type V = Seq<u64>;

    closed spec fn view(&self) -> Seq<u64> {
        self.addresses@
    }
}

/// The place of the last of `stack` that is `address`, if there is one.
pub open spec fn last_place(stack: Seq<u64>, address: u64) -> Option<int>
    decreases stack.len(),
{
    if stack.len() == 0 {
        None
    } else if stack.last() == address {
        Some(stack.len() - 1)
    } else {
        last_place(stack.drop_last(), address)
    }
}

/// The stack without the item at `place`: the last item takes its place.
pub open spec fn swap_removed(stack: Seq<u64>, place: int) -> Seq<u64> {
    stack.update(place, stack.last()).drop_last()
}

impl AllocateStack {
    pub fn new() -> (r: Self)
        ensures
            r@ == Seq::<u64>::empty(),
    {
        Self { addresses: Vec::new() }
    }

    /// Notes a buffer that was allocated at `address`.
    pub fn push(&mut self, address: u64)
        ensures
            final(self)@ == old(self)@.push(address),
    {
        self.addresses.push(address);
    }

    /// Takes the buffer at `address` off the stack, for the caller to
    /// recover what it holds. The null address stands for no buffer. An
    /// address that is not on the stack is refused. Of an address that is
    /// there twice, the later leaves.
    pub fn recover_buffer(&mut self, address: u64) -> (r: Result<bool, BufferRecoveryError>)
        ensures
            match r {
                Ok(false) => address == 0 && final(self)@ == old(self)@,
                Ok(true) => {
                    &&& address != 0
                    &&& last_place(old(self)@, address) matches Some(place)
                    &&& final(self)@ == swap_removed(old(self)@, place)
                },
                Err(_) => address != 0 && last_place(old(self)@, address) is None && final(self)@
                    == old(self)@,
            },
    {
        if address == 0 {
            return Ok(false);
        }
        // search the stack from the end for this pointer
        let mut i: usize = self.addresses.len();
        assert(self.addresses@.subrange(0, i as int) =~= self.addresses@);
        while i > 0
            invariant
                address != 0,
                i <= self.addresses@.len(),
                self.addresses@ == old(self)@,
                last_place(old(self)@, address) == last_place(
                    old(self)@.subrange(0, i as int),
                    address,
                ),
            decreases i,
        {
            let ghost prefix = self.addresses@.subrange(0, i as int);
            assert(prefix.drop_last() =~= self.addresses@.subrange(0, i - 1));
            assert(prefix.last() == self.addresses@[i - 1]);
            i -= 1;
            if self.addresses[i] == address {
                let _taken = self.addresses.swap_remove(i);
                return Ok(true);
            }
        }
        assert(self.addresses@.subrange(0, 0) =~= Seq::<u64>::empty());
        Err(BufferRecoveryError)
    }

    pub fn len(&self) -> (r: usize)
        ensures
            r == self@.len(),
    {
        self.addresses.len()
    }
}

} // verus!
