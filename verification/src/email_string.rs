use vstd::prelude::*;
use vstd::string::StringSliceAdditionalSpecFns;

verus! {

/// The byte `@`.
pub const AT_SIGN: u8 = 64;

/// The byte `.`.
pub const FULL_STOP: u8 = 46;

/// The first position at or after `from` at which `bytes` holds `byte`, or
/// the length of `bytes` where there is none.
pub open spec fn spec_index_of(bytes: Seq<u8>, byte: u8, from: int) -> int
    decreases bytes.len() - from,
{
    if from < 0 || from >= bytes.len() {
        bytes.len() as int
    } else if bytes[from] == byte {
        from
    } else {
        spec_index_of(bytes, byte, from + 1)
    }
}

/// Whether `bytes` look like an address: there is an `@`, and the part between
/// the first `@` and the next one, or the end, holds a `.` that is not its
/// first byte.
pub open spec fn spec_is_email(bytes: Seq<u8>) -> bool {
    let at = spec_index_of(bytes, AT_SIGN, 0);
    let end = spec_index_of(bytes, AT_SIGN, at + 1);
    at < bytes.len() && exists|k: int| at + 1 < k < end && bytes[k] == FULL_STOP
}

/// `spec_index_of` is the first match: nothing before it matches, and it is
/// either a match or the length.
pub proof fn lemma_index_of_is_first(bytes: Seq<u8>, byte: u8, from: int)
    requires
        0 <= from <= bytes.len(),
    ensures
        from <= spec_index_of(bytes, byte, from) <= bytes.len(),
        forall|i: int| from <= i < spec_index_of(bytes, byte, from) ==> bytes[i] != byte,
        spec_index_of(bytes, byte, from) < bytes.len() ==> bytes[spec_index_of(bytes, byte, from)]
            == byte,
    decreases bytes.len() - from,
{
    if from < bytes.len() && bytes[from] != byte {
        lemma_index_of_is_first(bytes, byte, from + 1);
    }
}

/// The first position at or after `from` at which `bytes` holds `byte`, or
/// the length of `bytes` where there is none.
pub fn index_of(bytes: &[u8], byte: u8, from: usize) -> (res: usize)
    requires
        from <= bytes@.len(),
    ensures
        res == spec_index_of(bytes@, byte, from as int),
        from <= res <= bytes@.len(),
{
    let mut i: usize = from;
    while i < bytes.len() && bytes[i] != byte
        invariant
            from <= i <= bytes@.len(),
            spec_index_of(bytes@, byte, from as int) == spec_index_of(bytes@, byte, i as int),
        decreases bytes@.len() - i,
    {
        i = i + 1;
    }
    i
}

/// A string that has passed for an address.
#[derive(Clone)]
pub struct EmailString {
    inner: String,
}

impl View for EmailString {
    type V = Seq<char>;

    closed spec fn view(&self) -> Seq<char> {
        self.inner@
    }
}

impl EmailString {
    /// Takes `str_val` over where it looks like an address, and turns it down
    /// otherwise.
    pub fn new(str_val: &str) -> (res: Result<Self, ()>)
        ensures
            res is Ok <==> spec_is_email(str_val.spec_bytes()),
            res is Ok ==> res.unwrap()@ == str_val@,
    {
        let bytes = str_val.as_bytes();
        let at = index_of(bytes, AT_SIGN, 0);
        if at >= bytes.len() {
            return Err(());
        }
        let end = index_of(bytes, AT_SIGN, at + 1);
        proof {
            lemma_index_of_is_first(bytes@, AT_SIGN, 0);
            lemma_index_of_is_first(bytes@, AT_SIGN, at as int + 1);
        }
        // the last full stop of the domain, searched from its end
        let mut k: usize = end;
        while k > at + 1 && bytes[k - 1] != FULL_STOP
            invariant
                at + 1 <= k <= end <= bytes@.len(),
                forall|j: int| k <= j < end ==> bytes@[j] != FULL_STOP,
            decreases k,
        {
            k = k - 1;
        }
        if k == at + 1 {
            // no full stop in the domain
            return Err(());
        }
        let tld_split_position = k - 1 - (at + 1);
        if tld_split_position == 0 {
            proof {
                assert(bytes@[at as int + 1] == FULL_STOP);
            }
            return Err(());
        }
        proof {
            assert(bytes@[k - 1] == FULL_STOP);
        }
        Ok(EmailString { inner: str_val.to_owned() })
    }

    /// The address as it was given.
    pub fn as_str(&self) -> (res: &str)
        ensures
            res@ == self@,
    {
        self.inner.as_str()
    }

    /// Gives the address up as a plain string.
    pub fn into_string(self) -> (res: String)
        ensures
            res@ == self@,
    {
        self.inner
    }
}

} // verus!
